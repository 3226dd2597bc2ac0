//! Core of a terminal pomodoro tracker: a two-level inventory/task
//! hierarchy with timed focus sessions, a stack-based modal navigation
//! state machine, a cyclic phase timer, and a single-consumer
//! persistence actor whose storage behaviour is modelled and proved
//! against an in-memory reference store.

pub mod app;
pub mod color;
pub mod entities;
pub mod events;
pub mod input;
pub mod inventory;
pub mod navitab;
pub mod actor;
pub(crate) mod clock;
pub mod laws;
pub mod messages;
pub mod seq_util;
pub mod store;
pub mod timer;
