//! The two message channels of the core, as plain values.
//!
//! A [`ProcessMsg`] is a command from the application to the
//! persistence actor; an [`AppMsg`] travels the other way: either a
//! confirmation the actor emits once storage has applied a command, or an
//! application-internal event.

use crate::entities::{
    EditInventory, EditInventoryView, EditTask, EditTaskView, Inventory, InventoryView,
    NewInventory, NewInventoryView, NewTask, NewTaskView, Task, TaskView, Tomato, TomatoView,
};
use vstd::prelude::*;

verus! {

/// A command for the persistence actor, executed strictly in
/// submission order.
pub enum ProcessMsg {
    /// Persist a completed session and add its span to the task's
    /// spent time, atomically.
    TomatoClose(Tomato),
    CreateInventory(NewInventory),
    /// Cascades to the inventory's tasks and their sessions.
    DeleteInventory(i32),
    UpdateInventory(EditInventory),
    CreateTask(NewTask),
    /// Cascades to the task's sessions.
    DeleteTask(i32),
    UpdateTask(EditTask),
}

#[verifier::ext_equal]
pub enum CmdView {
    TomatoClose(TomatoView),
    CreateInventory(NewInventoryView),
    DeleteInventory(int),
    UpdateInventory(EditInventoryView),
    CreateTask(NewTaskView),
    DeleteTask(int),
    UpdateTask(EditTaskView),
}

impl View for ProcessMsg {
    type V = CmdView;

    open spec fn view(&self) -> CmdView {
        match self {
            ProcessMsg::TomatoClose(t) => CmdView::TomatoClose(t@),
            ProcessMsg::CreateInventory(n) => CmdView::CreateInventory(n@),
            ProcessMsg::DeleteInventory(id) => CmdView::DeleteInventory(*id as int),
            ProcessMsg::UpdateInventory(e) => CmdView::UpdateInventory(e@),
            ProcessMsg::CreateTask(n) => CmdView::CreateTask(n@),
            ProcessMsg::DeleteTask(id) => CmdView::DeleteTask(*id as int),
            ProcessMsg::UpdateTask(e) => CmdView::UpdateTask(e@),
        }
    }
}

/// An event delivered to the application state: confirmations from
/// the actor carrying the materialized row or deleted id, and the
/// application's own internal events.
pub enum AppMsg {
    /// Show a dismissible notification banner.
    Notify(String),
    /// A session just finished; the application fills in the chosen
    /// (inventory, task) ids and forwards it to the actor.
    CloseTomato(Tomato),
    /// Storage applied the session insert and the spent-time increment.
    TomatoClosed(Tomato),
    /// Storage applied this inventory insert; here is the full row.
    NewInventory(Inventory),
    /// Storage applied the task insert; here is the full row.
    NewTask(Task),
    /// Storage applied the cascade delete of the inventory with this id.
    DeleteInventory(i32),
    /// Storage applied the cascade delete of the task with this id.
    DeleteTask(i32),
    /// The modal text input was submitted or cancelled.
    InputEnd,
    /// Storage applied this inventory patch.
    EditInventory(EditInventory),
    /// Storage applied the given task patch.
    EditTask(EditTask),
}

#[verifier::ext_equal]
pub enum EventView {
    Notify(Seq<char>),
    CloseTomato(TomatoView),
    TomatoClosed(TomatoView),
    NewInventory(InventoryView),
    NewTask(TaskView),
    DeleteInventory(int),
    DeleteTask(int),
    InputEnd,
    EditInventory(EditInventoryView),
    EditTask(EditTaskView),
}

impl View for AppMsg {
    type V = EventView;

    open spec fn view(&self) -> EventView {
        match self {
            AppMsg::Notify(s) => EventView::Notify(s@),
            AppMsg::CloseTomato(t) => EventView::CloseTomato(t@),
            AppMsg::TomatoClosed(t) => EventView::TomatoClosed(t@),
            AppMsg::NewInventory(i) => EventView::NewInventory(i@),
            AppMsg::NewTask(t) => EventView::NewTask(t@),
            AppMsg::DeleteInventory(id) => EventView::DeleteInventory(*id as int),
            AppMsg::DeleteTask(id) => EventView::DeleteTask(*id as int),
            AppMsg::InputEnd => EventView::InputEnd,
            AppMsg::EditInventory(e) => EventView::EditInventory(e@),
            AppMsg::EditTask(e) => EventView::EditTask(e@),
        }
    }
}

/// The element-wise views of a command sequence.
pub open spec fn views_of_msgs(v: Seq<ProcessMsg>) -> Seq<CmdView> {
    v.map_values(|m: ProcessMsg| m@)
}

/// The element-wise views of an event sequence.
pub open spec fn views_of_events(v: Seq<AppMsg>) -> Seq<EventView> {
    v.map_values(|m: AppMsg| m@)
}

} // verus!
