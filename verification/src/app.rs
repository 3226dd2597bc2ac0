//! The application state machine: the modal block stack that routes
//! key input, the composed components, and the two synchronous entry
//! points (`on_key`, `on_tick`, `process_msg`) the event loop drives.
//!
//! Everything here is non-blocking: storage commands leave as
//! [`ProcessMsg`] values for the persistence actor, and the mirror is
//! touched only when one of the actor's confirmations comes back in
//! through [`App::process_msg`].

use crate::entities::{EditInventory, EditTask, NewInventory, NewTask, TomatoView};
use crate::events::Key;
use crate::input::{input_on_key_rel, InputContext, InputModel};
use crate::inventory::{next_sel, prev_sel, InventoryModel, MirrorView};
use crate::laws::apply_event;
use crate::messages::{AppMsg, CmdView, ProcessMsg};
use crate::navitab::{tab_of_select, NavitabModel, TabType};
use crate::timer::{fresh_countdown, Countdown, CountdownType, TomatoModel};
use vstd::prelude::*;

verus! {

/// The modal UI context on top of the stack receives the key input;
/// an empty stack means the root tab bar.
#[derive(Clone, Copy, PartialEq, Eq, Structural, Debug)]
pub enum ActiveBlock {
    Navitab,
    InventoryList,
    TaskList,
    Input,
}

/// The block an input stack routes keys to: its top, or the tab bar
/// when it is empty.
pub open spec fn active_of(blocks: Seq<ActiveBlock>) -> ActiveBlock {
    if blocks.len() == 0 {
        ActiveBlock::Navitab
    } else {
        blocks.last()
    }
}

/// A popped stack: one shorter, or still empty.
pub open spec fn popped(blocks: Seq<ActiveBlock>) -> Seq<ActiveBlock> {
    if blocks.len() == 0 {
        blocks
    } else {
        blocks.drop_last()
    }
}

#[derive(Default)]
pub struct AppBuilder {}

pub struct App {
    pub active_blocks: Vec<ActiveBlock>,
    pub inventory: InventoryModel,
    pub tomato: TomatoModel,
    pub tabs: NavitabModel,
    pub notify: Option<String>,
    pub input: InputModel,
}

impl AppBuilder {
    /// A fresh application: empty stack, empty mirror, default
    /// pomodoro configuration, first tab selected, no notification, no
    /// modal input.
    pub fn build(self) -> (r: App)
        ensures
            r.wf(),
            r.active_blocks@.len() == 0,
            r.inventory@.inventories.len() == 0,
            r.inventory@.tasks.len() == 0,
            r.tabs.select == 0,
            r.notify is None,
            r.input.context is None,
            r.input.input@.len() == 0,
            r.tomato.where_idx is None,
            r.tomato.config == crate::timer::default_config(),
            r.tomato.state.idx == 0,
            r.tomato.countdown == fresh_countdown(
                crate::timer::default_config(),
                CountdownType::Focus,
            ),
    {
        App {
            active_blocks: Vec::new(),
            inventory: InventoryModel::new(),
            tomato: TomatoModel::new(),
            tabs: NavitabModel::new(),
            notify: None,
            input: InputModel::new(),
        }
    }
}

/// What a key does at the root tab bar: left/right move between tabs
/// first; on the pomodoro tab space flips the countdown and escape
/// restarts a focus countdown; on the inventory tab enter opens the
/// inventory list.
pub open spec fn navi_transition(pre: App, post: App, key: Key) -> bool {
    let sel2: int = if key == Key::Left {
        if pre.tabs.select > 0 {
            pre.tabs.select - 1
        } else {
            2
        }
    } else if key == Key::Right {
        (pre.tabs.select + 1) % 3
    } else {
        pre.tabs.select as int
    };
    &&& post.tabs.select == sel2
    &&& post.tabs.titles == pre.tabs.titles
    &&& post.inventory == pre.inventory
    &&& post.input == pre.input
    &&& post.notify == pre.notify
    &&& match tab_of_select(sel2) {
        TabType::Tomato => {
            &&& post.active_blocks == pre.active_blocks
            &&& if key == Key::Char(' ') {
                post.tomato == (TomatoModel {
                    countdown: (Countdown {
                        paused: !pre.tomato.countdown.paused,
                        ..pre.tomato.countdown
                    }),
                    ..pre.tomato
                })
            } else if key == Key::Esc {
                post.tomato == (TomatoModel {
                    countdown: fresh_countdown(pre.tomato.config, CountdownType::Focus),
                    ..pre.tomato
                })
            } else {
                post.tomato == pre.tomato
            }
        },
        TabType::Inventory => {
            &&& post.tomato == pre.tomato
            &&& if key == Key::Char('\n') {
                post.active_blocks@ == pre.active_blocks@.push(ActiveBlock::InventoryList)
            } else {
                post.active_blocks == pre.active_blocks
            }
        },
        TabType::Statistics => {
            &&& post.tomato == pre.tomato
            &&& post.active_blocks == pre.active_blocks
        },
    }
}

/// What a key does in the inventory list: up/down move the selection;
/// right/enter open the selected inventory's task list; escape leaves;
/// new/edit open the modal input with the matching pending edit;
/// delete issues the cascade-delete command for the selected row.
pub open spec fn inventory_list_transition(
    pre: App,
    post: App,
    key: Key,
    cmd: Option<ProcessMsg>,
) -> bool {
    &&& post.tabs == pre.tabs
    &&& post.tomato == pre.tomato
    &&& post.notify == pre.notify
    &&& match key {
        Key::Up => {
            &&& post.inventory@ == (MirrorView {
                inventory_selected: prev_sel(
                    pre.inventory@.inventory_selected,
                    pre.inventory@.inventories.len() as int,
                ),
                ..pre.inventory@
            })
            &&& post.active_blocks == pre.active_blocks
            &&& post.input == pre.input
            &&& cmd is None
        },
        Key::Down => {
            &&& post.inventory@ == (MirrorView {
                inventory_selected: next_sel(
                    pre.inventory@.inventory_selected,
                    pre.inventory@.inventories.len() as int,
                ),
                ..pre.inventory@
            })
            &&& post.active_blocks == pre.active_blocks
            &&& post.input == pre.input
            &&& cmd is None
        },
        Key::Right | Key::Char('\n') => {
            &&& post.inventory == pre.inventory
            &&& post.input == pre.input
            &&& cmd is None
            &&& if pre.inventory.inventory_selected is Some {
                post.active_blocks@ == pre.active_blocks@.push(ActiveBlock::TaskList)
            } else {
                post.active_blocks == pre.active_blocks
            }
        },
        Key::Esc => {
            &&& post.inventory == pre.inventory
            &&& post.input == pre.input
            &&& cmd is None
            &&& post.active_blocks@ == popped(pre.active_blocks@)
        },
        Key::Ctrl('n') => {
            &&& post.inventory == pre.inventory
            &&& post.active_blocks@ == pre.active_blocks@.push(ActiveBlock::Input)
            &&& post.input.input == pre.input.input
            &&& post.input.context matches Some(InputContext::NewInventory(b)) && b@.name.len() == 0
                && b@.color == 0
            &&& cmd is None
        },
        Key::Ctrl('e') => {
            &&& post.inventory == pre.inventory
            &&& cmd is None
            &&& match pre.inventory@.inventory_selected {
                Some(idx) => {
                    &&& post.active_blocks@ == pre.active_blocks@.push(ActiveBlock::Input)
                    &&& post.input.input == pre.input.input
                    &&& post.input.context matches Some(InputContext::EditInventory(e)) && e@ == (
                    crate::entities::EditInventoryView {
                        id: pre.inventory@.inventories[idx].id,
                        name: None,
                        color: None,
                    })
                },
                None => post.active_blocks == pre.active_blocks && post.input == pre.input,
            }
        },
        Key::Ctrl('d') => {
            &&& post.inventory == pre.inventory
            &&& post.active_blocks == pre.active_blocks
            &&& post.input == pre.input
            &&& match pre.inventory@.inventory_selected {
                Some(idx) => cmd matches Some(pm) && pm@ == CmdView::DeleteInventory(
                    pre.inventory@.inventories[idx].id,
                ),
                None => cmd is None,
            }
        },
        _ => {
            &&& post.inventory == pre.inventory
            &&& post.active_blocks == pre.active_blocks
            &&& post.input == pre.input
            &&& cmd is None
        },
    }
}

/// What a key does in the task list: up/down move the task selection;
/// enter hands the selected location to the pomodoro timer and
/// returns to the root with the pomodoro tab active; escape/left go
/// back; new/edit open the modal input; delete issues the
/// cascade-delete command for the selected task.
pub open spec fn task_list_transition(pre: App, post: App, key: Key, cmd: Option<
    ProcessMsg,
>) -> bool {
    let loc = match pre.inventory@.inventory_selected {
        Some(i) => match pre.inventory@.task_selected[i] {
            Some(j) => Some((i, j)),
            None => None::<(int, int)>,
        },
        None => None,
    };
    &&& post.notify == pre.notify
    &&& match key {
        Key::Up => {
            &&& post.inventory@ == match pre.inventory@.inventory_selected {
                Some(i) => (MirrorView {
                    task_selected: pre.inventory@.task_selected.update(
                        i,
                        prev_sel(
                            pre.inventory@.task_selected[i],
                            pre.inventory@.tasks[i].len() as int,
                        ),
                    ),
                    ..pre.inventory@
                }),
                None => pre.inventory@,
            }
            &&& post.active_blocks == pre.active_blocks
            &&& post.tabs == pre.tabs
            &&& post.tomato == pre.tomato
            &&& post.input == pre.input
            &&& cmd is None
        },
        Key::Down => {
            &&& post.inventory@ == match pre.inventory@.inventory_selected {
                Some(i) => (MirrorView {
                    task_selected: pre.inventory@.task_selected.update(
                        i,
                        next_sel(
                            pre.inventory@.task_selected[i],
                            pre.inventory@.tasks[i].len() as int,
                        ),
                    ),
                    ..pre.inventory@
                }),
                None => pre.inventory@,
            }
            &&& post.active_blocks == pre.active_blocks
            &&& post.tabs == pre.tabs
            &&& post.tomato == pre.tomato
            &&& post.input == pre.input
            &&& cmd is None
        },
        Key::Char('\n') => {
            &&& post.inventory == pre.inventory
            &&& post.input == pre.input
            &&& cmd is None
            &&& match loc {
                Some((i, j)) => {
                    &&& post.tomato == (TomatoModel {
                        where_idx: Some((i as usize, j as usize)),
                        ..pre.tomato
                    })
                    &&& post.active_blocks@.len() == 0
                    &&& post.tabs.select == (pre.tabs.select + 1) % 3
                    &&& post.tabs.titles == pre.tabs.titles
                },
                None => {
                    &&& post.tomato == pre.tomato
                    &&& post.active_blocks == pre.active_blocks
                    &&& post.tabs == pre.tabs
                },
            }
        },
        Key::Esc | Key::Left => {
            &&& post.inventory == pre.inventory
            &&& post.input == pre.input
            &&& post.tabs == pre.tabs
            &&& post.tomato == pre.tomato
            &&& cmd is None
            &&& post.active_blocks@ == popped(pre.active_blocks@)
        },
        Key::Ctrl('n') => {
            &&& post.inventory == pre.inventory
            &&& post.tabs == pre.tabs
            &&& post.tomato == pre.tomato
            &&& cmd is None
            &&& match pre.inventory@.inventory_selected {
                Some(idx) => {
                    &&& post.active_blocks@ == pre.active_blocks@.push(ActiveBlock::Input)
                    &&& post.input.input == pre.input.input
                    &&& post.input.context matches Some(InputContext::NewTask(b)) && b@ == (
                    crate::entities::NewTaskView {
                        inventory_id: pre.inventory@.inventories[idx].id,
                        name: Seq::empty(),
                        notes: None,
                    })
                },
                None => post.active_blocks == pre.active_blocks && post.input == pre.input,
            }
        },
        Key::Ctrl('e') => {
            &&& post.inventory == pre.inventory
            &&& post.tabs == pre.tabs
            &&& post.tomato == pre.tomato
            &&& cmd is None
            &&& match loc {
                Some((i, j)) => {
                    &&& post.active_blocks@ == pre.active_blocks@.push(ActiveBlock::Input)
                    &&& post.input.input == pre.input.input
                    &&& post.input.context matches Some(InputContext::EditTask(e)) && e@ == (
                    crate::entities::EditTaskView {
                        id: pre.inventory@.tasks[i][j].id,
                        name: None,
                    })
                },
                None => post.active_blocks == pre.active_blocks && post.input == pre.input,
            }
        },
        Key::Ctrl('d') => {
            &&& post.inventory == pre.inventory
            &&& post.tabs == pre.tabs
            &&& post.tomato == pre.tomato
            &&& post.active_blocks == pre.active_blocks
            &&& post.input == pre.input
            &&& match loc {
                Some((i, j)) => cmd matches Some(pm) && pm@ == CmdView::DeleteTask(
                    pre.inventory@.tasks[i][j].id,
                ),
                None => cmd is None,
            }
        },
        _ => {
            &&& post.inventory == pre.inventory
            &&& post.tabs == pre.tabs
            &&& post.tomato == pre.tomato
            &&& post.active_blocks == pre.active_blocks
            &&& post.input == pre.input
            &&& cmd is None
        },
    }
}

fn navi_handle(app: &mut App, key: Key)
    requires
        old(app).wf(),
    ensures
        final(app).wf(),
        navi_transition(*old(app), *final(app), key),
{
    match key {
        Key::Left => app.tabs.previous(),
        Key::Right => app.tabs.next(),
        _ => {},
    }
    match app.tabs.tab_type() {
        TabType::Tomato => {
            match key {
                Key::Char(c) => if c == ' ' {
                    app.tomato.flip();
                },
                Key::Esc => app.tomato.reset(),
                _ => {},
            }
        },
        TabType::Inventory => {
            match key {
                Key::Char(c) => if c == '\n' {
                    app.push_block(ActiveBlock::InventoryList);
                },
                _ => {},
            }
        },
        TabType::Statistics => {},
    }
}

fn inventory_list_handle(app: &mut App, key: Key) -> (cmd: Option<ProcessMsg>)
    requires
        old(app).wf(),
    ensures
        final(app).wf(),
        inventory_list_transition(*old(app), *final(app), key, cmd),
{
    match key {
        Key::Up => {
            app.inventory.previous_inventory();
            None
        },
        Key::Down => {
            app.inventory.next_inventory();
            None
        },
        Key::Right | Key::Char('\n') => {
            if app.inventory.inventory_selected.is_some() {
                app.push_block(ActiveBlock::TaskList);
            }
            None
        },
        Key::Esc => {
            app.pop_block();
            None
        },
        Key::Ctrl('n') => {
            let inv = NewInventory::default();
            app.push_block(ActiveBlock::Input);
            app.input.set_context(InputContext::NewInventory(inv));
            None
        },
        Key::Ctrl('e') => {
            if let Some(idx) = app.inventory.inventory_selected {
                let mut inv = EditInventory::default();
                inv.id = app.inventory.inventory_list[idx].id;
                app.push_block(ActiveBlock::Input);
                app.input.set_context(InputContext::EditInventory(inv));
            }
            None
        },
        Key::Ctrl('d') => {
            if let Some(idx) = app.inventory.inventory_selected {
                let id = app.inventory.inventory_list[idx].id;
                Some(ProcessMsg::DeleteInventory(id))
            } else {
                None
            }
        },
        _ => None,
    }
}

fn inventory_task_handle(app: &mut App, key: Key) -> (cmd: Option<ProcessMsg>)
    requires
        old(app).wf(),
    ensures
        final(app).wf(),
        task_list_transition(*old(app), *final(app), key, cmd),
{
    match key {
        Key::Up => {
            app.inventory.previous_task();
            None
        },
        Key::Down => {
            app.inventory.next_task();
            None
        },
        Key::Char(c) if c == '\n' => {
            if let Some(loc) = app.inventory.get_task_location() {
                app.tomato.set_where_idx(loc);
                app.reset_block();
                app.tabs.next();
            }
            None
        },
        Key::Esc | Key::Left => {
            app.pop_block();
            None
        },
        Key::Ctrl('n') => {
            if let Some(idx) = app.inventory.inventory_selected {
                let mut task = NewTask::default();
                task.inventory_id = app.inventory.inventory_list[idx].id;
                app.push_block(ActiveBlock::Input);
                app.input.set_context(InputContext::NewTask(task));
            }
            None
        },
        Key::Ctrl('e') => {
            if let Some((iidx, tidx)) = app.inventory.get_task_location() {
                let mut task = EditTask::default();
                task.id = app.inventory.tasks_list[iidx][tidx].id;
                app.push_block(ActiveBlock::Input);
                app.input.set_context(InputContext::EditTask(task));
            }
            None
        },
        Key::Ctrl('d') => {
            if let Some((iidx, tidx)) = app.inventory.get_task_location() {
                let id = app.inventory.tasks_list[iidx][tidx].id;
                Some(ProcessMsg::DeleteTask(id))
            } else {
                None
            }
        },
        _ => None,
    }
}

/// The session a finished focus interval books, once the chosen
/// location is filled in from the mirror: the row ids of that location,
/// or nothing when no valid location is chosen.
pub open spec fn fill_session(m: MirrorView, loc: Option<(usize, usize)>, t: TomatoView) -> Option<
    TomatoView,
> {
    match loc {
        Some((i, j)) => if i < m.inventories.len() && i < m.tasks.len() && j
            < m.tasks[i as int].len() {
            Some(
                TomatoView {
                    inventory_id: m.inventories[i as int].id,
                    task_id: m.tasks[i as int][j as int].id,
                    ..t
                },
            )
        } else {
            None
        },
        None => None,
    }
}

impl App {
    /// The components the state machine routes through are well formed.
    pub open spec fn wf(self) -> bool {
        &&& self.inventory@.wf()
        &&& self.tomato.wf()
        &&& self.tabs.wf()
    }

    /// Apply one application event: a confirmation from the actor
    /// mutates the mirror exactly as the event says; a finished focus
    /// interval is stamped with the chosen location and leaves as a
    /// session-close command; an input end pops the modal block.
    pub fn process_msg(&mut self, msg: AppMsg) -> (cmd: Option<ProcessMsg>)
        requires
            old(self).wf(),
        ensures
            final(self).wf(),
            final(self).inventory@ == apply_event(old(self).inventory@, msg@),
            final(self).tomato == old(self).tomato,
            final(self).tabs == old(self).tabs,
            final(self).input == old(self).input,
            match msg {
                AppMsg::Notify(ref s) => final(self).notify matches Some(n) && n@ == s@,
                _ => final(self).notify == old(self).notify,
            },
            final(self).active_blocks@ == match msg {
                AppMsg::InputEnd => popped(old(self).active_blocks@),
                _ => old(self).active_blocks@,
            },
            cmd == match msg {
                AppMsg::CloseTomato(t) => match fill_session(
                    old(self).inventory@,
                    old(self).tomato.where_idx,
                    t@,
                ) {
                    Some(tv) => Some(
                        ProcessMsg::TomatoClose(
                            crate::entities::Tomato {
                                inventory_id: tv.inventory_id as i32,
                                task_id: tv.task_id as i32,
                                start_time: t.start_time,
                                end_time: t.end_time,
                            },
                        ),
                    ),
                    None => None::<ProcessMsg>,
                },
                _ => None::<ProcessMsg>,
            },
    {
        match msg {
            AppMsg::Notify(s) => {
                self.notify = Some(s);
                None
            },
            AppMsg::CloseTomato(t) => {
                if let Some((iidx, tidx)) = self.tomato.where_idx() {
                    if iidx < self.inventory.inventory_list.len() && iidx
                        < self.inventory.tasks_list.len() && tidx
                        < self.inventory.tasks_list[iidx].len() {
                        let filled = crate::entities::Tomato {
                            inventory_id: self.inventory.inventory_list[iidx].id,
                            task_id: self.inventory.tasks_list[iidx][tidx].id,
                            start_time: t.start_time,
                            end_time: t.end_time,
                        };
                        Some(ProcessMsg::TomatoClose(filled))
                    } else {
                        None
                    }
                } else {
                    None
                }
            },
            AppMsg::TomatoClosed(t) => {
                self.inventory.apply_tomato(&t);
                None
            },
            AppMsg::NewInventory(inv) => {
                self.inventory.push_new_inventory(inv);
                None
            },
            AppMsg::NewTask(task) => {
                self.inventory.push_new_task(task);
                None
            },
            AppMsg::DeleteInventory(id) => {
                self.inventory.delete_inventory(id);
                None
            },
            AppMsg::DeleteTask(id) => {
                self.inventory.delete_task(id);
                None
            },
            AppMsg::InputEnd => {
                self.pop_block();
                None
            },
            AppMsg::EditInventory(inv) => {
                self.inventory.edit_inventory(&inv);
                None
            },
            AppMsg::EditTask(task) => {
                self.inventory.edit_task(&task);
                None
            },
        }
    }

    /// One timer tick, with the wall-clock milliseconds since the last
    /// one: an exhausted countdown ends the phase (a just-ended focus
    /// phase comes back as the session-close request) and the cycle
    /// advances with a fresh paused countdown; otherwise a running
    /// countdown consumes the elapsed time, clamped at zero.
    pub fn on_tick(&mut self, elapsed_ms: u64) -> (r: Option<AppMsg>)
        requires
            old(self).wf(),
        ensures
            final(self).wf(),
            final(self).inventory == old(self).inventory,
            final(self).tabs == old(self).tabs,
            final(self).input == old(self).input,
            final(self).notify == old(self).notify,
            final(self).active_blocks == old(self).active_blocks,
            final(self).tomato.config == old(self).tomato.config,
            final(self).tomato.where_idx == old(self).tomato.where_idx,
            final(self).tomato.state.states == old(self).tomato.state.states,
            old(self).tomato.countdown.left == 0 ==> {
                &&& final(self).tomato.state.idx == (old(self).tomato.state.idx + 1) % (
                old(self).tomato.state.states@.len() as int)
                &&& final(self).tomato.countdown == crate::timer::fresh_countdown(
                    old(self).tomato.config,
                    final(self).tomato.current_phase(),
                )
            },
            old(self).tomato.countdown.left != 0 ==> {
                &&& final(self).tomato.state == old(self).tomato.state
                &&& final(self).tomato.countdown.color == old(self).tomato.countdown.color
                &&& final(self).tomato.countdown.paused == old(self).tomato.countdown.paused
                &&& final(self).tomato.countdown.left == if old(self).tomato.countdown.paused {
                    old(self).tomato.countdown.left
                } else if old(self).tomato.countdown.left >= elapsed_ms {
                    (old(self).tomato.countdown.left - elapsed_ms) as u64
                } else {
                    0u64
                }
            },
            r is Some <==> (old(self).tomato.countdown.left == 0 && old(self).tomato.current_phase()
                == CountdownType::Focus),
            r matches Some(m) ==> m matches AppMsg::CloseTomato(t) && crate::timer::session_shape(
                t,
                old(self).tomato.config,
            ),
    {
        match self.tomato.on_tick(elapsed_ms) {
            Some(t) => Some(AppMsg::CloseTomato(t)),
            None => None,
        }
    }

    /// The block the next key goes to.
    pub fn active_block(&self) -> (r: ActiveBlock)
        ensures
            r == active_of(self.active_blocks@),
    {
        let n = self.active_blocks.len();
        if n == 0 {
            ActiveBlock::Navitab
        } else {
            self.active_blocks[n - 1]
        }
    }

    /// Enter a modal context: it goes on top of the stack.
    pub fn push_block(&mut self, block: ActiveBlock)
        ensures
            *final(self) == (App { active_blocks: final(self).active_blocks, ..*old(self) }),
            final(self).active_blocks@ == old(self).active_blocks@.push(block),
    {
        self.active_blocks.push(block);
    }

    /// Leave the top modal context; on an empty stack nothing happens.
    pub fn pop_block(&mut self)
        ensures
            *final(self) == (App { active_blocks: final(self).active_blocks, ..*old(self) }),
            final(self).active_blocks@ == popped(old(self).active_blocks@),
    {
        self.active_blocks.pop();
        proof {
            if old(self).active_blocks@.len() == 0 {
                assert(self.active_blocks@ =~= old(self).active_blocks@);
            }
        }
    }

    /// Back to the root: the stack empties.
    pub fn reset_block(&mut self)
        ensures
            *final(self) == (App { active_blocks: final(self).active_blocks, ..*old(self) }),
            final(self).active_blocks@.len() == 0,
    {
        self.active_blocks.clear();
    }

    /// `q` quits only while no modal text input is active.
    pub fn is_q_quit_enable(&self) -> (r: bool)
        ensures
            r == (active_of(self.active_blocks@) != ActiveBlock::Input),
    {
        self.active_block() != ActiveBlock::Input
    }

    /// Route one key.  A visible notification eats the escape key
    /// first; otherwise the block on top of the stack handles the key,
    /// and whatever it produced is handed back: an application event
    /// to re-enqueue, and/or a command for the persistence actor.
    pub fn on_key(&mut self, key: Key) -> (r: (Option<AppMsg>, Option<ProcessMsg>))
        requires
            old(self).wf(),
        ensures
            final(self).wf(),
            key == Key::Esc && old(self).notify is Some ==> {
                &&& *final(self) == (App { notify: None, ..*old(self) })
                &&& r.0 is None
                &&& r.1 is None
            },
            !(key == Key::Esc && old(self).notify is Some) ==> match active_of(
                old(self).active_blocks@,
            ) {
                ActiveBlock::Navitab => navi_transition(*old(self), *final(self), key) && r.0
                    is None && r.1 is None,
                ActiveBlock::InventoryList => inventory_list_transition(
                    *old(self),
                    *final(self),
                    key,
                    r.1,
                ) && r.0 is None,
                ActiveBlock::TaskList => task_list_transition(*old(self), *final(self), key, r.1)
                    && r.0 is None,
                ActiveBlock::Input => {
                    &&& input_on_key_rel(old(self).input, final(self).input, key, r)
                    &&& final(self).active_blocks == old(self).active_blocks
                    &&& final(self).inventory == old(self).inventory
                    &&& final(self).tomato == old(self).tomato
                    &&& final(self).tabs == old(self).tabs
                    &&& final(self).notify == old(self).notify
                },
            },
    {
        if key == Key::Esc && self.notify.is_some() {
            self.notify = None;
            return (None, None);
        }
        match self.active_block() {
            ActiveBlock::Navitab => {
                navi_handle(self, key);
                (None, None)
            },
            ActiveBlock::InventoryList => {
                let cmd = inventory_list_handle(self, key);
                (None, cmd)
            },
            ActiveBlock::TaskList => {
                let cmd = inventory_task_handle(self, key);
                (None, cmd)
            },
            ActiveBlock::Input => self.input.on_key(key),
        }
    }
}

} // verus!
