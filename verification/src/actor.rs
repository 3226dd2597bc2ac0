//! The persistence actor's processing discipline: commands are
//! executed strictly one at a time against the store, each one
//! completed before the next starts, and every command is answered by
//! exactly one confirmation, in submission order.
//!
//! [`actor_step`] is the specification of a single command;
//! [`run_actor`] and [`actor_outputs`] fold it over a whole queue.

use crate::clock::now_timestamp;
use crate::entities::TomatoView;
use crate::messages::{views_of_events, views_of_msgs, AppMsg, CmdView, EventView, ProcessMsg};
use crate::store::{
    spec_create_inventory, spec_create_task, spec_create_tomato, spec_delete_inventory,
    spec_delete_task, spec_edit_inventory, spec_edit_task, spec_update_task_spent, Store,
    StoreView,
};
use vstd::prelude::*;

verus! {

/// The spent-time increment a session earns: its span, clamped into
/// `[0, i64::MAX]` for degenerate timestamps.
pub open spec fn session_delta(t: TomatoView) -> int {
    if t.start_time > t.end_time {
        0
    } else if t.end_time - t.start_time > i64::MAX {
        i64::MAX as int
    } else {
        t.end_time - t.start_time
    }
}

pub(crate) fn session_delta_exec(t: &crate::entities::Tomato) -> (r: i64)
    ensures
        r == session_delta(t@),
{
    if t.start_time > t.end_time {
        0
    } else if t.start_time >= 0 {
        t.end_time - t.start_time
    } else if t.end_time <= i64::MAX + t.start_time {
        t.end_time - t.start_time
    } else {
        i64::MAX
    }
}

/// One command against the store: the store afterwards, and the
/// confirmation the actor emits.  `now` is the timestamp a created
/// task is stamped with.
pub open spec fn actor_step(s: StoreView, c: CmdView, now: int) -> (StoreView, EventView) {
    match c {
        CmdView::TomatoClose(t) => (
            spec_create_tomato(spec_update_task_spent(s, t.task_id, session_delta(t)), t),
            EventView::TomatoClosed(t),
        ),
        CmdView::CreateInventory(n) => {
            let (s2, row) = spec_create_inventory(s, n.name, n.color);
            (s2, EventView::NewInventory(row))
        },
        CmdView::DeleteInventory(id) => (spec_delete_inventory(s, id), EventView::DeleteInventory(
            id,
        )),
        CmdView::UpdateInventory(e) => (
            spec_edit_inventory(s, e.id, e.name, e.color),
            EventView::EditInventory(e),
        ),
        CmdView::CreateTask(n) => {
            let (s2, row) = spec_create_task(s, n.inventory_id, n.name, n.notes, now);
            (s2, EventView::NewTask(row))
        },
        CmdView::DeleteTask(id) => (spec_delete_task(s, id), EventView::DeleteTask(id)),
        CmdView::UpdateTask(e) => (spec_edit_task(s, e.id, e.name), EventView::EditTask(e)),
    }
}

/// The confirmation a command is owed: same variant, same subject.
pub open spec fn confirms(c: CmdView, e: EventView) -> bool {
    match c {
        CmdView::TomatoClose(t) => e == EventView::TomatoClosed(t),
        CmdView::CreateInventory(n) => match e {
            EventView::NewInventory(row) => row.name == n.name && row.color == n.color,
            _ => false,
        },
        CmdView::DeleteInventory(id) => e == EventView::DeleteInventory(id),
        CmdView::UpdateInventory(p) => e == EventView::EditInventory(p),
        CmdView::CreateTask(n) => match e {
            EventView::NewTask(row) => row.inventory_id == n.inventory_id && row.name == n.name
                && row.notes == n.notes && row.spent_minutes == 0,
            _ => false,
        },
        CmdView::DeleteTask(id) => e == EventView::DeleteTask(id),
        CmdView::UpdateTask(p) => e == EventView::EditTask(p),
    }
}

/// The store after a whole command queue was processed in order.
pub open spec fn run_actor(s: StoreView, cmds: Seq<CmdView>, now: int) -> StoreView
    decreases cmds.len(),
{
    if cmds.len() == 0 {
        s
    } else {
        actor_step(run_actor(s, cmds.drop_last(), now), cmds.last(), now).0
    }
}

/// The confirmations a whole command queue produces, in order.
pub open spec fn actor_outputs(s: StoreView, cmds: Seq<CmdView>, now: int) -> Seq<EventView>
    decreases cmds.len(),
{
    if cmds.len() == 0 {
        Seq::empty()
    } else {
        actor_outputs(s, cmds.drop_last(), now).push(
            actor_step(run_actor(s, cmds.drop_last(), now), cmds.last(), now).1,
        )
    }
}

/// Serial processing answers every command, in submission order: the
/// i-th confirmation is exactly the step of the i-th command against
/// the store as the first i commands left it, and it confirms that
/// command.
pub proof fn lemma_actor_fifo(s: StoreView, cmds: Seq<CmdView>, now: int)
    ensures
        actor_outputs(s, cmds, now).len() == cmds.len(),
        forall|i: int|
            0 <= i < cmds.len() ==> actor_outputs(s, cmds, now)[i] == actor_step(
                run_actor(s, cmds.take(i), now),
                cmds[i],
                now,
            ).1,
        forall|i: int| 0 <= i < cmds.len() ==> confirms(cmds[i], actor_outputs(s, cmds, now)[i]),
    decreases cmds.len(),
{
    if cmds.len() > 0 {
        lemma_actor_fifo(s, cmds.drop_last(), now);
        assert(cmds.drop_last() =~= cmds.take(cmds.len() - 1));
        assert forall|i: int| 0 <= i < cmds.len() - 1 implies cmds.drop_last().take(i) =~= cmds.take(
            i,
        ) by {}
    }
}

/// The actor also never increases an id generator by more than one
/// step per command.
pub proof fn lemma_actor_step_ids(s: StoreView, c: CmdView, now: int)
    ensures
        actor_step(s, c, now).0.next_inventory_id <= s.next_inventory_id + 1,
        actor_step(s, c, now).0.next_task_id <= s.next_task_id + 1,
        actor_step(s, c, now).0.next_inventory_id >= s.next_inventory_id,
        actor_step(s, c, now).0.next_task_id >= s.next_task_id,
{
}

impl Store {
    /// Execute one command, fully, and hand back its confirmation.
    /// Only the creating commands need headroom in their id generator.
    pub fn process_message(&mut self, msg: ProcessMsg, now: i64) -> (ev: AppMsg)
        requires
            msg matches ProcessMsg::CreateInventory(_) ==> old(self).next_inventory_id < i32::MAX,
            msg matches ProcessMsg::CreateTask(_) ==> old(self).next_task_id < i32::MAX,
        ensures
            final(self)@ == actor_step(old(self)@, msg@, now as int).0,
            ev@ == actor_step(old(self)@, msg@, now as int).1,
    {
        match msg {
            ProcessMsg::TomatoClose(t) => {
                let delta = session_delta_exec(&t);
                self.update_task_spent(t.task_id, delta);
                self.create_new_tomato(t);
                AppMsg::TomatoClosed(t)
            },
            ProcessMsg::CreateInventory(inv) => {
                let row = self.create_new_inventory(&inv.name, inv.color);
                AppMsg::NewInventory(row)
            },
            ProcessMsg::DeleteInventory(id) => {
                self.delete_inventory(id);
                AppMsg::DeleteInventory(id)
            },
            ProcessMsg::UpdateInventory(patch) => {
                self.edit_inventory(&patch);
                AppMsg::EditInventory(patch)
            },
            ProcessMsg::CreateTask(task) => {
                let notes = match &task.notes {
                    Some(n) => Some(n.as_str()),
                    None => None,
                };
                let row = self.create_new_task(task.inventory_id, &task.name, notes, now);
                AppMsg::NewTask(row)
            },
            ProcessMsg::DeleteTask(id) => {
                self.delete_task(id);
                AppMsg::DeleteTask(id)
            },
            ProcessMsg::UpdateTask(patch) => {
                self.edit_task(&patch);
                AppMsg::EditTask(patch)
            },
        }
    }

    /// Execute one command stamped with the wall clock.
    pub fn process_message_now(&mut self, msg: ProcessMsg) -> (ev: AppMsg)
        requires
            msg matches ProcessMsg::CreateInventory(_) ==> old(self).next_inventory_id < i32::MAX,
            msg matches ProcessMsg::CreateTask(_) ==> old(self).next_task_id < i32::MAX,
        ensures
            exists|now: int|
                final(self)@ == actor_step(old(self)@, msg@, now).0 && ev@ == actor_step(
                    old(self)@,
                    msg@,
                    now,
                ).1,
    {
        let now = now_timestamp();
        self.process_message(msg, now)
    }

    /// Drain a whole command queue strictly in order.  The
    /// confirmations come back in the same order the commands were
    /// submitted in, one for one.
    pub fn process_all(&mut self, msgs: Vec<ProcessMsg>, now: i64) -> (evs: Vec<AppMsg>)
        requires
            old(self).next_inventory_id + msgs@.len() <= i32::MAX,
            old(self).next_task_id + msgs@.len() <= i32::MAX,
        ensures
            final(self)@ == run_actor(old(self)@, views_of_msgs(msgs@), now as int),
            views_of_events(evs@) == actor_outputs(old(self)@, views_of_msgs(msgs@), now as int),
            evs@.len() == msgs@.len(),
    {
        let ghost cmds = views_of_msgs(msgs@);
        let ghost s0 = self@;
        let mut evs: Vec<AppMsg> = Vec::new();
        let n = msgs.len();
        let mut msgs = msgs;
        let mut i: usize = 0;
        proof {
            assert(cmds.take(0) =~= Seq::<CmdView>::empty());
            assert(views_of_msgs(msgs@) =~= cmds.skip(0));
        }
        while i < n
            invariant
                i <= n,
                cmds.len() == n,
                msgs@.len() == n - i,
                views_of_msgs(msgs@) == cmds.skip(i as int),
                self@ == run_actor(s0, cmds.take(i as int), now as int),
                views_of_events(evs@) == actor_outputs(s0, cmds.take(i as int), now as int),
                evs@.len() == i,
                self.next_inventory_id <= s0.next_inventory_id + i,
                self.next_task_id <= s0.next_task_id + i,
                s0.next_inventory_id + n <= i32::MAX,
                s0.next_task_id + n <= i32::MAX,
            decreases n - i,
        {
            proof {
                assert(msgs@[0]@ == cmds.skip(i as int)[0]);
            }
            let ghost prev = msgs@;
            let msg = msgs.remove(0);
            proof {
                assert(msg@ == cmds[i as int]);
                assert forall|j: int|
                    0 <= j < msgs@.len() implies views_of_msgs(msgs@)[j] == cmds.skip(i + 1)[j] by {
                    assert(msgs@[j] == prev[j + 1]);
                    assert(views_of_msgs(prev)[j + 1] == cmds.skip(i as int)[j + 1]);
                }
                assert(views_of_msgs(msgs@) =~= cmds.skip(i + 1));
                lemma_actor_step_ids(self@, msg@, now as int);
                crate::seq_util::lemma_take_push(cmds, i as int);
            }
            let ev = self.process_message(msg, now);
            evs.push(ev);
            proof {
                assert(cmds.take(i + 1).drop_last() =~= cmds.take(i as int));
                assert(cmds.take(i + 1).last() == cmds[i as int]);
                assert(views_of_events(evs@) =~= actor_outputs(s0, cmds.take(i + 1), now as int));
            }
            i += 1;
        }
        proof {
            assert(cmds.take(n as int) =~= cmds);
        }
        evs
    }
}

} // verus!
