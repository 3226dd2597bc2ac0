//! The system-wide laws: the mirror tracks confirmed storage state,
//! cascade deletes leave no orphans, and spent time accounts exactly
//! for the confirmed sessions.
//!
//! Everything here is stated over the spec-level transition functions
//! that the executable store, actor and mirror are proved to
//! implement.

use crate::actor::{actor_outputs, actor_step, run_actor, session_delta};
use crate::entities::{InventoryView, TaskView, TomatoView};
use crate::inventory::{
    first_inventory_idx, lemma_first_inventory_idx_in_range, lemma_first_inventory_idx_some,
    mirror_apply_tomato, mirror_delete_inventory, mirror_delete_task, mirror_edit_inventory,
    mirror_edit_task, mirror_push_inventory, mirror_push_task, MirrorView,
};
use crate::messages::{CmdView, EventView};
use crate::seq_util::{
    lemma_filter_absorb, lemma_filter_all, lemma_filter_comm, lemma_filter_distinct_keys,
    lemma_filter_map, lemma_filter_none, lemma_filter_push, lemma_filter_sub,
};
use crate::store::{
    inventory_not_id, spec_delete_inventory, spec_delete_task, task_crediter, task_in_inventory,
    task_not_id, task_not_in_inventory, task_patcher, tomato_not_in_inventory, tomato_not_of_task,
    StoreView,
};
use vstd::prelude::*;

verus! {

/// How the application state applies one event to the mirror:
/// confirmations mutate it, everything else leaves it alone.
pub open spec fn apply_event(m: MirrorView, e: EventView) -> MirrorView {
    match e {
        EventView::NewInventory(inv) => mirror_push_inventory(m, inv),
        EventView::NewTask(t) => mirror_push_task(m, t),
        EventView::DeleteInventory(id) => mirror_delete_inventory(m, id),
        EventView::DeleteTask(id) => mirror_delete_task(m, id),
        EventView::EditInventory(p) => mirror_edit_inventory(m, p),
        EventView::EditTask(p) => mirror_edit_task(m, p),
        EventView::TomatoClosed(t) => mirror_apply_tomato(m, t),
        EventView::Notify(_) => m,
        EventView::CloseTomato(_) => m,
        EventView::InputEnd => m,
    }
}

/// The mirror after a whole event sequence, applied in order.
pub open spec fn apply_events(m: MirrorView, evs: Seq<EventView>) -> MirrorView
    decreases evs.len(),
{
    if evs.len() == 0 {
        m
    } else {
        apply_event(apply_events(m, evs.drop_last()), evs.last())
    }
}

/// The mirror is exactly the confirmed storage content: the same
/// inventory rows in the same order, and under each one exactly that
/// inventory's stored tasks, in storage order.
pub open spec fn corresponds(m: MirrorView, s: StoreView) -> bool {
    &&& m.inventories == s.inventories
    &&& m.tasks.len() == m.inventories.len()
    &&& forall|k: int|
        0 <= k < m.inventories.len() ==> #[trigger] m.tasks[k] == s.tasks_of(m.inventories[k].id)
}

/// The commands the UI can actually issue against a store: creations
/// have id room, a task joins a live inventory, and a session is well
/// formed, booked against a live task of the inventory it names, and
/// does not overflow that task's counter.
pub open spec fn cmd_valid(s: StoreView, c: CmdView) -> bool {
    match c {
        CmdView::CreateInventory(_) => s.next_inventory_id <= i32::MAX,
        CmdView::CreateTask(n) => s.next_task_id <= i32::MAX && exists|j: int|
            0 <= j < s.inventories.len() && (#[trigger] s.inventories[j]).id == n.inventory_id,
        CmdView::TomatoClose(t) => t.wf() && exists|j: int|
            0 <= j < s.tasks.len() && (#[trigger] s.tasks[j]).id == t.task_id
                && s.tasks[j].inventory_id == t.inventory_id && s.tasks[j].spent_minutes
                + t.duration() <= i64::MAX,
        CmdView::DeleteInventory(_) => true,
        CmdView::DeleteTask(_) => true,
        CmdView::UpdateInventory(_) => true,
        CmdView::UpdateTask(_) => true,
    }
}

/// Validity of a whole queue, each command judged against the store
/// the ones before it left behind.
pub open spec fn cmds_valid(s: StoreView, cmds: Seq<CmdView>, now: int) -> bool
    decreases cmds.len(),
{
    if cmds.len() == 0 {
        true
    } else {
        cmds_valid(s, cmds.drop_last(), now) && cmd_valid(
            run_actor(s, cmds.drop_last(), now),
            cmds.last(),
        )
    }
}

/// Cascade-deleting an inventory keeps the store well formed.
pub proof fn lemma_delete_inventory_wf(s: StoreView, id: int)
    requires
        s.wf(),
    ensures
        spec_delete_inventory(s, id).wf(),
{
    let s2 = spec_delete_inventory(s, id);
    let ikey = |x: InventoryView| x.id;
    let tkey = |t: TaskView| t.id;
    lemma_filter_sub(s.inventories, inventory_not_id(id));
    lemma_filter_distinct_keys(s.inventories, inventory_not_id(id), ikey);
    lemma_filter_sub(s.tasks, task_not_in_inventory(id));
    lemma_filter_distinct_keys(s.tasks, task_not_in_inventory(id), tkey);
    assert forall|i: int, j: int|
        0 <= i < j < s2.inventories.len() implies (#[trigger] s2.inventories[i]).id != (
    #[trigger] s2.inventories[j]).id by {
        assert(ikey(s2.inventories[i]) != ikey(s2.inventories[j]));
    }
    assert forall|i: int, j: int|
        0 <= i < j < s2.tasks.len() implies (#[trigger] s2.tasks[i]).id != (
    #[trigger] s2.tasks[j]).id by {
        assert(tkey(s2.tasks[i]) != tkey(s2.tasks[j]));
    }
    assert forall|i: int|
        0 <= i < s2.inventories.len() implies 1 <= (#[trigger] s2.inventories[i]).id
        < s2.next_inventory_id by {
        let x = s2.inventories[i];
        assert(s.inventories.contains(x));
        let j = choose|j: int| 0 <= j < s.inventories.len() && s.inventories[j] == x;
        assert(1 <= s.inventories[j].id < s.next_inventory_id);
    }
    assert forall|i: int|
        0 <= i < s2.tasks.len() implies 1 <= (#[trigger] s2.tasks[i]).id < s2.next_task_id
        && s2.tasks[i].inventory_id < s2.next_inventory_id by {
        let x = s2.tasks[i];
        assert(s.tasks.contains(x));
        let j = choose|j: int| 0 <= j < s.tasks.len() && s.tasks[j] == x;
        assert(1 <= s.tasks[j].id < s.next_task_id);
        assert(s.tasks[j].inventory_id < s.next_inventory_id);
    }
    assert forall|i: int| 0 <= i < s2.tomatos.len() implies s2.session_linked(
        #[trigger] s2.tomatos[i],
    ) by {
        let x = s2.tomatos[i];
        s.tomatos.lemma_filter_pred(tomato_not_in_inventory(id), i);
        lemma_filter_sub(s.tomatos, tomato_not_in_inventory(id));
        assert(s.tomatos.contains(x));
        let k = choose|k: int| 0 <= k < s.tomatos.len() && s.tomatos[k] == x;
        assert(s.session_linked(s.tomatos[k]));
        let j = choose|j: int|
            0 <= j < s.tasks.len() && (#[trigger] s.tasks[j]).id == x.task_id
                && s.tasks[j].inventory_id == x.inventory_id;
        assert(s.tasks[j].inventory_id != id);
        s.tasks.lemma_filter_contains(task_not_in_inventory(id), j);
        assert(s2.tasks.contains(s.tasks[j]));
        let j2 = choose|j2: int| 0 <= j2 < s2.tasks.len() && s2.tasks[j2] == s.tasks[j];
        assert(0 <= j2 < s2.tasks.len() && s2.tasks[j2].id == x.task_id && s2.tasks[j2].inventory_id
            == x.inventory_id);
    }
}

/// Cascade-deleting a task keeps the store well formed.
pub proof fn lemma_delete_task_wf(s: StoreView, id: int)
    requires
        s.wf(),
    ensures
        spec_delete_task(s, id).wf(),
{
    let s2 = spec_delete_task(s, id);
    let tkey = |t: TaskView| t.id;
    lemma_filter_sub(s.tasks, task_not_id(id));
    lemma_filter_distinct_keys(s.tasks, task_not_id(id), tkey);
    assert forall|i: int, j: int|
        0 <= i < j < s2.tasks.len() implies (#[trigger] s2.tasks[i]).id != (
    #[trigger] s2.tasks[j]).id by {
        assert(tkey(s2.tasks[i]) != tkey(s2.tasks[j]));
    }
    assert forall|i: int|
        0 <= i < s2.tasks.len() implies 1 <= (#[trigger] s2.tasks[i]).id < s2.next_task_id
        && s2.tasks[i].inventory_id < s2.next_inventory_id by {
        let x = s2.tasks[i];
        assert(s.tasks.contains(x));
        let j = choose|j: int| 0 <= j < s.tasks.len() && s.tasks[j] == x;
        assert(1 <= s.tasks[j].id < s.next_task_id);
        assert(s.tasks[j].inventory_id < s.next_inventory_id);
    }
    assert forall|i: int| 0 <= i < s2.tomatos.len() implies s2.session_linked(
        #[trigger] s2.tomatos[i],
    ) by {
        let x = s2.tomatos[i];
        s.tomatos.lemma_filter_pred(tomato_not_of_task(id), i);
        lemma_filter_sub(s.tomatos, tomato_not_of_task(id));
        assert(s.tomatos.contains(x));
        let k = choose|k: int| 0 <= k < s.tomatos.len() && s.tomatos[k] == x;
        assert(s.session_linked(s.tomatos[k]));
        let j = choose|j: int|
            0 <= j < s.tasks.len() && (#[trigger] s.tasks[j]).id == x.task_id
                && s.tasks[j].inventory_id == x.inventory_id;
        assert(s.tasks[j].id != id);
        s.tasks.lemma_filter_contains(task_not_id(id), j);
        assert(s2.tasks.contains(s.tasks[j]));
        let j2 = choose|j2: int| 0 <= j2 < s2.tasks.len() && s2.tasks[j2] == s.tasks[j];
        assert(0 <= j2 < s2.tasks.len() && s2.tasks[j2].id == x.task_id && s2.tasks[j2].inventory_id
            == x.inventory_id);
    }
}

/// When exactly one row carries the id, deleting by position is the
/// same as filtering the id out.
pub proof fn lemma_remove_unique_is_filter(invs: Seq<InventoryView>, id: int, i: int)
    requires
        0 <= i < invs.len(),
        invs[i].id == id,
        forall|j: int| 0 <= j < invs.len() && j != i ==> (#[trigger] invs[j]).id != id,
    ensures
        invs.remove(i) == invs.filter(inventory_not_id(id)),
    decreases invs.len(),
{
    reveal(Seq::filter);
    let dl = invs.drop_last();
    let x = invs.last();
    if i == invs.len() - 1 {
        lemma_filter_all(dl, inventory_not_id(id));
        assert(invs.remove(i) =~= dl);
    } else {
        lemma_remove_unique_is_filter(dl, id, i);
        assert(invs.remove(i) =~= dl.remove(i).push(x));
        lemma_filter_push(dl, x, inventory_not_id(id));
        assert(invs.filter(inventory_not_id(id)) == dl.filter(inventory_not_id(id)).push(x));
    }
}

/// One valid actor step keeps the store well formed, and applying its
/// confirmation keeps the mirror equal to the store.
pub proof fn lemma_step_preserves(s: StoreView, m: MirrorView, c: CmdView, now: int)
    requires
        s.wf(),
        corresponds(m, s),
        cmd_valid(s, c),
    ensures
        actor_step(s, c, now).0.wf(),
        corresponds(apply_event(m, actor_step(s, c, now).1), actor_step(s, c, now).0),
{
    let s2 = actor_step(s, c, now).0;
    let m2 = apply_event(m, actor_step(s, c, now).1);
    match c {
        CmdView::CreateInventory(n) => {
            let inv = InventoryView { id: s.next_inventory_id, name: n.name, color: n.color };
            assert forall|a: int|
                0 <= a < s2.inventories.len() implies 1 <= (#[trigger] s2.inventories[a]).id
                < s2.next_inventory_id by {
                if a < s.inventories.len() {
                    assert(s2.inventories[a] == s.inventories[a]);
                } else {
                    assert(s2.inventories[a] == inv);
                }
            }
            assert forall|a: int, b: int|
                0 <= a < b < s2.inventories.len() implies (#[trigger] s2.inventories[a]).id != (
            #[trigger] s2.inventories[b]).id by {
                if b == s.inventories.len() {
                    assert(s2.inventories[a] == s.inventories[a]);
                    assert(s2.inventories[b] == inv);
                }
            }
            assert forall|k: int|
                0 <= k < m2.inventories.len() implies #[trigger] m2.tasks[k] == s2.tasks_of(
                m2.inventories[k].id,
            ) by {
                if k < m.inventories.len() {
                    assert(m2.tasks[k] == m.tasks[k]);
                    assert(m2.inventories[k] == m.inventories[k]);
                } else {
                    assert(m2.inventories[k] == inv);
                    assert(m2.tasks[k] =~= Seq::<TaskView>::empty());
                    assert(forall|i: int|
                        0 <= i < s2.tasks.len() ==> !task_in_inventory(inv.id)(
                            #[trigger] s2.tasks[i],
                        ));
                    lemma_filter_none(s2.tasks, task_in_inventory(inv.id));
                }
            }
        },
        CmdView::CreateTask(n) => {
            let t = TaskView {
                id: s.next_task_id,
                inventory_id: n.inventory_id,
                name: n.name,
                spent_minutes: 0,
                create_at: now,
                notes: n.notes,
            };
            let jw = choose|j: int|
                0 <= j < s.inventories.len() && (#[trigger] s.inventories[j]).id == n.inventory_id;
            assert(s.inventories[jw].id < s.next_inventory_id);
            assert forall|a: int|
                0 <= a < s2.tasks.len() implies 1 <= (#[trigger] s2.tasks[a]).id < s2.next_task_id
                && s2.tasks[a].inventory_id < s2.next_inventory_id by {
                if a < s.tasks.len() {
                    assert(s2.tasks[a] == s.tasks[a]);
                } else {
                    assert(s2.tasks[a] == t);
                }
            }
            assert forall|a: int, b: int|
                0 <= a < b < s2.tasks.len() implies (#[trigger] s2.tasks[a]).id != (
            #[trigger] s2.tasks[b]).id by {
                if b == s.tasks.len() {
                    assert(s2.tasks[a] == s.tasks[a]);
                    assert(s2.tasks[b] == t);
                }
            }
            assert forall|i: int| 0 <= i < s2.tomatos.len() implies s2.session_linked(
                #[trigger] s2.tomatos[i],
            ) by {
                assert(s.session_linked(s.tomatos[i]));
                let j = choose|j: int|
                    0 <= j < s.tasks.len() && (#[trigger] s.tasks[j]).id == s.tomatos[i].task_id
                        && s.tasks[j].inventory_id == s.tomatos[i].inventory_id;
                assert(s2.tasks[j] == s.tasks[j]);
            }
            lemma_first_inventory_idx_some(m.inventories, t.inventory_id);
            lemma_first_inventory_idx_in_range(m.inventories, t.inventory_id);
            let i = first_inventory_idx(m.inventories, t.inventory_id)->Some_0;
            assert forall|k: int|
                0 <= k < m2.inventories.len() implies #[trigger] m2.tasks[k] == s2.tasks_of(
                m2.inventories[k].id,
            ) by {
                lemma_filter_push(s.tasks, t, task_in_inventory(m.inventories[k].id));
                if k == i {
                    assert(m2.tasks[k] == m.tasks[i].push(t));
                } else {
                    if k < i {
                        assert(m.inventories[k].id != m.inventories[i].id);
                    } else {
                        assert(m.inventories[i].id != m.inventories[k].id);
                    }
                    assert(m2.tasks[k] == m.tasks[k]);
                }
            }
        },
        CmdView::TomatoClose(t) => {
            let f = task_crediter(t.task_id, session_delta(t));
            assert(forall|x: TaskView| (#[trigger] f(x)).id == x.id && f(x).inventory_id
                == x.inventory_id);
            assert forall|a: int|
                0 <= a < s2.tasks.len() implies 1 <= (#[trigger] s2.tasks[a]).id < s2.next_task_id
                && s2.tasks[a].inventory_id < s2.next_inventory_id by {
                assert(s2.tasks[a] == f(s.tasks[a]));
            }
            assert forall|a: int, b: int|
                0 <= a < b < s2.tasks.len() implies (#[trigger] s2.tasks[a]).id != (
            #[trigger] s2.tasks[b]).id by {
                assert(s2.tasks[a] == f(s.tasks[a]));
                assert(s2.tasks[b] == f(s.tasks[b]));
            }
            assert forall|i: int| 0 <= i < s2.tomatos.len() implies s2.session_linked(
                #[trigger] s2.tomatos[i],
            ) by {
                if i < s.tomatos.len() {
                    assert(s.session_linked(s.tomatos[i]));
                    let j = choose|j: int|
                        0 <= j < s.tasks.len() && (#[trigger] s.tasks[j]).id == s.tomatos[i].task_id
                            && s.tasks[j].inventory_id == s.tomatos[i].inventory_id;
                    assert(s2.tasks[j] == f(s.tasks[j]));
                    assert(s2.tasks[j].id == s2.tomatos[i].task_id && s2.tasks[j].inventory_id
                        == s2.tomatos[i].inventory_id);
                } else {
                    assert(s2.tomatos[i] == t);
                    let j = choose|j: int|
                        0 <= j < s.tasks.len() && (#[trigger] s.tasks[j]).id == t.task_id
                            && s.tasks[j].inventory_id == t.inventory_id;
                    assert(s2.tasks[j] == f(s.tasks[j]));
                    assert(s2.tasks[j].id == t.task_id && s2.tasks[j].inventory_id
                        == t.inventory_id);
                }
            }
            assert forall|k: int|
                0 <= k < m2.inventories.len() implies #[trigger] m2.tasks[k] == s2.tasks_of(
                m2.inventories[k].id,
            ) by {
                let p = task_in_inventory(m.inventories[k].id);
                assert(forall|x: TaskView| p(#[trigger] f(x)) == p(x));
                lemma_filter_map(s.tasks, f, p);
                assert(m2.tasks[k] == m.tasks[k].map_values(f));
            }
        },
        CmdView::DeleteInventory(id) => {
            lemma_delete_inventory_wf(s, id);
            match first_inventory_idx(m.inventories, id) {
                Some(i) => {
                    lemma_first_inventory_idx_in_range(m.inventories, id);
                    assert forall|j: int|
                        0 <= j < m.inventories.len() && j != i implies (
                    #[trigger] m.inventories[j]).id != id by {
                        if j < i {
                            assert(m.inventories[j].id != m.inventories[i].id);
                        } else {
                            assert(m.inventories[i].id != m.inventories[j].id);
                        }
                    }
                    lemma_remove_unique_is_filter(m.inventories, id, i);
                    assert(m2.inventories == s2.inventories);
                    assert forall|k: int|
                        0 <= k < m2.inventories.len() implies #[trigger] m2.tasks[k]
                        == s2.tasks_of(m2.inventories[k].id) by {
                        let kk = if k < i {
                            k
                        } else {
                            k + 1
                        };
                        assert(m2.tasks[k] == m.tasks[kk]);
                        assert(m2.inventories[k] == m.inventories[kk]);
                        assert(m.inventories[kk].id != id);
                        assert(forall|x: TaskView|
                            #[trigger] task_in_inventory(m.inventories[kk].id)(x)
                                ==> task_not_in_inventory(id)(x));
                        lemma_filter_absorb(
                            s.tasks,
                            task_not_in_inventory(id),
                            task_in_inventory(m.inventories[kk].id),
                        );
                    }
                },
                None => {
                    assert forall|j: int|
                        0 <= j < m.inventories.len() implies (#[trigger] m.inventories[j]).id
                        != id by {
                        if m.inventories[j].id == id {
                            lemma_first_inventory_idx_some(m.inventories, id);
                        }
                    }
                    lemma_filter_all(s.inventories, inventory_not_id(id));
                    assert(m2.inventories == s2.inventories);
                    assert forall|k: int|
                        0 <= k < m2.inventories.len() implies #[trigger] m2.tasks[k]
                        == s2.tasks_of(m2.inventories[k].id) by {
                        assert(m.inventories[k].id != id);
                        assert(forall|x: TaskView|
                            #[trigger] task_in_inventory(m.inventories[k].id)(x)
                                ==> task_not_in_inventory(id)(x));
                        lemma_filter_absorb(
                            s.tasks,
                            task_not_in_inventory(id),
                            task_in_inventory(m.inventories[k].id),
                        );
                    }
                },
            }
        },
        CmdView::DeleteTask(id) => {
            lemma_delete_task_wf(s, id);
            assert forall|k: int|
                0 <= k < m2.inventories.len() implies #[trigger] m2.tasks[k] == s2.tasks_of(
                m2.inventories[k].id,
            ) by {
                assert(m2.tasks[k] == m.tasks[k].filter(task_not_id(id)));
                lemma_filter_comm(s.tasks, task_in_inventory(m.inventories[k].id), task_not_id(id));
            }
        },
        CmdView::UpdateInventory(p) => {
            let f = crate::store::inventory_patcher(p.id, p.name, p.color);
            assert(forall|x: InventoryView| (#[trigger] f(x)).id == x.id);
            assert forall|a: int|
                0 <= a < s2.inventories.len() implies 1 <= (#[trigger] s2.inventories[a]).id
                < s2.next_inventory_id by {
                assert(s2.inventories[a] == f(s.inventories[a]));
            }
            assert forall|a: int, b: int|
                0 <= a < b < s2.inventories.len() implies (#[trigger] s2.inventories[a]).id != (
            #[trigger] s2.inventories[b]).id by {
                assert(s2.inventories[a] == f(s.inventories[a]));
                assert(s2.inventories[b] == f(s.inventories[b]));
            }
            assert(m2.inventories == s2.inventories);
            assert forall|k: int|
                0 <= k < m2.inventories.len() implies #[trigger] m2.tasks[k] == s2.tasks_of(
                m2.inventories[k].id,
            ) by {
                assert(m2.inventories[k] == f(m.inventories[k]));
                assert(m2.inventories[k].id == m.inventories[k].id);
                assert(m2.tasks[k] == m.tasks[k]);
            }
        },
        CmdView::UpdateTask(p) => {
            let f = task_patcher(p.id, p.name);
            assert(forall|x: TaskView| (#[trigger] f(x)).id == x.id && f(x).inventory_id
                == x.inventory_id);
            assert forall|a: int|
                0 <= a < s2.tasks.len() implies 1 <= (#[trigger] s2.tasks[a]).id < s2.next_task_id
                && s2.tasks[a].inventory_id < s2.next_inventory_id by {
                assert(s2.tasks[a] == f(s.tasks[a]));
            }
            assert forall|a: int, b: int|
                0 <= a < b < s2.tasks.len() implies (#[trigger] s2.tasks[a]).id != (
            #[trigger] s2.tasks[b]).id by {
                assert(s2.tasks[a] == f(s.tasks[a]));
                assert(s2.tasks[b] == f(s.tasks[b]));
            }
            assert forall|i: int| 0 <= i < s2.tomatos.len() implies s2.session_linked(
                #[trigger] s2.tomatos[i],
            ) by {
                assert(s.session_linked(s.tomatos[i]));
                let j = choose|j: int|
                    0 <= j < s.tasks.len() && (#[trigger] s.tasks[j]).id == s.tomatos[i].task_id
                        && s.tasks[j].inventory_id == s.tomatos[i].inventory_id;
                assert(s2.tasks[j] == f(s.tasks[j]));
                assert(s2.tasks[j].id == s2.tomatos[i].task_id && s2.tasks[j].inventory_id
                    == s2.tomatos[i].inventory_id);
            }
            assert forall|k: int|
                0 <= k < m2.inventories.len() implies #[trigger] m2.tasks[k] == s2.tasks_of(
                m2.inventories[k].id,
            ) by {
                let q = task_in_inventory(m.inventories[k].id);
                assert(forall|x: TaskView| q(#[trigger] f(x)) == q(x));
                lemma_filter_map(s.tasks, f, q);
                assert(m2.tasks[k] == m.tasks[k].map_values(f));
            }
        },
    }
}

/// Deleting an inventory removes, in one step, every task of that
/// inventory and every session booked against it, and leaves no orphan
/// rows: every remaining session still points at a live task.
pub proof fn lemma_delete_inventory_cascades(s: StoreView, id: int)
    requires
        s.wf(),
    ensures
        spec_delete_inventory(s, id).wf(),
        forall|i: int|
            0 <= i < spec_delete_inventory(s, id).inventories.len() ==> (
            #[trigger] spec_delete_inventory(s, id).inventories[i]).id != id,
        forall|i: int|
            0 <= i < spec_delete_inventory(s, id).tasks.len() ==> (
            #[trigger] spec_delete_inventory(s, id).tasks[i]).inventory_id != id,
        forall|i: int|
            0 <= i < spec_delete_inventory(s, id).tomatos.len() ==> (
            #[trigger] spec_delete_inventory(s, id).tomatos[i]).inventory_id != id,
        forall|i: int|
            0 <= i < spec_delete_inventory(s, id).tomatos.len()
                ==> spec_delete_inventory(s, id).session_linked(
                #[trigger] spec_delete_inventory(s, id).tomatos[i],
            ),
{
    let s2 = spec_delete_inventory(s, id);
    lemma_delete_inventory_wf(s, id);
    assert forall|i: int|
        0 <= i < s2.inventories.len() implies (#[trigger] s2.inventories[i]).id != id by {
        s.inventories.lemma_filter_pred(inventory_not_id(id), i);
    }
    assert forall|i: int|
        0 <= i < s2.tasks.len() implies (#[trigger] s2.tasks[i]).inventory_id != id by {
        s.tasks.lemma_filter_pred(task_not_in_inventory(id), i);
    }
    assert forall|i: int|
        0 <= i < s2.tomatos.len() implies (#[trigger] s2.tomatos[i]).inventory_id != id by {
        s.tomatos.lemma_filter_pred(tomato_not_in_inventory(id), i);
    }
}

/// The spent time a session sequence owes one task: the sum of
/// `end_time - start_time` over the sessions booked against it.
pub open spec fn sum_durations(ts: Seq<TomatoView>, task_id: int) -> int
    decreases ts.len(),
{
    if ts.len() == 0 {
        0
    } else {
        sum_durations(ts.drop_last(), task_id) + if ts.last().task_id == task_id {
            ts.last().duration()
        } else {
            0
        }
    }
}

/// Every task's counter equals the sum of the durations of the
/// sessions booked against it.
pub open spec fn sessions_account(s: StoreView) -> bool {
    forall|i: int|
        0 <= i < s.tasks.len() ==> (#[trigger] s.tasks[i]).spent_minutes == sum_durations(
            s.tomatos,
            s.tasks[i].id,
        )
}

pub proof fn lemma_sum_push(ts: Seq<TomatoView>, t: TomatoView, task_id: int)
    ensures
        sum_durations(ts.push(t), task_id) == sum_durations(ts, task_id) + if t.task_id == task_id {
            t.duration()
        } else {
            0
        },
{
    assert(ts.push(t).drop_last() =~= ts);
}

pub proof fn lemma_sum_absent(ts: Seq<TomatoView>, task_id: int)
    requires
        forall|i: int| 0 <= i < ts.len() ==> (#[trigger] ts[i]).task_id != task_id,
    ensures
        sum_durations(ts, task_id) == 0,
    decreases ts.len(),
{
    if ts.len() > 0 {
        lemma_sum_absent(ts.drop_last(), task_id);
    }
}

/// Filtering away only sessions of other tasks does not change a
/// task's sum.
pub proof fn lemma_sum_filter_keep(ts: Seq<TomatoView>, p: spec_fn(TomatoView) -> bool, task_id: int)
    requires
        forall|i: int| 0 <= i < ts.len() && (#[trigger] ts[i]).task_id == task_id ==> p(ts[i]),
    ensures
        sum_durations(ts.filter(p), task_id) == sum_durations(ts, task_id),
    decreases ts.len(),
{
    reveal(Seq::filter);
    if ts.len() > 0 {
        let dl = ts.drop_last();
        let x = ts.last();
        lemma_sum_filter_keep(dl, p, task_id);
        lemma_filter_push(dl, x, p);
        assert(dl.push(x) =~= ts);
        if p(x) {
            lemma_sum_push(dl.filter(p), x, task_id);
        } else {
            assert(x.task_id != task_id);
        }
    }
}

/// One valid actor step keeps every task's counter equal to the sum of
/// its sessions' durations.
pub proof fn lemma_step_accounts(s: StoreView, c: CmdView, now: int)
    requires
        s.wf(),
        sessions_account(s),
        cmd_valid(s, c),
    ensures
        sessions_account(actor_step(s, c, now).0),
{
    let s2 = actor_step(s, c, now).0;
    match c {
        CmdView::CreateInventory(_) => {
        },
        CmdView::CreateTask(n) => {
            assert forall|i: int|
                0 <= i < s2.tasks.len() implies (#[trigger] s2.tasks[i]).spent_minutes
                == sum_durations(s2.tomatos, s2.tasks[i].id) by {
                if i < s.tasks.len() {
                    assert(s2.tasks[i] == s.tasks[i]);
                } else {
                    assert(s2.tasks[i].id == s.next_task_id);
                    assert forall|k: int|
                        0 <= k < s.tomatos.len() implies (#[trigger] s.tomatos[k]).task_id
                        != s.next_task_id by {
                        assert(s.session_linked(s.tomatos[k]));
                        let j = choose|j: int|
                            0 <= j < s.tasks.len() && (#[trigger] s.tasks[j]).id
                                == s.tomatos[k].task_id && s.tasks[j].inventory_id
                                == s.tomatos[k].inventory_id;
                        assert(s.tasks[j].id < s.next_task_id);
                    }
                    lemma_sum_absent(s.tomatos, s.next_task_id);
                }
            }
        },
        CmdView::TomatoClose(t) => {
            let f = task_crediter(t.task_id, session_delta(t));
            let jw = choose|j: int|
                0 <= j < s.tasks.len() && (#[trigger] s.tasks[j]).id == t.task_id
                    && s.tasks[j].inventory_id == t.inventory_id && s.tasks[j].spent_minutes
                    + t.duration() <= i64::MAX;
            assert(session_delta(t) == t.duration());
            assert forall|i: int|
                0 <= i < s2.tasks.len() implies (#[trigger] s2.tasks[i]).spent_minutes
                == sum_durations(s2.tomatos, s2.tasks[i].id) by {
                assert(s2.tasks[i] == f(s.tasks[i]));
                lemma_sum_push(s.tomatos, t, s.tasks[i].id);
                if s.tasks[i].id == t.task_id {
                    if i != jw {
                        assert(s.tasks[i].id != s.tasks[jw].id);
                    }
                    assert(s.tasks[i].spent_minutes + t.duration() <= i64::MAX);
                }
            }
        },
        CmdView::DeleteInventory(id) => {
            assert forall|i: int|
                0 <= i < s2.tasks.len() implies (#[trigger] s2.tasks[i]).spent_minutes
                == sum_durations(s2.tomatos, s2.tasks[i].id) by {
                let u = s2.tasks[i];
                lemma_filter_sub(s.tasks, task_not_in_inventory(id));
                s.tasks.lemma_filter_pred(task_not_in_inventory(id), i);
                assert(s.tasks.contains(u));
                let a = choose|a: int| 0 <= a < s.tasks.len() && s.tasks[a] == u;
                assert forall|k: int|
                    0 <= k < s.tomatos.len() && (#[trigger] s.tomatos[k]).task_id == u.id implies
                    tomato_not_in_inventory(id)(s.tomatos[k]) by {
                    assert(s.session_linked(s.tomatos[k]));
                    let j = choose|j: int|
                        0 <= j < s.tasks.len() && (#[trigger] s.tasks[j]).id
                            == s.tomatos[k].task_id && s.tasks[j].inventory_id
                            == s.tomatos[k].inventory_id;
                    if j != a {
                        assert(s.tasks[j].id != s.tasks[a].id);
                    }
                    assert(s.tomatos[k].inventory_id == u.inventory_id);
                }
                lemma_sum_filter_keep(s.tomatos, tomato_not_in_inventory(id), u.id);
            }
        },
        CmdView::DeleteTask(id) => {
            assert forall|i: int|
                0 <= i < s2.tasks.len() implies (#[trigger] s2.tasks[i]).spent_minutes
                == sum_durations(s2.tomatos, s2.tasks[i].id) by {
                let u = s2.tasks[i];
                lemma_filter_sub(s.tasks, task_not_id(id));
                s.tasks.lemma_filter_pred(task_not_id(id), i);
                assert(s.tasks.contains(u));
                let a = choose|a: int| 0 <= a < s.tasks.len() && s.tasks[a] == u;
                assert(forall|k: int|
                    0 <= k < s.tomatos.len() && (#[trigger] s.tomatos[k]).task_id == u.id
                        ==> tomato_not_of_task(id)(s.tomatos[k]));
                lemma_sum_filter_keep(s.tomatos, tomato_not_of_task(id), u.id);
            }
        },
        CmdView::UpdateInventory(_) => {
        },
        CmdView::UpdateTask(p) => {
            let f = task_patcher(p.id, p.name);
            assert forall|i: int|
                0 <= i < s2.tasks.len() implies (#[trigger] s2.tasks[i]).spent_minutes
                == sum_durations(s2.tomatos, s2.tasks[i].id) by {
                assert(s2.tasks[i] == f(s.tasks[i]));
            }
        },
    }
}

/// After any valid command sequence starting from a well-formed,
/// accounted store, every task's spent time equals the sum of
/// `end_time - start_time` over its confirmed sessions, regardless of
/// the order commands were submitted in.
pub proof fn lemma_run_accounts(s: StoreView, cmds: Seq<CmdView>, now: int)
    requires
        s.wf(),
        sessions_account(s),
        cmds_valid(s, cmds, now),
    ensures
        run_actor(s, cmds, now).wf(),
        sessions_account(run_actor(s, cmds, now)),
    decreases cmds.len(),
{
    if cmds.len() > 0 {
        let dl = cmds.drop_last();
        lemma_run_accounts(s, dl, now);
        lemma_step_wf(run_actor(s, dl, now), cmds.last(), now);
        lemma_step_accounts(run_actor(s, dl, now), cmds.last(), now);
    }
}

/// The mirror a startup load builds: the inventory rows as stored, the
/// grouped task lists parallel to them, nothing selected.
pub open spec fn loaded_mirror(s: StoreView) -> MirrorView {
    MirrorView {
        inventory_selected: None,
        task_selected: Seq::new(s.inventories.len(), |i: int| None),
        inventories: s.inventories,
        tasks: Seq::new(s.inventories.len(), |i: int| s.tasks_of(s.inventories[i].id)),
    }
}

/// Seeding the mirror from a storage snapshot leaves it equal to that
/// storage content, so the tracking law applies from startup on.
pub proof fn lemma_loaded_mirror_corresponds(s: StoreView)
    ensures
        corresponds(loaded_mirror(s), s),
        loaded_mirror(s).wf(),
{
}

/// A valid step keeps the store well formed, independently of any
/// mirror.
pub proof fn lemma_step_wf(s: StoreView, c: CmdView, now: int)
    requires
        s.wf(),
        cmd_valid(s, c),
    ensures
        actor_step(s, c, now).0.wf(),
{
    lemma_loaded_mirror_corresponds(s);
    lemma_step_preserves(s, loaded_mirror(s), c, now);
}

/// The empty store is well formed and trivially accounted.
pub proof fn lemma_empty_store()
    ensures
        crate::store::empty_store().wf(),
        sessions_account(crate::store::empty_store()),
{
}

/// For every valid command sequence driven through the actor, applying
/// all confirmations in order leaves the mirror equal to the store: the
/// mirror is a cache of confirmed storage state, never ahead of it.
pub proof fn lemma_mirror_tracks_storage(s: StoreView, m: MirrorView, cmds: Seq<CmdView>, now: int)
    requires
        s.wf(),
        corresponds(m, s),
        cmds_valid(s, cmds, now),
    ensures
        run_actor(s, cmds, now).wf(),
        corresponds(apply_events(m, actor_outputs(s, cmds, now)), run_actor(s, cmds, now)),
    decreases cmds.len(),
{
    if cmds.len() > 0 {
        let dl = cmds.drop_last();
        lemma_mirror_tracks_storage(s, m, dl, now);
        let s1 = run_actor(s, dl, now);
        let m1 = apply_events(m, actor_outputs(s, dl, now));
        lemma_step_preserves(s1, m1, cmds.last(), now);
        assert(actor_outputs(s, cmds, now).drop_last() =~= actor_outputs(s, dl, now));
    }
}

} // verus!
