//! The reference model of the storage contract the persistence actor
//! runs against: an in-memory store with generated ids, cascading
//! deletes, partial-field updates, and the atomic
//! session-insert-plus-increment operation.
//!
//! Every operation is specified exactly over [`StoreView`]; the laws
//! about cascades, accounting and the mirror are stated and proved
//! against these specifications.

use crate::color::DbColor;
use crate::entities::{
    views_of_inventories, views_of_tasks, views_of_tomatos, Inventory, InventoryView, Task,
    TaskView, Tomato, TomatoView, patch_inventory, patch_task,
};
use crate::seq_util::{lemma_filter_push, lemma_take_push};
use vstd::prelude::*;

verus! {

/// Keeps the inventories that do not carry the given id.
pub open spec fn inventory_not_id(id: int) -> spec_fn(InventoryView) -> bool {
    |x: InventoryView| x.id != id
}

/// Keeps the tasks that do not belong to the given inventory.
pub open spec fn task_not_in_inventory(id: int) -> spec_fn(TaskView) -> bool {
    |t: TaskView| t.inventory_id != id
}

/// Keeps the tasks that do not carry the given id.
pub open spec fn task_not_id(id: int) -> spec_fn(TaskView) -> bool {
    |t: TaskView| t.id != id
}

/// Keeps the tasks that belong to the given inventory.
pub open spec fn task_in_inventory(id: int) -> spec_fn(TaskView) -> bool {
    |t: TaskView| t.inventory_id == id
}

/// Keeps the sessions that do not belong to the given inventory.
pub open spec fn tomato_not_in_inventory(id: int) -> spec_fn(TomatoView) -> bool {
    |t: TomatoView| t.inventory_id != id
}

/// Keeps the sessions that do not belong to the given task.
pub open spec fn tomato_not_of_task(id: int) -> spec_fn(TomatoView) -> bool {
    |t: TomatoView| t.task_id != id
}

/// The mathematical content of the store: the three row sequences in
/// insertion order, and the next id each table will generate.
#[verifier::ext_equal]
pub struct StoreView {
    pub inventories: Seq<InventoryView>,
    pub tasks: Seq<TaskView>,
    pub tomatos: Seq<TomatoView>,
    pub next_inventory_id: int,
    pub next_task_id: int,
}

impl StoreView {
    /// The tasks of one inventory, in insertion order.
    pub open spec fn tasks_of(self, inv_id: int) -> Seq<TaskView> {
        self.tasks.filter(task_in_inventory(inv_id))
    }

    /// The session points at a live task of the inventory it names.
    pub open spec fn session_linked(self, t: TomatoView) -> bool {
        exists|j: int|
            0 <= j < self.tasks.len() && (#[trigger] self.tasks[j]).id == t.task_id
                && self.tasks[j].inventory_id == t.inventory_id
    }

    /// Ids are positive, unique and below the generator; every task
    /// points below the inventory generator; every session points at a
    /// live task of the inventory it names.
    pub open spec fn wf(self) -> bool {
        &&& forall|i: int|
            0 <= i < self.inventories.len() ==> 1 <= (#[trigger] self.inventories[i]).id
                < self.next_inventory_id
        &&& forall|i: int, j: int|
            0 <= i < j < self.inventories.len() ==> (#[trigger] self.inventories[i]).id != (
            #[trigger] self.inventories[j]).id
        &&& forall|i: int|
            0 <= i < self.tasks.len() ==> 1 <= (#[trigger] self.tasks[i]).id < self.next_task_id
        &&& forall|i: int, j: int|
            0 <= i < j < self.tasks.len() ==> (#[trigger] self.tasks[i]).id != (
            #[trigger] self.tasks[j]).id
        &&& forall|i: int|
            0 <= i < self.tasks.len() ==> (#[trigger] self.tasks[i]).inventory_id
                < self.next_inventory_id
        &&& forall|i: int|
            0 <= i < self.tomatos.len() ==> self.session_linked(#[trigger] self.tomatos[i])
        &&& 1 <= self.next_inventory_id <= i32::MAX + 1
        &&& 1 <= self.next_task_id <= i32::MAX + 1
    }
}

/// A store before anything was created: both generators start at 1.
pub open spec fn empty_store() -> StoreView {
    StoreView {
        inventories: Seq::empty(),
        tasks: Seq::empty(),
        tomatos: Seq::empty(),
        next_inventory_id: 1,
        next_task_id: 1,
    }
}

/// Insert an inventory row: it receives the generated id and lands at
/// the end of the table.
pub open spec fn spec_create_inventory(s: StoreView, name: Seq<char>, color: int) -> (
    StoreView,
    InventoryView,
) {
    let inv = InventoryView { id: s.next_inventory_id, name, color };
    (
        StoreView {
            inventories: s.inventories.push(inv),
            next_inventory_id: s.next_inventory_id + 1,
            ..s
        },
        inv,
    )
}

/// Delete an inventory and cascade: its tasks and the sessions booked
/// against it disappear with it.
pub open spec fn spec_delete_inventory(s: StoreView, id: int) -> StoreView {
    StoreView {
        inventories: s.inventories.filter(inventory_not_id(id)),
        tasks: s.tasks.filter(task_not_in_inventory(id)),
        tomatos: s.tomatos.filter(tomato_not_in_inventory(id)),
        ..s
    }
}

/// Insert a task row: generated id, no time spent yet, stamped with
/// the given creation time.
pub open spec fn spec_create_task(
    s: StoreView,
    inventory_id: int,
    name: Seq<char>,
    notes: Option<Seq<char>>,
    create_at: int,
) -> (StoreView, TaskView) {
    let task = TaskView {
        id: s.next_task_id,
        inventory_id,
        name,
        spent_minutes: 0,
        create_at,
        notes,
    };
    (StoreView { tasks: s.tasks.push(task), next_task_id: s.next_task_id + 1, ..s }, task)
}

/// Delete a task and cascade to its sessions.
pub open spec fn spec_delete_task(s: StoreView, id: int) -> StoreView {
    StoreView {
        tasks: s.tasks.filter(task_not_id(id)),
        tomatos: s.tomatos.filter(tomato_not_of_task(id)),
        ..s
    }
}

/// Append a session row.
pub open spec fn spec_create_tomato(s: StoreView, t: TomatoView) -> StoreView {
    StoreView { tomatos: s.tomatos.push(t), ..s }
}

/// Incrementing spent time clamps at the top of the counter instead of
/// wrapping.
pub open spec fn clamp_add_spent(a: int, b: int) -> int {
    if a + b > i64::MAX {
        i64::MAX as int
    } else {
        a + b
    }
}

/// The row transformer of a spent-time increment: the task with the
/// given id is credited, everything else passes through.
pub open spec fn task_crediter(task_id: int, delta: int) -> spec_fn(TaskView) -> TaskView {
    |t: TaskView|
        if t.id == task_id {
            TaskView { spent_minutes: clamp_add_spent(t.spent_minutes, delta), ..t }
        } else {
            t
        }
}

/// The row transformer of a task patch.
pub open spec fn task_patcher(id: int, name: Option<Seq<char>>) -> spec_fn(TaskView) -> TaskView {
    |t: TaskView|
        if t.id == id {
            patch_task(t, name)
        } else {
            t
        }
}

/// The row transformer of an inventory patch.
pub open spec fn inventory_patcher(id: int, name: Option<Seq<char>>, color: Option<int>) -> spec_fn(
    InventoryView,
) -> InventoryView {
    |x: InventoryView|
        if x.id == id {
            patch_inventory(x, name, color)
        } else {
            x
        }
}

/// Add the given non-negative delta to the spent time of the task with
/// the given id.
pub open spec fn spec_update_task_spent(s: StoreView, task_id: int, delta: int) -> StoreView {
    StoreView { tasks: s.tasks.map_values(task_crediter(task_id, delta)), ..s }
}

/// Patch the inventory with the given id: supplied fields overwrite.
pub open spec fn spec_edit_inventory(
    s: StoreView,
    id: int,
    name: Option<Seq<char>>,
    color: Option<int>,
) -> StoreView {
    StoreView { inventories: s.inventories.map_values(inventory_patcher(id, name, color)), ..s }
}

/// Patch the task with the given id: a supplied name overwrites.
pub open spec fn spec_edit_task(s: StoreView, id: int, name: Option<Seq<char>>) -> StoreView {
    StoreView { tasks: s.tasks.map_values(task_patcher(id, name)), ..s }
}

/// The in-memory store the actor's behaviour is modelled against.
pub struct Store {
    pub inventories: Vec<Inventory>,
    pub tasks: Vec<Task>,
    pub tomatos: Vec<Tomato>,
    pub next_inventory_id: i32,
    pub next_task_id: i32,
}

impl View for Store {
    type V = StoreView;

    open spec fn view(&self) -> StoreView {
        StoreView {
            inventories: views_of_inventories(self.inventories@),
            tasks: views_of_tasks(self.tasks@),
            tomatos: views_of_tomatos(self.tomatos@),
            next_inventory_id: self.next_inventory_id as int,
            next_task_id: self.next_task_id as int,
        }
    }
}

fn retain_inventories(v: &Vec<Inventory>, id: i32) -> (out: Vec<Inventory>)
    ensures
        views_of_inventories(out@) == views_of_inventories(v@).filter(
            inventory_not_id(id as int),
        ),
{
    let ghost tv = views_of_inventories(v@);
    let mut out: Vec<Inventory> = Vec::new();
    let mut i: usize = 0;
    proof {
        assert(tv.take(0).filter(inventory_not_id(id as int)) =~= Seq::<InventoryView>::empty()) by {
            crate::seq_util::lemma_filter_none(tv.take(0), inventory_not_id(id as int));
        }
    }
    while i < v.len()
        invariant
            i <= v@.len(),
            tv == views_of_inventories(v@),
            views_of_inventories(out@) == tv.take(i as int).filter(inventory_not_id(id as int)),
        decreases v@.len() - i,
    {
        proof {
            lemma_take_push(tv, i as int);
            lemma_filter_push(tv.take(i as int), tv[i as int], inventory_not_id(id as int));
        }
        if v[i].id != id {
            out.push(v[i].clone());
        }
        proof {
            assert(views_of_inventories(out@) =~= tv.take(i + 1).filter(
                inventory_not_id(id as int),
            ));
        }
        i += 1;
    }
    proof {
        assert(tv.take(v@.len() as int) =~= tv);
    }
    out
}

pub(crate) fn retain_tasks(v: &Vec<Task>, pred_id: i32, by_inventory: bool) -> (out: Vec<Task>)
    ensures
        by_inventory ==> views_of_tasks(out@) == views_of_tasks(v@).filter(
            task_not_in_inventory(pred_id as int),
        ),
        !by_inventory ==> views_of_tasks(out@) == views_of_tasks(v@).filter(
            task_not_id(pred_id as int),
        ),
{
    let ghost pred = if by_inventory {
        task_not_in_inventory(pred_id as int)
    } else {
        task_not_id(pred_id as int)
    };
    let ghost tv = views_of_tasks(v@);
    let mut out: Vec<Task> = Vec::new();
    let mut i: usize = 0;
    proof {
        assert(tv.take(0).filter(pred) =~= Seq::<TaskView>::empty()) by {
            crate::seq_util::lemma_filter_none(tv.take(0), pred);
        }
    }
    while i < v.len()
        invariant
            i <= v@.len(),
            tv == views_of_tasks(v@),
            pred == if by_inventory {
                task_not_in_inventory(pred_id as int)
            } else {
                task_not_id(pred_id as int)
            },
            views_of_tasks(out@) == tv.take(i as int).filter(pred),
        decreases v@.len() - i,
    {
        proof {
            lemma_take_push(tv, i as int);
            lemma_filter_push(tv.take(i as int), tv[i as int], pred);
        }
        let keep = if by_inventory {
            v[i].inventory_id != pred_id
        } else {
            v[i].id != pred_id
        };
        if keep {
            out.push(v[i].clone());
        }
        proof {
            assert(views_of_tasks(out@) =~= tv.take(i + 1).filter(pred));
        }
        i += 1;
    }
    proof {
        assert(tv.take(v@.len() as int) =~= tv);
    }
    out
}

fn retain_tomatos(v: &Vec<Tomato>, pred_id: i32, by_inventory: bool) -> (out: Vec<Tomato>)
    ensures
        by_inventory ==> views_of_tomatos(out@) == views_of_tomatos(v@).filter(
            tomato_not_in_inventory(pred_id as int),
        ),
        !by_inventory ==> views_of_tomatos(out@) == views_of_tomatos(v@).filter(
            tomato_not_of_task(pred_id as int),
        ),
{
    let ghost pred = if by_inventory {
        tomato_not_in_inventory(pred_id as int)
    } else {
        tomato_not_of_task(pred_id as int)
    };
    let ghost tv = views_of_tomatos(v@);
    let mut out: Vec<Tomato> = Vec::new();
    let mut i: usize = 0;
    proof {
        assert(tv.take(0).filter(pred) =~= Seq::<TomatoView>::empty()) by {
            crate::seq_util::lemma_filter_none(tv.take(0), pred);
        }
    }
    while i < v.len()
        invariant
            i <= v@.len(),
            tv == views_of_tomatos(v@),
            pred == if by_inventory {
                tomato_not_in_inventory(pred_id as int)
            } else {
                tomato_not_of_task(pred_id as int)
            },
            views_of_tomatos(out@) == tv.take(i as int).filter(pred),
        decreases v@.len() - i,
    {
        proof {
            lemma_take_push(tv, i as int);
            lemma_filter_push(tv.take(i as int), tv[i as int], pred);
        }
        let keep = if by_inventory {
            v[i].inventory_id != pred_id
        } else {
            v[i].task_id != pred_id
        };
        if keep {
            out.push(v[i]);
        }
        proof {
            assert(views_of_tomatos(out@) =~= tv.take(i + 1).filter(pred));
        }
        i += 1;
    }
    proof {
        assert(tv.take(v@.len() as int) =~= tv);
    }
    out
}

impl Store {
    pub fn new() -> (r: Store)
        ensures
            r@ == empty_store(),
    {
        let r = Store {
            inventories: Vec::new(),
            tasks: Vec::new(),
            tomatos: Vec::new(),
            next_inventory_id: 1,
            next_task_id: 1,
        };
        proof {
            assert(r@ =~= empty_store());
        }
        r
    }

    /// Insert an inventory row and hand back the materialized row,
    /// generated id included.
    pub fn create_new_inventory(&mut self, name: &str, color: i32) -> (r: Inventory)
        requires
            old(self).next_inventory_id < i32::MAX,
        ensures
            final(self)@ == spec_create_inventory(old(self)@, name@, color as int).0,
            r@ == spec_create_inventory(old(self)@, name@, color as int).1,
    {
        let id = self.next_inventory_id;
        self.next_inventory_id = id + 1;
        let stored = Inventory { id, name: name.to_owned(), color: DbColor(color) };
        let ret = stored.clone();
        self.inventories.push(stored);
        proof {
            assert(self@ =~= spec_create_inventory(old(self)@, name@, color as int).0);
        }
        ret
    }

    /// Delete an inventory; its tasks and the sessions booked against
    /// it cascade away.
    pub fn delete_inventory(&mut self, id: i32)
        ensures
            final(self)@ == spec_delete_inventory(old(self)@, id as int),
    {
        self.inventories = retain_inventories(&self.inventories, id);
        self.tasks = retain_tasks(&self.tasks, id, true);
        self.tomatos = retain_tomatos(&self.tomatos, id, true);
        proof {
            assert(self@ =~= spec_delete_inventory(old(self)@, id as int));
        }
    }

    /// Insert a task row stamped with the given creation time and hand
    /// back the materialized row.
    pub fn create_new_task(
        &mut self,
        inventory_id: i32,
        name: &str,
        notes: Option<&str>,
        create_at: i64,
    ) -> (r: Task)
        requires
            old(self).next_task_id < i32::MAX,
        ensures
            final(self)@ == spec_create_task(
                old(self)@,
                inventory_id as int,
                name@,
                match notes {
                    Some(n) => Some(n@),
                    None => None,
                },
                create_at as int,
            ).0,
            r@ == spec_create_task(
                old(self)@,
                inventory_id as int,
                name@,
                match notes {
                    Some(n) => Some(n@),
                    None => None,
                },
                create_at as int,
            ).1,
    {
        let id = self.next_task_id;
        self.next_task_id = id + 1;
        let row = crate::entities::TaskRow {
            inventory_id,
            name: name.to_owned(),
            spent_minutes: 0,
            create_at,
            notes: match notes {
                Some(n) => Some(n.to_owned()),
                None => None,
            },
        };
        let stored = Task {
            id,
            inventory_id: row.inventory_id,
            name: row.name,
            spent_minutes: row.spent_minutes,
            create_at: row.create_at,
            notes: row.notes,
        };
        let ret = stored.clone();
        self.tasks.push(stored);
        proof {
            assert(self@ =~= spec_create_task(
                old(self)@,
                inventory_id as int,
                name@,
                match notes {
                    Some(n) => Some(n@),
                    None => None,
                },
                create_at as int,
            ).0);
        }
        ret
    }

    /// Delete a task; its sessions cascade away.
    pub fn delete_task(&mut self, id: i32)
        ensures
            final(self)@ == spec_delete_task(old(self)@, id as int),
    {
        self.tasks = retain_tasks(&self.tasks, id, false);
        self.tomatos = retain_tomatos(&self.tomatos, id, false);
        proof {
            assert(self@ =~= spec_delete_task(old(self)@, id as int));
        }
    }

    /// Append a session row.
    pub fn create_new_tomato(&mut self, tomato: Tomato)
        ensures
            final(self)@ == spec_create_tomato(old(self)@, tomato@),
    {
        self.tomatos.push(tomato);
        proof {
            assert(self@ =~= spec_create_tomato(old(self)@, tomato@));
        }
    }

    /// Add a non-negative delta to the spent time of one task,
    /// clamping at the top of the counter.
    pub fn update_task_spent(&mut self, task_id: i32, delta_spent: i64)
        requires
            delta_spent >= 0,
        ensures
            final(self)@ == spec_update_task_spent(old(self)@, task_id as int, delta_spent as int),
    {
        let ghost tv = views_of_tasks(self.tasks@);
        let ghost target = spec_update_task_spent(old(self)@, task_id as int, delta_spent as int);
        let mut out: Vec<Task> = Vec::new();
        let mut i: usize = 0;
        while i < self.tasks.len()
            invariant
                i <= self.tasks@.len(),
                delta_spent >= 0,
                tv == views_of_tasks(self.tasks@),
                target == spec_update_task_spent(
                    StoreView { tasks: tv, ..old(self)@ },
                    task_id as int,
                    delta_spent as int,
                ),
                out@.len() == i,
                forall|j: int| 0 <= j < i ==> (#[trigger] out@[j])@ == target.tasks[j],
            decreases self.tasks@.len() - i,
        {
            let t = &self.tasks[i];
            if t.id == task_id {
                let spent = if t.spent_minutes <= i64::MAX - delta_spent {
                    t.spent_minutes + delta_spent
                } else {
                    i64::MAX
                };
                let mut patched = t.clone();
                patched.spent_minutes = spent;
                out.push(patched);
            } else {
                out.push(t.clone());
            }
            i += 1;
        }
        self.tasks = out;
        proof {
            assert(self@ =~= target) by {
                assert(views_of_tasks(self.tasks@) =~= target.tasks);
            }
        }
    }

    /// Patch the inventory with the patch's id: supplied fields
    /// overwrite, missing ones leave the row alone.
    pub fn edit_inventory(&mut self, patch: &crate::entities::EditInventory)
        ensures
            final(self)@ == spec_edit_inventory(
                old(self)@,
                patch.id as int,
                match patch.name {
                    Some(ref n) => Some(n@),
                    None => None,
                },
                match patch.color {
                    Some(c) => Some(c as int),
                    None => None,
                },
            ),
    {
        let ghost target = spec_edit_inventory(
            old(self)@,
            patch.id as int,
            match patch.name {
                Some(ref n) => Some(n@),
                None => None,
            },
            match patch.color {
                Some(c) => Some(c as int),
                None => None,
            },
        );
        let mut out: Vec<Inventory> = Vec::new();
        let mut i: usize = 0;
        while i < self.inventories.len()
            invariant
                i <= self.inventories@.len(),
                self.inventories == old(self).inventories,
                target == spec_edit_inventory(
                    old(self)@,
                    patch.id as int,
                    match patch.name {
                        Some(ref n) => Some(n@),
                        None => None,
                    },
                    match patch.color {
                        Some(c) => Some(c as int),
                        None => None,
                    },
                ),
                out@.len() == i,
                forall|j: int| 0 <= j < i ==> (#[trigger] out@[j])@ == target.inventories[j],
            decreases self.inventories@.len() - i,
        {
            let x = &self.inventories[i];
            if x.id == patch.id {
                let mut patched = x.clone();
                if let Some(n) = &patch.name {
                    patched.name = n.clone();
                }
                if let Some(c) = patch.color {
                    patched.color = DbColor(c);
                }
                out.push(patched);
            } else {
                out.push(x.clone());
            }
            i += 1;
        }
        self.inventories = out;
        proof {
            assert(self@ =~= target) by {
                assert(views_of_inventories(self.inventories@) =~= target.inventories);
            }
        }
    }

    /// Patch the task with the patch's id: a supplied name overwrites.
    pub fn edit_task(&mut self, patch: &crate::entities::EditTask)
        ensures
            final(self)@ == spec_edit_task(
                old(self)@,
                patch.id as int,
                match patch.name {
                    Some(ref n) => Some(n@),
                    None => None,
                },
            ),
    {
        let ghost target = spec_edit_task(
            old(self)@,
            patch.id as int,
            match patch.name {
                Some(ref n) => Some(n@),
                None => None,
            },
        );
        let mut out: Vec<Task> = Vec::new();
        let mut i: usize = 0;
        while i < self.tasks.len()
            invariant
                i <= self.tasks@.len(),
                self.tasks == old(self).tasks,
                target == spec_edit_task(
                    old(self)@,
                    patch.id as int,
                    match patch.name {
                        Some(ref n) => Some(n@),
                        None => None,
                    },
                ),
                out@.len() == i,
                forall|j: int| 0 <= j < i ==> (#[trigger] out@[j])@ == target.tasks[j],
            decreases self.tasks@.len() - i,
        {
            let t = &self.tasks[i];
            if t.id == patch.id {
                let mut patched = t.clone();
                if let Some(n) = &patch.name {
                    patched.name = n.clone();
                }
                out.push(patched);
            } else {
                out.push(t.clone());
            }
            i += 1;
        }
        self.tasks = out;
        proof {
            assert(self@ =~= target) by {
                assert(views_of_tasks(self.tasks@) =~= target.tasks);
            }
        }
    }

    /// All inventory rows, in insertion order.
    pub fn all_inventory(&self) -> (r: Vec<Inventory>)
        ensures
            views_of_inventories(r@) == self@.inventories,
    {
        let mut out: Vec<Inventory> = Vec::new();
        let mut i: usize = 0;
        while i < self.inventories.len()
            invariant
                i <= self.inventories@.len(),
                out@.len() == i,
                forall|j: int|
                    0 <= j < i ==> (#[trigger] out@[j])@ == views_of_inventories(
                        self.inventories@,
                    )[j],
            decreases self.inventories@.len() - i,
        {
            out.push(self.inventories[i].clone());
            i += 1;
        }
        proof {
            assert(views_of_inventories(out@) =~= self@.inventories);
        }
        out
    }

    /// The tasks of each given inventory, as a parallel list of lists
    /// in the same order and of the same length as the input.
    pub fn all_task_groupby(&self, invs: &Vec<Inventory>) -> (r: Vec<Vec<Task>>)
        ensures
            r@.len() == invs@.len(),
            forall|i: int|
                0 <= i < invs@.len() ==> views_of_tasks((#[trigger] r@[i])@) == self@.tasks_of(
                    invs@[i]@.id,
                ),
    {
        let mut out: Vec<Vec<Task>> = Vec::new();
        let mut i: usize = 0;
        while i < invs.len()
            invariant
                i <= invs@.len(),
                out@.len() == i,
                forall|j: int|
                    0 <= j < i ==> views_of_tasks((#[trigger] out@[j])@) == self@.tasks_of(
                        invs@[j]@.id,
                    ),
            decreases invs@.len() - i,
        {
            out.push(self.tasks_of_inventory(invs[i].id));
            i += 1;
        }
        out
    }

    /// The tasks of one inventory, in insertion order.
    pub fn tasks_of_inventory(&self, inv_id: i32) -> (r: Vec<Task>)
        ensures
            views_of_tasks(r@) == self@.tasks_of(inv_id as int),
    {
        let ghost tv = views_of_tasks(self.tasks@);
        let mut out: Vec<Task> = Vec::new();
        let mut i: usize = 0;
        proof {
            assert(tv.take(0).filter(task_in_inventory(inv_id as int)) =~= Seq::<
                TaskView,
            >::empty()) by {
                crate::seq_util::lemma_filter_none(tv.take(0), task_in_inventory(inv_id as int));
            }
        }
        while i < self.tasks.len()
            invariant
                i <= self.tasks@.len(),
                tv == views_of_tasks(self.tasks@),
                views_of_tasks(out@) == tv.take(i as int).filter(task_in_inventory(inv_id as int)),
            decreases self.tasks@.len() - i,
        {
            proof {
                lemma_take_push(tv, i as int);
                lemma_filter_push(tv.take(i as int), tv[i as int], task_in_inventory(inv_id as int));
            }
            if self.tasks[i].inventory_id == inv_id {
                out.push(self.tasks[i].clone());
            }
            proof {
                assert(views_of_tasks(out@) =~= tv.take(i + 1).filter(
                    task_in_inventory(inv_id as int),
                ));
            }
            i += 1;
        }
        proof {
            assert(tv.take(self.tasks@.len() as int) =~= tv);
        }
        out
    }
}

} // verus!
