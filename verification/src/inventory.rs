//! The in-memory mirror of confirmed storage state: the inventory
//! rows, each inventory's tasks, and the selection indices of the two
//! lists.
//!
//! The mirror is mutated only when a confirmation arrives from the
//! persistence actor; every mutation keeps the selection indices
//! valid, re-aiming or clearing them when a list shrinks or empties.

use crate::actor::session_delta;
use crate::entities::{
    patch_task, views_of_inventories, views_of_tasks, EditInventory,
    EditInventoryView, EditTask, EditTaskView, Inventory, InventoryView, Task, TaskView, Tomato,
    TomatoView,
};
use crate::store::{clamp_add_spent, retain_tasks, task_not_id};
use vstd::prelude::*;

verus! {

/// The selection index a list advances to: the next row, wrapping;
/// the first row when nothing was selected; nothing when the list is
/// empty.
pub open spec fn next_sel(sel: Option<int>, len: int) -> Option<int> {
    if len == 0 {
        None
    } else {
        match sel {
            Some(k) => Some((k + 1) % len),
            None => Some(0),
        }
    }
}

/// The selection index a list steps back to, wrapping at the front.
pub open spec fn prev_sel(sel: Option<int>, len: int) -> Option<int> {
    if len == 0 {
        None
    } else {
        match sel {
            Some(k) => if k == 0 {
                Some(len - 1)
            } else {
                Some(k - 1)
            },
            None => Some(len - 1),
        }
    }
}

/// A selection after its list changed length: untouched while the
/// length held, advanced (or cleared on empty) when it shrank.
pub open spec fn reclamped(sel: Option<int>, old_len: int, new_len: int) -> Option<int> {
    if new_len == old_len {
        sel
    } else {
        next_sel(sel, new_len)
    }
}

/// The first position holding the given inventory id.
pub open spec fn first_inventory_idx(invs: Seq<InventoryView>, id: int) -> Option<int>
    decreases invs.len(),
{
    if invs.len() == 0 {
        None
    } else if invs[0].id == id {
        Some(0)
    } else {
        match first_inventory_idx(invs.drop_first(), id) {
            Some(k) => Some(k + 1),
            None => None,
        }
    }
}

pub proof fn lemma_first_inventory_idx_at(invs: Seq<InventoryView>, id: int, i: int)
    requires
        0 <= i < invs.len(),
        invs[i].id == id,
        forall|j: int| 0 <= j < i ==> (#[trigger] invs[j]).id != id,
    ensures
        first_inventory_idx(invs, id) == Some(i),
    decreases i,
{
    if i > 0 {
        lemma_first_inventory_idx_at(invs.drop_first(), id, i - 1);
    }
}

pub proof fn lemma_first_inventory_idx_none(invs: Seq<InventoryView>, id: int)
    requires
        forall|j: int| 0 <= j < invs.len() ==> (#[trigger] invs[j]).id != id,
    ensures
        first_inventory_idx(invs, id) is None,
    decreases invs.len(),
{
    if invs.len() > 0 {
        lemma_first_inventory_idx_none(invs.drop_first(), id);
    }
}

pub proof fn lemma_first_inventory_idx_some(invs: Seq<InventoryView>, id: int)
    requires
        exists|j: int| 0 <= j < invs.len() && (#[trigger] invs[j]).id == id,
    ensures
        first_inventory_idx(invs, id) is Some,
    decreases invs.len(),
{
    if invs.len() > 0 && invs[0].id != id {
        let j = choose|j: int| 0 <= j < invs.len() && (#[trigger] invs[j]).id == id;
        assert(invs.drop_first()[j - 1].id == id);
        lemma_first_inventory_idx_some(invs.drop_first(), id);
    }
}

pub proof fn lemma_first_inventory_idx_in_range(invs: Seq<InventoryView>, id: int)
    ensures
        match first_inventory_idx(invs, id) {
            Some(i) => 0 <= i < invs.len() && invs[i].id == id,
            None => true,
        },
    decreases invs.len(),
{
    if invs.len() > 0 && invs[0].id != id {
        lemma_first_inventory_idx_in_range(invs.drop_first(), id);
    }
}

/// The view of one selection slot.
pub open spec fn sel_view(o: Option<usize>) -> Option<int> {
    match o {
        Some(k) => Some(k as int),
        None => None,
    }
}

/// The element-wise views of the selection slots.
pub open spec fn views_of_sels(v: Seq<Option<usize>>) -> Seq<Option<int>> {
    v.map_values(|o: Option<usize>| sel_view(o))
}

/// The element-wise views of the grouped task lists.
pub open spec fn views_of_task_lists(v: Seq<Vec<Task>>) -> Seq<Seq<TaskView>> {
    v.map_values(|x: Vec<Task>| views_of_tasks(x@))
}

/// The mathematical content of the mirror.
#[verifier::ext_equal]
pub struct MirrorView {
    pub inventory_selected: Option<int>,
    pub task_selected: Seq<Option<int>>,
    pub inventories: Seq<InventoryView>,
    pub tasks: Seq<Seq<TaskView>>,
}

impl MirrorView {
    /// The two grouped lists run parallel to the inventory rows, and
    /// every selection index points inside its list.
    pub open spec fn wf(self) -> bool {
        &&& self.task_selected.len() == self.inventories.len()
        &&& self.tasks.len() == self.inventories.len()
        &&& match self.inventory_selected {
            Some(i) => 0 <= i < self.inventories.len(),
            None => true,
        }
        &&& forall|i: int|
            0 <= i < self.tasks.len() ==> match #[trigger] self.task_selected[i] {
                Some(j) => 0 <= j < self.tasks[i].len(),
                None => true,
            }
    }
}

/// An inventory row storage confirmed lands at the end of the mirror, with an
/// empty task list and no selection.
pub open spec fn mirror_push_inventory(m: MirrorView, inv: InventoryView) -> MirrorView {
    MirrorView {
        inventory_selected: m.inventory_selected,
        task_selected: m.task_selected.push(None),
        inventories: m.inventories.push(inv),
        tasks: m.tasks.push(Seq::empty()),
    }
}

/// A confirmed task row joins the list of the first inventory carrying
/// its inventory id; a task of no live inventory is dropped.
pub open spec fn mirror_push_task(m: MirrorView, t: TaskView) -> MirrorView {
    match first_inventory_idx(m.inventories, t.inventory_id) {
        Some(i) => MirrorView { tasks: m.tasks.update(i, m.tasks[i].push(t)), ..m },
        None => m,
    }
}

/// A confirmed task delete: the task leaves its list, and the
/// selection of any list that shrank is re-aimed.
pub open spec fn mirror_delete_task(m: MirrorView, id: int) -> MirrorView {
    let tasks2 = m.tasks.map_values(|ts: Seq<TaskView>| ts.filter(task_not_id(id)));
    MirrorView {
        task_selected: Seq::new(
            m.task_selected.len(),
            |i: int|
                if 0 <= i < m.tasks.len() {
                    reclamped(m.task_selected[i], m.tasks[i].len() as int, tasks2[i].len() as int)
                } else {
                    m.task_selected[i]
                },
        ),
        tasks: tasks2,
        ..m
    }
}

/// A confirmed inventory delete: the row and its parallel slots leave,
/// and the inventory selection advances as the original navigation
/// did.
pub open spec fn mirror_delete_inventory(m: MirrorView, id: int) -> MirrorView {
    match first_inventory_idx(m.inventories, id) {
        Some(i) => {
            let inventories2 = m.inventories.remove(i);
            MirrorView {
                inventory_selected: next_sel(m.inventory_selected, inventories2.len() as int),
                task_selected: m.task_selected.remove(i),
                inventories: inventories2,
                tasks: m.tasks.remove(i),
            }
        },
        None => m,
    }
}

/// A confirmed inventory patch.
pub open spec fn mirror_edit_inventory(m: MirrorView, p: EditInventoryView) -> MirrorView {
    MirrorView {
        inventories: m.inventories.map_values(
            crate::store::inventory_patcher(p.id, p.name, p.color),
        ),
        ..m
    }
}

/// A confirmed task patch.
pub open spec fn mirror_edit_task(m: MirrorView, p: EditTaskView) -> MirrorView {
    MirrorView {
        tasks: m.tasks.map_values(
            |ts: Seq<TaskView>| ts.map_values(crate::store::task_patcher(p.id, p.name)),
        ),
        ..m
    }
}

/// A confirmed session: the session's span joins the spent time of the
/// task it was booked against.
pub open spec fn mirror_apply_tomato(m: MirrorView, t: TomatoView) -> MirrorView {
    MirrorView {
        tasks: m.tasks.map_values(
            |ts: Seq<TaskView>|
                ts.map_values(crate::store::task_crediter(t.task_id, session_delta(t))),
        ),
        ..m
    }
}

/// The in-memory mirror component.
pub struct InventoryModel {
    pub inventory_selected: Option<usize>,
    pub task_selected: Vec<Option<usize>>,
    pub inventory_list: Vec<Inventory>,
    pub tasks_list: Vec<Vec<Task>>,
}

impl View for InventoryModel {
    type V = MirrorView;

    open spec fn view(&self) -> MirrorView {
        MirrorView {
            inventory_selected: sel_view(self.inventory_selected),
            task_selected: views_of_sels(self.task_selected@),
            inventories: views_of_inventories(self.inventory_list@),
            tasks: views_of_task_lists(self.tasks_list@),
        }
    }
}

fn next_select(sel: Option<usize>, len: usize) -> (r: Option<usize>)
    requires
        sel matches Some(k) ==> k < usize::MAX,
    ensures
        sel_view(r) == next_sel(sel_view(sel), len as int),
        r matches Some(k) ==> k < len,
{
    if len == 0 {
        None
    } else {
        match sel {
            Some(k) => Some((k + 1) % len),
            None => Some(0),
        }
    }
}

fn previous_select(sel: Option<usize>, len: usize) -> (r: Option<usize>)
    requires
        sel matches Some(k) ==> k < len,
    ensures
        sel_view(r) == prev_sel(sel_view(sel), len as int),
        r matches Some(k) ==> k < len,
{
    if len == 0 {
        None
    } else {
        match sel {
            Some(k) => if k == 0 {
                Some(len - 1)
            } else {
                Some(k - 1)
            },
            None => Some(len - 1),
        }
    }
}

/// The tasks with the patch's id patched; everything else untouched.
fn patched_tasks(v: &Vec<Task>, patch: &EditTask) -> (out: Vec<Task>)
    ensures
        views_of_tasks(out@) == views_of_tasks(v@).map_values(
            |t: TaskView|
                if t.id == patch.id {
                    patch_task(t, patch@.name)
                } else {
                    t
                },
        ),
{
    let mut out: Vec<Task> = Vec::new();
    let mut i: usize = 0;
    while i < v.len()
        invariant
            i <= v@.len(),
            out@.len() == i,
            forall|j: int|
                0 <= j < i ==> (#[trigger] out@[j])@ == if v@[j]@.id == patch.id {
                    patch_task(v@[j]@, patch@.name)
                } else {
                    v@[j]@
                },
    decreases v@.len() - i,
    {
        let t = &v[i];
        if t.id == patch.id {
            let mut patched = t.clone();
            if let Some(n) = &patch.name {
                patched.name = n.clone();
            }
            out.push(patched);
        } else {
            out.push(t.clone());
        }
        i += 1;
    }
    proof {
        assert(views_of_tasks(out@) =~= views_of_tasks(v@).map_values(
            |t: TaskView|
                if t.id == patch.id {
                    patch_task(t, patch@.name)
                } else {
                    t
                },
        ));
    }
    out
}

/// The tasks with the session's task id credited with the session's
/// span; everything else untouched.
fn credited_tasks(v: &Vec<Task>, t: &Tomato, delta: i64) -> (out: Vec<Task>)
    requires
        delta == session_delta(t@),
    ensures
        views_of_tasks(out@) == views_of_tasks(v@).map_values(
            |x: TaskView|
                if x.id == t@.task_id {
                    TaskView { spent_minutes: clamp_add_spent(x.spent_minutes, session_delta(t@)), ..x }
                } else {
                    x
                },
        ),
{
    let mut out: Vec<Task> = Vec::new();
    let mut i: usize = 0;
    while i < v.len()
        invariant
            i <= v@.len(),
            delta == session_delta(t@),
            out@.len() == i,
            forall|j: int|
                0 <= j < i ==> (#[trigger] out@[j])@ == if v@[j]@.id == t@.task_id {
                    TaskView {
                        spent_minutes: clamp_add_spent(v@[j]@.spent_minutes, session_delta(t@)),
                        ..v@[j]@
                    }
                } else {
                    v@[j]@
                },
    decreases v@.len() - i,
    {
        let x = &v[i];
        if x.id == t.task_id {
            let spent = if x.spent_minutes <= i64::MAX - delta {
                x.spent_minutes + delta
            } else {
                i64::MAX
            };
            let mut patched = x.clone();
            patched.spent_minutes = spent;
            out.push(patched);
        } else {
            out.push(x.clone());
        }
        i += 1;
    }
    proof {
        assert(views_of_tasks(out@) =~= views_of_tasks(v@).map_values(
            |x: TaskView|
                if x.id == t@.task_id {
                    TaskView { spent_minutes: clamp_add_spent(x.spent_minutes, session_delta(t@)), ..x }
                } else {
                    x
                },
        ));
    }
    out
}

impl InventoryModel {
    /// An empty mirror: nothing loaded, nothing selected.
    pub fn new() -> (r: InventoryModel)
        ensures
            r@ == (MirrorView {
                inventory_selected: None,
                task_selected: Seq::empty(),
                inventories: Seq::empty(),
                tasks: Seq::empty(),
            }),
            r@.wf(),
    {
        let r = InventoryModel {
            inventory_selected: None,
            task_selected: Vec::new(),
            inventory_list: Vec::new(),
            tasks_list: Vec::new(),
        };
        proof {
            assert(r@ =~= (MirrorView {
                inventory_selected: None,
                task_selected: Seq::empty(),
                inventories: Seq::empty(),
                tasks: Seq::empty(),
            }));
        }
        r
    }

    /// A mirror seeded from loaded storage rows: the inventory rows and
    /// the parallel grouped task lists, nothing selected yet.
    pub fn from_lists(inventory_list: Vec<Inventory>, tasks_list: Vec<Vec<Task>>) -> (r:
        InventoryModel)
        requires
            inventory_list@.len() == tasks_list@.len(),
        ensures
            r@.inventory_selected is None,
            r@.inventories == views_of_inventories(inventory_list@),
            r@.tasks == views_of_task_lists(tasks_list@),
            r@.task_selected.len() == inventory_list@.len(),
            forall|i: int| 0 <= i < r@.task_selected.len() ==> (#[trigger] r@.task_selected[i]) is None,
            r@.wf(),
    {
        let n = tasks_list.len();
        let mut task_selected: Vec<Option<usize>> = Vec::new();
        let mut i: usize = 0;
        while i < n
            invariant
                i <= n,
                task_selected@.len() == i,
                forall|j: int| 0 <= j < i ==> (#[trigger] task_selected@[j]) is None,
            decreases n - i,
        {
            task_selected.push(None);
            i += 1;
        }
        let r = InventoryModel { inventory_selected: None, task_selected, inventory_list, tasks_list };
        r
    }

    /// The position of the inventory with the given id, scanning from
    /// the front.
    fn inventory_idx_by_id(&self, id: i32) -> (r: Option<usize>)
        ensures
            first_inventory_idx(self@.inventories, id as int) == sel_view(r),
            r matches Some(i) ==> i < self.inventory_list@.len(),
    {
        let mut i: usize = 0;
        let n = self.inventory_list.len();
        while i < n
            invariant
                i <= n,
                n == self.inventory_list@.len(),
                forall|j: int| 0 <= j < i ==> (#[trigger] self@.inventories[j]).id != id as int,
            decreases n - i,
        {
            if self.inventory_list[i].id == id {
                proof {
                    lemma_first_inventory_idx_at(self@.inventories, id as int, i as int);
                }
                return Some(i);
            }
            i += 1;
        }
        proof {
            lemma_first_inventory_idx_none(self@.inventories, id as int);
        }
        None
    }

    /// Apply a confirmed inventory row.
    pub fn push_new_inventory(&mut self, inv: Inventory)
        requires
            old(self)@.wf(),
        ensures
            final(self)@ == mirror_push_inventory(old(self)@, inv@),
            final(self)@.wf(),
    {
        self.inventory_list.push(inv);
        self.task_selected.push(None);
        self.tasks_list.push(Vec::new());
        proof {
            assert(self@ =~~= mirror_push_inventory(old(self)@, inv@));
        }
    }

    /// Apply a confirmed task row: it joins the list of its inventory;
    /// a row of no live inventory is dropped.
    pub fn push_new_task(&mut self, task: Task)
        requires
            old(self)@.wf(),
        ensures
            final(self)@ == mirror_push_task(old(self)@, task@),
            final(self)@.wf(),
    {
        let idx_opt = self.inventory_idx_by_id(task.inventory_id);
        if let Some(idx) = idx_opt {
            self.tasks_list[idx].push(task);
            proof {
                assert(self@.tasks =~~= old(self)@.tasks.update(
                    idx as int,
                    old(self)@.tasks[idx as int].push(task@),
                ));
                assert(self@ =~~= mirror_push_task(old(self)@, task@));
            }
        }
    }

    /// Apply a confirmed task delete: the row leaves its list and any
    /// shrunken list's selection is re-aimed.
    pub fn delete_task(&mut self, task_id: i32)
        requires
            old(self)@.wf(),
        ensures
            final(self)@ == mirror_delete_task(old(self)@, task_id as int),
            final(self)@.wf(),
    {
        let ghost m0 = self@;
        let ghost target = mirror_delete_task(self@, task_id as int);
        let n = self.tasks_list.len();
        let mut new_tasks: Vec<Vec<Task>> = Vec::new();
        let mut new_sel: Vec<Option<usize>> = Vec::new();
        let mut i: usize = 0;
        while i < n
            invariant
                i <= n,
                n == self.tasks_list@.len(),
                n == self.task_selected@.len(),
                self == old(self),
                m0 == self@,
                m0.wf(),
                target == mirror_delete_task(m0, task_id as int),
                new_tasks@.len() == i,
                new_sel@.len() == i,
                forall|j: int|
                    0 <= j < i ==> views_of_tasks((#[trigger] new_tasks@[j])@) == target.tasks[j],
                forall|j: int| 0 <= j < i ==> sel_view(#[trigger] new_sel@[j]) == target.task_selected[j],
                forall|j: int|
                    0 <= j < i ==> match #[trigger] new_sel@[j] {
                        Some(k) => k < new_tasks@[j]@.len(),
                        None => true,
                    },
            decreases n - i,
        {
            let cur_len = self.tasks_list[i].len();
            proof {
                assert(match m0.task_selected[i as int] {
                    Some(j) => 0 <= j < m0.tasks[i as int].len(),
                    None => true,
                });
            }
            let filtered = retain_tasks(&self.tasks_list[i], task_id, false);
            let sel = if filtered.len() != cur_len {
                next_select(self.task_selected[i], filtered.len())
            } else {
                self.task_selected[i]
            };
            new_tasks.push(filtered);
            new_sel.push(sel);
            i += 1;
        }
        self.tasks_list = new_tasks;
        self.task_selected = new_sel;
        proof {
            assert(self@.tasks =~~= target.tasks);
            assert(self@.task_selected =~= target.task_selected);
            assert(self@ =~~= target);
        }
    }

    /// Apply a confirmed inventory delete: the row and its parallel
    /// slots leave, and the inventory selection advances.
    pub fn delete_inventory(&mut self, inventory_id: i32)
        requires
            old(self)@.wf(),
        ensures
            final(self)@ == mirror_delete_inventory(old(self)@, inventory_id as int),
            final(self)@.wf(),
    {
        let idx_opt = self.inventory_idx_by_id(inventory_id);
        if let Some(idx) = idx_opt {
            let total = self.inventory_list.len();
            proof {
                assert(match old(self)@.inventory_selected {
                    Some(k) => k < total,
                    None => true,
                });
            }
            self.inventory_list.remove(idx);
            self.task_selected.remove(idx);
            self.tasks_list.remove(idx);
            let len = self.inventory_list.len();
            self.inventory_selected = next_select(self.inventory_selected, len);
            proof {
                let target = mirror_delete_inventory(old(self)@, inventory_id as int);
                assert(self@.inventories =~= old(self)@.inventories.remove(idx as int));
                assert(self@.task_selected =~= old(self)@.task_selected.remove(idx as int));
                assert(self@.tasks =~~= old(self)@.tasks.remove(idx as int));
                assert(self@ =~~= target);
            }
        }
    }

    /// Apply a confirmed inventory patch.
    pub fn edit_inventory(&mut self, inv: &EditInventory)
        requires
            old(self)@.wf(),
        ensures
            final(self)@ == mirror_edit_inventory(old(self)@, inv@),
            final(self)@.wf(),
    {
        let ghost target = mirror_edit_inventory(self@, inv@);
        let mut out: Vec<Inventory> = Vec::new();
        let mut i: usize = 0;
        let n = self.inventory_list.len();
        while i < n
            invariant
                i <= n,
                n == self.inventory_list@.len(),
                self == old(self),
                target == mirror_edit_inventory(self@, inv@),
                out@.len() == i,
                forall|j: int| 0 <= j < i ==> (#[trigger] out@[j])@ == target.inventories[j],
            decreases n - i,
        {
            let x = &self.inventory_list[i];
            if x.id == inv.id {
                let mut patched = x.clone();
                if let Some(n2) = &inv.name {
                    patched.name = n2.clone();
                }
                if let Some(c) = inv.color {
                    patched.color = crate::color::DbColor(c);
                }
                out.push(patched);
            } else {
                out.push(x.clone());
            }
            i += 1;
        }
        self.inventory_list = out;
        proof {
            assert(self@.inventories =~= target.inventories);
            assert(self@ =~~= target);
        }
    }

    /// Apply a confirmed task patch.
    pub fn edit_task(&mut self, task: &EditTask)
        requires
            old(self)@.wf(),
        ensures
            final(self)@ == mirror_edit_task(old(self)@, task@),
            final(self)@.wf(),
    {
        let ghost target = mirror_edit_task(self@, task@);
        let mut out: Vec<Vec<Task>> = Vec::new();
        let mut i: usize = 0;
        let n = self.tasks_list.len();
        while i < n
            invariant
                i <= n,
                n == self.tasks_list@.len(),
                self == old(self),
                target == mirror_edit_task(self@, task@),
                out@.len() == i,
                forall|j: int|
                    0 <= j < i ==> views_of_tasks((#[trigger] out@[j])@) == target.tasks[j],
            decreases n - i,
        {
            out.push(patched_tasks(&self.tasks_list[i], task));
            i += 1;
        }
        self.tasks_list = out;
        proof {
            assert(self@.tasks =~~= target.tasks);
            assert(self@ =~~= target);
        }
    }

    /// Apply a confirmed session: credit its span to its task.
    pub fn apply_tomato(&mut self, t: &Tomato)
        requires
            old(self)@.wf(),
        ensures
            final(self)@ == mirror_apply_tomato(old(self)@, t@),
            final(self)@.wf(),
    {
        let delta = crate::actor::session_delta_exec(t);
        let ghost target = mirror_apply_tomato(self@, t@);
        let mut out: Vec<Vec<Task>> = Vec::new();
        let mut i: usize = 0;
        let n = self.tasks_list.len();
        while i < n
            invariant
                i <= n,
                n == self.tasks_list@.len(),
                self == old(self),
                delta == session_delta(t@),
                target == mirror_apply_tomato(self@, t@),
                out@.len() == i,
                forall|j: int|
                    0 <= j < i ==> views_of_tasks((#[trigger] out@[j])@) == target.tasks[j],
            decreases n - i,
        {
            out.push(credited_tasks(&self.tasks_list[i], t, delta));
            i += 1;
        }
        self.tasks_list = out;
        proof {
            assert(self@.tasks =~~= target.tasks);
            assert(self@ =~~= target);
        }
    }

    /// The chosen (inventory, task) location, when both lists have a
    /// selection.
    pub fn get_task_location(&self) -> (r: Option<(usize, usize)>)
        requires
            self@.wf(),
        ensures
            match r {
                Some((i, j)) => {
                    &&& self@.inventory_selected == Some(i as int)
                    &&& self@.task_selected[i as int] == Some(j as int)
                    &&& i < self@.inventories.len()
                    &&& j < self@.tasks[i as int].len()
                },
                None => self@.inventory_selected is None || (self@.inventory_selected matches Some(
                    i,
                ) && self@.task_selected[i] is None),
            },
    {
        match self.inventory_selected {
            Some(iidx) => match self.task_selected[iidx] {
                Some(tidx) => Some((iidx, tidx)),
                None => None,
            },
            None => None,
        }
    }

    /// Advance the inventory selection, wrapping.
    pub fn next_inventory(&mut self)
        requires
            old(self)@.wf(),
        ensures
            final(self)@ == (MirrorView {
                inventory_selected: next_sel(
                    old(self)@.inventory_selected,
                    old(self)@.inventories.len() as int,
                ),
                ..old(self)@
            }),
            final(self)@.wf(),
    {
        let len = self.inventory_list.len();
        self.inventory_selected = next_select(self.inventory_selected, len);
    }

    /// Step the inventory selection back, wrapping.
    pub fn previous_inventory(&mut self)
        requires
            old(self)@.wf(),
        ensures
            final(self)@ == (MirrorView {
                inventory_selected: prev_sel(
                    old(self)@.inventory_selected,
                    old(self)@.inventories.len() as int,
                ),
                ..old(self)@
            }),
            final(self)@.wf(),
    {
        let len = self.inventory_list.len();
        self.inventory_selected = previous_select(self.inventory_selected, len);
    }

    /// Advance the task selection of the selected inventory, wrapping.
    pub fn next_task(&mut self)
        requires
            old(self)@.wf(),
        ensures
            final(self)@ == match old(self)@.inventory_selected {
                Some(i) => (MirrorView {
                    task_selected: old(self)@.task_selected.update(
                        i,
                        next_sel(old(self)@.task_selected[i], old(self)@.tasks[i].len() as int),
                    ),
                    ..old(self)@
                }),
                None => old(self)@,
            },
            final(self)@.wf(),
    {
        if let Some(idx) = self.inventory_selected {
            let len = self.tasks_list[idx].len();
            let sel = next_select(self.task_selected[idx], len);
            self.task_selected[idx] = sel;
            proof {
                assert(self@.task_selected =~= old(self)@.task_selected.update(
                    idx as int,
                    next_sel(
                        old(self)@.task_selected[idx as int],
                        old(self)@.tasks[idx as int].len() as int,
                    ),
                ));
                assert(self@ =~= (MirrorView {
                    task_selected: self@.task_selected,
                    ..old(self)@
                }));
            }
        }
    }

    /// Step the task selection of the selected inventory back,
    /// wrapping.
    pub fn previous_task(&mut self)
        requires
            old(self)@.wf(),
        ensures
            final(self)@ == match old(self)@.inventory_selected {
                Some(i) => (MirrorView {
                    task_selected: old(self)@.task_selected.update(
                        i,
                        prev_sel(old(self)@.task_selected[i], old(self)@.tasks[i].len() as int),
                    ),
                    ..old(self)@
                }),
                None => old(self)@,
            },
            final(self)@.wf(),
    {
        if let Some(idx) = self.inventory_selected {
            let len = self.tasks_list[idx].len();
            let sel = previous_select(self.task_selected[idx], len);
            self.task_selected[idx] = sel;
            proof {
                assert(self@.task_selected =~= old(self)@.task_selected.update(
                    idx as int,
                    prev_sel(
                        old(self)@.task_selected[idx as int],
                        old(self)@.tasks[idx as int].len() as int,
                    ),
                ));
                assert(self@ =~= (MirrorView {
                    task_selected: self@.task_selected,
                    ..old(self)@
                }));
            }
        }
    }
}

} // verus!
