//! The persisted entities and their edit payloads, with spec-level views.
//!
//! Each executable entity has a view struct over `int` and `Seq<char>`;
//! the storage model, the mirror and all laws are stated over these
//! views.

use vstd::prelude::*;

verus! {

/// A completed focus interval ("tomato") linked to one task of one
/// inventory.  Immutable once created; `start_time <= end_time`.
#[derive(Clone, Copy, PartialEq, Eq, Structural, Debug)]
pub struct Tomato {
    pub inventory_id: i32,
    pub task_id: i32,
    pub start_time: i64,
    pub end_time: i64,
}

#[verifier::ext_equal]
pub struct TomatoView {
    pub inventory_id: int,
    pub task_id: int,
    pub start_time: int,
    pub end_time: int,
}

impl View for Tomato {
    type V = TomatoView;

    open spec fn view(&self) -> TomatoView {
        TomatoView {
            inventory_id: self.inventory_id as int,
            task_id: self.task_id as int,
            start_time: self.start_time as int,
            end_time: self.end_time as int,
        }
    }
}

impl TomatoView {
    /// A session is well formed when it spans a non-negative stretch of
    /// non-negative timestamps; the spanned length then fits an `i64`.
    pub open spec fn wf(self) -> bool {
        0 <= self.start_time <= self.end_time <= i64::MAX
    }

    /// The length of the focus interval.
    pub open spec fn duration(self) -> int {
        self.end_time - self.start_time
    }
}

/// A top-level grouping of tasks.
#[derive(Debug)]
pub struct Inventory {
    pub id: i32,
    pub name: String,
    pub color: crate::color::DbColor,
}

#[verifier::ext_equal]
pub struct InventoryView {
    pub id: int,
    pub name: Seq<char>,
    pub color: int,
}

impl View for Inventory {
    type V = InventoryView;

    open spec fn view(&self) -> InventoryView {
        InventoryView { id: self.id as int, name: self.name@, color: self.color.0 as int }
    }
}

/// A trackable unit of work under one inventory; accumulates spent time.
#[derive(Debug)]
pub struct Task {
    pub id: i32,
    pub inventory_id: i32,
    pub name: String,
    pub spent_minutes: i64,
    pub create_at: i64,
    pub notes: Option<String>,
}

#[verifier::ext_equal]
pub struct TaskView {
    pub id: int,
    pub inventory_id: int,
    pub name: Seq<char>,
    pub spent_minutes: int,
    pub create_at: int,
    pub notes: Option<Seq<char>>,
}

impl View for Task {
    type V = TaskView;

    open spec fn view(&self) -> TaskView {
        TaskView {
            id: self.id as int,
            inventory_id: self.inventory_id as int,
            name: self.name@,
            spent_minutes: self.spent_minutes as int,
            create_at: self.create_at as int,
            notes: match self.notes {
                Some(ref n) => Some(n@),
                None => None,
            },
        }
    }
}

/// The payload of an inventory creation request; storage assigns the id.
#[derive(Clone, Debug)]
pub struct NewInventory {
    pub name: String,
    pub color: i32,
}

#[verifier::ext_equal]
pub struct NewInventoryView {
    pub name: Seq<char>,
    pub color: int,
}

impl View for NewInventory {
    type V = NewInventoryView;

    open spec fn view(&self) -> NewInventoryView {
        NewInventoryView { name: self.name@, color: self.color as int }
    }
}

impl Default for NewInventory {
    fn default() -> (r: Self)
        ensures
            r.name@ == Seq::<char>::empty(),
            r.color == 0,
    {
        NewInventory { name: String::new(), color: 0 }
    }
}

/// The payload of a task creation request; storage assigns the id and
/// the creation timestamp.
#[derive(Clone, Debug)]
pub struct NewTask {
    pub inventory_id: i32,
    pub name: String,
    pub notes: Option<String>,
}

#[verifier::ext_equal]
pub struct NewTaskView {
    pub inventory_id: int,
    pub name: Seq<char>,
    pub notes: Option<Seq<char>>,
}

impl View for NewTask {
    type V = NewTaskView;

    open spec fn view(&self) -> NewTaskView {
        NewTaskView {
            inventory_id: self.inventory_id as int,
            name: self.name@,
            notes: match self.notes {
                Some(ref n) => Some(n@),
                None => None,
            },
        }
    }
}

impl Default for NewTask {
    fn default() -> (r: Self)
        ensures
            r.inventory_id == 0,
            r.name@ == Seq::<char>::empty(),
            r.notes is None,
    {
        NewTask { inventory_id: 0, name: String::new(), notes: None }
    }
}

/// The row shape a task is inserted with, before storage assigns an id.
#[derive(Clone, Debug)]
pub struct TaskRow {
    pub inventory_id: i32,
    pub name: String,
    pub spent_minutes: i64,
    pub create_at: i64,
    pub notes: Option<String>,
}

/// A partial patch for an inventory: only supplied fields overwrite.
#[derive(Clone, Debug)]
pub struct EditInventory {
    pub id: i32,
    pub name: Option<String>,
    pub color: Option<i32>,
}

#[verifier::ext_equal]
pub struct EditInventoryView {
    pub id: int,
    pub name: Option<Seq<char>>,
    pub color: Option<int>,
}

impl View for EditInventory {
    type V = EditInventoryView;

    open spec fn view(&self) -> EditInventoryView {
        EditInventoryView {
            id: self.id as int,
            name: match self.name {
                Some(ref n) => Some(n@),
                None => None,
            },
            color: match self.color {
                Some(c) => Some(c as int),
                None => None,
            },
        }
    }
}

impl Default for EditInventory {
    fn default() -> (r: Self)
        ensures
            r.id == 0,
            r.name is None,
            r.color is None,
    {
        EditInventory { id: 0, name: None, color: None }
    }
}

/// A partial patch for a task: only a supplied name overwrites.
#[derive(Clone, Debug)]
pub struct EditTask {
    pub id: i32,
    pub name: Option<String>,
}

#[verifier::ext_equal]
pub struct EditTaskView {
    pub id: int,
    pub name: Option<Seq<char>>,
}

impl View for EditTask {
    type V = EditTaskView;

    open spec fn view(&self) -> EditTaskView {
        EditTaskView {
            id: self.id as int,
            name: match self.name {
                Some(ref n) => Some(n@),
                None => None,
            },
        }
    }
}

impl Default for EditTask {
    fn default() -> (r: Self)
        ensures
            r.id == 0,
            r.name is None,
    {
        EditTask { id: 0, name: None }
    }
}

impl Clone for Inventory {
    fn clone(&self) -> (r: Self)
        ensures
            r == *self,
    {
        Inventory { id: self.id, name: self.name.clone(), color: self.color }
    }
}

impl Clone for Task {
    fn clone(&self) -> (r: Self)
        ensures
            r == *self,
    {
        Task {
            id: self.id,
            inventory_id: self.inventory_id,
            name: self.name.clone(),
            spent_minutes: self.spent_minutes,
            create_at: self.create_at,
            notes: match &self.notes {
                Some(n) => Some(n.clone()),
                None => None,
            },
        }
    }
}

/// The element-wise views of a stored row sequence.
pub open spec fn views_of_inventories(v: Seq<Inventory>) -> Seq<InventoryView> {
    v.map_values(|x: Inventory| x@)
}

/// The element-wise views of a stored row sequence.
pub open spec fn views_of_tasks(v: Seq<Task>) -> Seq<TaskView> {
    v.map_values(|x: Task| x@)
}

/// The element-wise views of a stored row sequence.
pub open spec fn views_of_tomatos(v: Seq<Tomato>) -> Seq<TomatoView> {
    v.map_values(|x: Tomato| x@)
}

/// The patched inventory view: supplied fields overwrite, the rest stay.
pub open spec fn patch_inventory(inv: InventoryView, name: Option<Seq<char>>, color: Option<
    int,
>) -> InventoryView {
    InventoryView {
        id: inv.id,
        name: match name {
            Some(n) => n,
            None => inv.name,
        },
        color: match color {
            Some(c) => c,
            None => inv.color,
        },
    }
}

/// The patched task view: a supplied name overwrites, the rest stays.
pub open spec fn patch_task(t: TaskView, name: Option<Seq<char>>) -> TaskView {
    TaskView {
        id: t.id,
        inventory_id: t.inventory_id,
        name: match name {
            Some(n) => n,
            None => t.name,
        },
        spent_minutes: t.spent_minutes,
        create_at: t.create_at,
        notes: t.notes,
    }
}

} // verus!
