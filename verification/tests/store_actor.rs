use tomato::entities::{EditInventory, EditTask, NewInventory, NewTask, Tomato};
use tomato::messages::{AppMsg, ProcessMsg};
use tomato::store::Store;

fn new_inventory(name: &str, color: i32) -> ProcessMsg {
    ProcessMsg::CreateInventory(NewInventory { name: name.to_owned(), color })
}

fn new_task(inventory_id: i32, name: &str) -> ProcessMsg {
    ProcessMsg::CreateTask(NewTask { inventory_id, name: name.to_owned(), notes: None })
}

#[test]
fn generated_ids_count_up_from_one() {
    let mut store = Store::new();
    match store.process_message(new_inventory("a", 0), 10) {
        AppMsg::NewInventory(inv) => assert_eq!(inv.id, 1),
        _ => panic!("expected an inventory confirmation"),
    }
    match store.process_message(new_inventory("b", 0), 10) {
        AppMsg::NewInventory(inv) => assert_eq!(inv.id, 2),
        _ => panic!("expected an inventory confirmation"),
    }
    match store.process_message(new_task(1, "t"), 42) {
        AppMsg::NewTask(task) => {
            assert_eq!(task.id, 1);
            assert_eq!(task.inventory_id, 1);
            assert_eq!(task.spent_minutes, 0);
            assert_eq!(task.create_at, 42);
        }
        _ => panic!("expected a task confirmation"),
    }
}

#[test]
fn confirmations_come_back_in_submission_order() {
    let mut store = Store::new();
    let evs = store.process_all(
        vec![new_inventory("A", 0), new_inventory("B", 0)],
        0,
    );
    assert_eq!(evs.len(), 2);
    match &evs[0] {
        AppMsg::NewInventory(inv) => assert_eq!(inv.name, "A"),
        _ => panic!("the first confirmation must answer the first command"),
    }
    match &evs[1] {
        AppMsg::NewInventory(inv) => assert_eq!(inv.name, "B"),
        _ => panic!("the second confirmation must answer the second command"),
    }
}

#[test]
fn close_session_increments_spent_atomically() {
    let mut store = Store::new();
    store.process_message(new_inventory("work", 0), 0);
    store.process_message(new_task(1, "write"), 0);
    let session = Tomato { inventory_id: 1, task_id: 1, start_time: 100, end_time: 400 };
    match store.process_message(ProcessMsg::TomatoClose(session), 0) {
        AppMsg::TomatoClosed(t) => assert_eq!(t.end_time - t.start_time, 300),
        _ => panic!("expected a session confirmation"),
    }
    assert_eq!(store.tasks[0].spent_minutes, 300);
    assert_eq!(store.tomatos.len(), 1);

    // a second confirmed session adds its own span: the sum over both
    let session = Tomato { inventory_id: 1, task_id: 1, start_time: 1000, end_time: 1050 };
    store.process_message(ProcessMsg::TomatoClose(session), 0);
    assert_eq!(store.tasks[0].spent_minutes, 350);
    assert_eq!(store.tomatos.len(), 2);
}

#[test]
fn delete_inventory_cascades_to_tasks_and_sessions() {
    let mut store = Store::new();
    store.process_message(new_inventory("keep", 0), 0);
    store.process_message(new_inventory("drop", 0), 0);
    store.process_message(new_task(1, "stays"), 0);
    store.process_message(new_task(2, "goes"), 0);
    let session = Tomato { inventory_id: 2, task_id: 2, start_time: 0, end_time: 60 };
    store.process_message(ProcessMsg::TomatoClose(session), 0);

    store.process_message(ProcessMsg::DeleteInventory(2), 0);
    assert_eq!(store.inventories.len(), 1);
    assert_eq!(store.inventories[0].id, 1);
    assert_eq!(store.tasks.len(), 1);
    assert_eq!(store.tasks[0].id, 1);
    assert!(store.tomatos.is_empty());
}

#[test]
fn delete_task_cascades_to_its_sessions() {
    let mut store = Store::new();
    store.process_message(new_inventory("inv", 0), 0);
    store.process_message(new_task(1, "a"), 0);
    store.process_message(new_task(1, "b"), 0);
    let session = Tomato { inventory_id: 1, task_id: 1, start_time: 0, end_time: 10 };
    store.process_message(ProcessMsg::TomatoClose(session), 0);

    store.process_message(ProcessMsg::DeleteTask(1), 0);
    assert_eq!(store.tasks.len(), 1);
    assert_eq!(store.tasks[0].id, 2);
    assert!(store.tomatos.is_empty());
    assert_eq!(store.inventories.len(), 1);
}

#[test]
fn updates_patch_only_supplied_fields() {
    let mut store = Store::new();
    store.process_message(new_inventory("old", 7), 0);
    store.process_message(
        ProcessMsg::UpdateInventory(EditInventory { id: 1, name: Some("new".to_owned()), color: None }),
        0,
    );
    assert_eq!(store.inventories[0].name, "new");
    assert_eq!(store.inventories[0].color.code(), 7);

    store.process_message(new_task(1, "before"), 5);
    store.process_message(
        ProcessMsg::UpdateTask(EditTask { id: 1, name: Some("after".to_owned()) }),
        0,
    );
    assert_eq!(store.tasks[0].name, "after");
    assert_eq!(store.tasks[0].create_at, 5);
}

#[test]
fn clock_stamped_task_creation() {
    let mut store = Store::new();
    store.process_message_now(new_inventory("now", 0));
    match store.process_message_now(new_task(1, "stamped")) {
        AppMsg::NewTask(task) => {
            assert_eq!(task.id, 1);
            assert_eq!(task.name, "stamped");
            // a wall-clock stamp, well after the Unix epoch
            assert!(task.create_at > 1_000_000_000);
        }
        _ => panic!("expected a task confirmation"),
    }
}

#[test]
fn mirror_seeded_from_a_snapshot_matches_storage() {
    let mut store = Store::new();
    store.process_message(new_inventory("a", 1), 0);
    store.process_message(new_inventory("b", 2), 0);
    store.process_message(new_task(2, "b1"), 0);
    store.process_message(new_task(1, "a1"), 0);

    let invs = store.all_inventory();
    let grouped = store.all_task_groupby(&invs);
    let mirror = tomato::inventory::InventoryModel::from_lists(invs, grouped);
    assert_eq!(mirror.inventory_selected, None);
    assert_eq!(mirror.inventory_list.len(), 2);
    assert_eq!(mirror.tasks_list[0].len(), 1);
    assert_eq!(mirror.tasks_list[0][0].name, "a1");
    assert_eq!(mirror.tasks_list[1][0].name, "b1");
    assert_eq!(mirror.task_selected, vec![None, None]);
}

#[test]
fn grouped_tasks_run_parallel_to_their_inventories() {
    let mut store = Store::new();
    store.process_message(new_inventory("x", 0), 0);
    store.process_message(new_inventory("y", 0), 0);
    store.process_message(new_task(2, "y1"), 0);
    store.process_message(new_task(1, "x1"), 0);
    store.process_message(new_task(2, "y2"), 0);

    let invs = store.all_inventory();
    assert_eq!(invs.len(), 2);
    let grouped = store.all_task_groupby(&invs);
    assert_eq!(grouped.len(), 2);
    assert_eq!(grouped[0].len(), 1);
    assert_eq!(grouped[0][0].name, "x1");
    assert_eq!(grouped[1].len(), 2);
    assert_eq!(grouped[1][0].name, "y1");
    assert_eq!(grouped[1][1].name, "y2");
}
