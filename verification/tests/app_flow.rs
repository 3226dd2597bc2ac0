use tomato::app::{ActiveBlock, AppBuilder};
use tomato::entities::Tomato;
use tomato::events::Key;
use tomato::messages::{AppMsg, ProcessMsg};
use tomato::store::Store;

#[test]
fn stack_push_then_pop_returns_to_root() {
    let mut app = AppBuilder::default().build();
    assert_eq!(app.active_block(), ActiveBlock::Navitab);
    app.push_block(ActiveBlock::InventoryList);
    assert_eq!(app.active_block(), ActiveBlock::InventoryList);
    app.pop_block();
    assert_eq!(app.active_block(), ActiveBlock::Navitab);
}

#[test]
fn popping_an_empty_stack_is_a_no_op() {
    let mut app = AppBuilder::default().build();
    app.pop_block();
    app.pop_block();
    assert_eq!(app.active_block(), ActiveBlock::Navitab);
    assert!(app.is_q_quit_enable());
}

#[test]
fn enter_opens_the_inventory_list_and_escape_leaves_it() {
    let mut app = AppBuilder::default().build();
    app.on_key(Key::Char('\n'));
    assert_eq!(app.active_block(), ActiveBlock::InventoryList);
    app.on_key(Key::Esc);
    assert_eq!(app.active_block(), ActiveBlock::Navitab);
}

#[test]
fn notification_eats_the_escape_key_first() {
    let mut app = AppBuilder::default().build();
    app.on_key(Key::Char('\n'));
    app.process_msg(AppMsg::Notify("storage failed".to_owned()));
    assert!(app.notify.is_some());
    // the first escape only dismisses the banner
    app.on_key(Key::Esc);
    assert!(app.notify.is_none());
    assert_eq!(app.active_block(), ActiveBlock::InventoryList);
    // the next one pops the stack
    app.on_key(Key::Esc);
    assert_eq!(app.active_block(), ActiveBlock::Navitab);
}

/// The full round trip of the scenario: create an inventory and a task,
/// confirm a 300-second session, then cascade-delete the inventory,
/// checking mirror and storage at each step.
#[test]
fn create_close_delete_scenario() {
    let mut app = AppBuilder::default().build();
    let mut store = Store::new();

    // create Inventory "Code" -> id 1
    let ev = store.process_message(
        ProcessMsg::CreateInventory(tomato::entities::NewInventory {
            name: "Code".to_owned(),
            color: 0,
        }),
        0,
    );
    match &ev {
        AppMsg::NewInventory(inv) => {
            assert_eq!(inv.id, 1);
            assert_eq!(inv.name, "Code");
        }
        _ => panic!("expected an inventory confirmation"),
    }
    assert!(app.process_msg(ev).is_none());
    assert_eq!(app.inventory.inventory_list.len(), 1);
    assert_eq!(app.inventory.inventory_list[0].name, "Code");

    // create Task "Rust" under id 1 -> id 1, no time spent
    let ev = store.process_message(
        ProcessMsg::CreateTask(tomato::entities::NewTask {
            inventory_id: 1,
            name: "Rust".to_owned(),
            notes: None,
        }),
        7,
    );
    match &ev {
        AppMsg::NewTask(task) => {
            assert_eq!(task.id, 1);
            assert_eq!(task.spent_minutes, 0);
        }
        _ => panic!("expected a task confirmation"),
    }
    app.process_msg(ev);
    assert_eq!(app.inventory.tasks_list[0].len(), 1);
    assert_eq!(app.inventory.tasks_list[0][0].spent_minutes, 0);

    // a finished focus interval books 300 seconds against the committed task
    app.tomato.set_where_idx((0, 0));
    let t = 1_000_000;
    let cmd = app.process_msg(AppMsg::CloseTomato(Tomato {
        inventory_id: 0,
        task_id: 0,
        start_time: t,
        end_time: t + 300,
    }));
    let cmd = cmd.expect("a committed location turns the session into a command");
    match &cmd {
        ProcessMsg::TomatoClose(session) => {
            assert_eq!(session.inventory_id, 1);
            assert_eq!(session.task_id, 1);
        }
        _ => panic!("expected a session-close command"),
    }
    // the mirror is not touched before the confirmation
    assert_eq!(app.inventory.tasks_list[0][0].spent_minutes, 0);
    let ev = store.process_message(cmd, 0);
    app.process_msg(ev);
    assert_eq!(app.inventory.tasks_list[0][0].spent_minutes, 300);
    assert_eq!(store.tasks[0].spent_minutes, 300);
    assert_eq!(store.tomatos.len(), 1);

    // delete inventory 1: task and session disappear from both sides
    let ev = store.process_message(ProcessMsg::DeleteInventory(1), 0);
    app.process_msg(ev);
    assert!(app.inventory.inventory_list.is_empty());
    assert!(app.inventory.tasks_list.is_empty());
    assert!(store.inventories.is_empty());
    assert!(store.tasks.is_empty());
    assert!(store.tomatos.is_empty());
}

#[test]
fn stale_committed_location_books_nothing() {
    let mut app = AppBuilder::default().build();
    app.tomato.set_where_idx((3, 0));
    let cmd = app.process_msg(AppMsg::CloseTomato(Tomato {
        inventory_id: 0,
        task_id: 0,
        start_time: 0,
        end_time: 60,
    }));
    assert!(cmd.is_none());
}

#[test]
fn delete_command_leaves_through_the_key_handler() {
    let mut app = AppBuilder::default().build();
    let mut store = Store::new();
    let ev = store.process_message(
        ProcessMsg::CreateInventory(tomato::entities::NewInventory {
            name: "junk".to_owned(),
            color: 0,
        }),
        0,
    );
    app.process_msg(ev);

    app.on_key(Key::Char('\n'));
    assert_eq!(app.active_block(), ActiveBlock::InventoryList);
    app.on_key(Key::Down);
    assert_eq!(app.inventory.inventory_selected, Some(0));
    let (_, cmd) = app.on_key(Key::Ctrl('d'));
    match cmd {
        Some(ProcessMsg::DeleteInventory(id)) => assert_eq!(id, 1),
        _ => panic!("expected a delete command for the selected inventory"),
    }
}

#[test]
fn typing_flow_produces_the_create_command() {
    let mut app = AppBuilder::default().build();
    app.on_key(Key::Char('\n'));
    app.on_key(Key::Ctrl('n'));
    assert_eq!(app.active_block(), ActiveBlock::Input);
    assert!(!app.is_q_quit_enable());
    for c in "Code@blue".chars() {
        app.on_key(Key::Char(c));
    }
    let (ev, cmd) = app.on_key(Key::Char('\n'));
    match cmd {
        Some(ProcessMsg::CreateInventory(inv)) => {
            assert_eq!(inv.name, "Code");
            assert_eq!(inv.color, 5);
        }
        _ => panic!("expected a create-inventory command"),
    }
    // the input-end event pops the modal block once it is processed
    app.process_msg(ev.expect("submit ends the input"));
    assert_eq!(app.active_block(), ActiveBlock::InventoryList);
}

#[test]
fn tick_on_exhausted_focus_phase_requests_a_session() {
    let mut app = AppBuilder::default().build();
    let config = tomato::timer::TomatoConfig {
        task_duration: 0,
        ..tomato::timer::TomatoConfig::default()
    };
    app.tomato = tomato::timer::TomatoModel::with_config(config);
    let msg = app.on_tick(100);
    assert!(matches!(msg, Some(AppMsg::CloseTomato(_))));
    // the break that follows books nothing
    let msg = app.on_tick(100);
    assert!(msg.is_none());
}
