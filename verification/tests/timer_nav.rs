use tomato::color::{Color, NamedColor};
use tomato::events::{next_event, Event, Key};
use tomato::navitab::{NavitabModel, TabType};
use tomato::timer::{CountdownType, State, TomatoConfig, TomatoModel};

#[test]
fn phase_sequence_for_interval_three() {
    let state = State::new(3);
    assert_eq!(
        state.states,
        vec![
            CountdownType::Focus,
            CountdownType::ShortBreak,
            CountdownType::Focus,
            CountdownType::ShortBreak,
            CountdownType::Focus,
            CountdownType::LongBreak,
        ]
    );
    assert_eq!(state.idx, 0);
}

#[test]
fn phase_index_wraps_after_long_break() {
    let mut state = State::new(3);
    let seq = [
        CountdownType::ShortBreak,
        CountdownType::Focus,
        CountdownType::ShortBreak,
        CountdownType::Focus,
        CountdownType::LongBreak,
    ];
    for expected in seq {
        assert_eq!(state.next(), expected);
    }
    assert_eq!(state.next(), CountdownType::Focus);
    assert_eq!(state.idx, 0);
}

#[test]
fn degenerate_interval_still_cycles() {
    let state = State::new(0);
    assert_eq!(state.states, vec![CountdownType::Focus, CountdownType::LongBreak]);
}

#[test]
fn countdown_ticks_down_and_clamps_at_zero() {
    let mut tomato = TomatoModel::new();
    // the default focus phase is 5 seconds; a fresh countdown is paused
    assert_eq!(tomato.min_and_sec(), (0, 5));
    tomato.on_tick(1000);
    assert_eq!(tomato.min_and_sec(), (0, 5));
    tomato.flip();
    tomato.on_tick(1000);
    assert_eq!(tomato.min_and_sec(), (0, 4));
    // a huge tick exhausts the countdown instead of going negative
    tomato.on_tick(3_600_000);
    assert_eq!(tomato.min_and_sec(), (0, 0));
}

#[test]
fn zero_duration_phase_is_exhausted_on_the_very_next_tick() {
    let config = TomatoConfig { task_duration: 0, ..TomatoConfig::default() };
    let mut tomato = TomatoModel::with_config(config);
    assert_eq!(tomato.min_and_sec(), (0, 0));
    // the next tick reports exhaustion: the focus phase completes at once
    let session = tomato.on_tick(100);
    let session = session.expect("a finished focus phase yields its session");
    assert_eq!(session.inventory_id, 0);
    assert_eq!(session.task_id, 0);
    assert!(session.start_time <= session.end_time);
    assert_eq!(session.end_time - session.start_time, 0);
    // and the cycle moved on to the short break
    assert_eq!(tomato.fg_style(), Color::Named(NamedColor::LightGreen));
}

#[test]
fn completed_break_yields_no_session() {
    let config = TomatoConfig {
        task_duration: 0,
        short_break_duration: 0,
        ..TomatoConfig::default()
    };
    let mut tomato = TomatoModel::with_config(config);
    assert!(tomato.on_tick(100).is_some());
    // now in the (zero-length) short break: its end books nothing
    assert!(tomato.on_tick(100).is_none());
}

#[test]
fn session_spans_exactly_the_focus_duration() {
    let tomato = TomatoModel::new();
    let session = tomato.tomato_complete();
    assert!(session.start_time <= session.end_time);
    // the clock sits far from the representable minimum, so the span
    // is the configured focus duration, never less
    assert_eq!(session.end_time - session.start_time, 5);
    assert_eq!(session.inventory_id, 0);
    assert_eq!(session.task_id, 0);
}

#[test]
fn where_idx_is_kept() {
    let mut tomato = TomatoModel::new();
    assert_eq!(tomato.where_idx(), None);
    tomato.set_where_idx((2, 7));
    assert_eq!(tomato.where_idx(), Some((2, 7)));
}

#[test]
fn tabs_cycle_both_ways() {
    let mut tabs = NavitabModel::new();
    assert_eq!(tabs.tab_type(), TabType::Inventory);
    tabs.next();
    assert_eq!(tabs.tab_type(), TabType::Tomato);
    tabs.next();
    assert_eq!(tabs.tab_type(), TabType::Statistics);
    tabs.next();
    assert_eq!(tabs.tab_type(), TabType::Inventory);
    tabs.previous();
    assert_eq!(tabs.tab_type(), TabType::Statistics);
}

#[test]
fn ready_key_beats_ready_tick() {
    assert_eq!(next_event(Some(Key::Char('q')), true), Some(Event::Input(Key::Char('q'))));
    assert_eq!(next_event(None, true), Some(Event::Tick));
    assert_eq!(next_event(None, false), None);
}
