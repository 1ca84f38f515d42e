use delta_pico::apps::{MemoryApplication, StorageApplication, StorageViewerAction, T9Application};
use delta_pico::input::{ButtonInput, OSInput};
use delta_pico::real_time::{tick_real_time, RealTimeApplication, RealTimeResult, RealTimeState, RealTimeTestApplication, RealTimeTestApplicationEvent};
use delta_pico::sprite_cache::{SpriteCache, SpriteCacheEntry, SpriteCacheEntryData};
use delta_pico::timer::Timer;

#[test]
fn t9_types_cycles_and_deletes() {
    let mut t9 = T9Application::new();
    t9.handle_input(ButtonInput::Digit(2), 100);
    t9.handle_input(ButtonInput::Digit(2), 200);
    assert_eq!(t9.text().iter().collect::<String>(), "u");
    t9.handle_input(ButtonInput::Digit(5), 300);
    assert_eq!(t9.text().iter().collect::<String>(), "uj");
    t9.handle_input(ButtonInput::Digit(5), 2000);
    assert_eq!(t9.text().iter().collect::<String>(), "ujj");
    t9.handle_input(ButtonInput::Delete, 2100);
    assert_eq!(t9.text().iter().collect::<String>(), "uj");
    t9.handle_input(ButtonInput::Digit(0), 2200);
    assert_eq!(t9.text().iter().collect::<String>(), "uj");
    t9.handle_input(ButtonInput::Exe, 2300);
    assert_eq!(t9.text().len(), 2);
}

#[test]
fn storage_viewer_pages() {
    let mut app = StorageApplication::new();
    assert_eq!(app.handle_input(OSInput::Button(ButtonInput::MoveDown)), StorageViewerAction::Nothing);
    assert_eq!(app.address, 64);
    assert_eq!(app.shown_range(), (64, 127));
    app.handle_input(OSInput::Button(ButtonInput::MoveUp));
    assert_eq!(app.address, 0);
    assert_eq!(app.handle_input(OSInput::Button(ButtonInput::List)), StorageViewerAction::OpenMenu);
    app.jump_to(1000);
    assert_eq!(app.address, 960);
}

#[test]
fn memory_viewer_pages() {
    let mut app = MemoryApplication::new();
    app.handle_input(ButtonInput::MoveDown);
    app.handle_input(ButtonInput::MoveDown);
    app.handle_input(ButtonInput::MoveUp);
    app.handle_input(ButtonInput::Exe);
    assert_eq!(app.address, 64);
}

#[test]
fn real_time_state_fires_due_events_once() {
    let mut s: RealTimeState<u8> = RealTimeState::new();
    s.schedule(100, 50, 1);
    s.schedule(100, 10, 2);
    s.schedule(100, 90, 3);
    s.on_input(OSInput::Button(ButtonInput::Exe), 7);
    s.on_input(OSInput::Button(ButtonInput::List), 8);
    s.on_input(OSInput::Button(ButtonInput::Exe), 9);
    assert_eq!(s.take_due_events(150), vec![1, 2]);
    assert_eq!(s.take_due_events(150), Vec::<u8>::new());
    assert_eq!(s.time_scheduled_events, vec![(190, 3)]);
    assert_eq!(s.events_for_key(OSInput::Button(ButtonInput::Exe)), vec![7, 9]);
    assert_eq!(s.events_for_key(OSInput::Button(ButtonInput::MoveUp)), Vec::<u8>::new());
}

struct Counter {
    state: RealTimeState<u8>,
    seen: Vec<u8>,
}

impl RealTimeApplication for Counter {
    type RealTimeEvent = u8;

    fn real_time_state(&self) -> RealTimeState<u8> {
        self.state.clone()
    }

    fn with_real_time_state(self, state: RealTimeState<u8>) -> Self {
        Counter { state, ..self }
    }

    /// The handler records the event and asks for a redraw on event 2.
    fn handles(&self, event: u8, _now: u32, next: &Self, result: RealTimeResult) -> bool {
        next.seen.len() == self.seen.len() + 1
            && next.seen.last() == Some(&event)
            && result == if event == 2 { RealTimeResult::Redraw } else { RealTimeResult::NoAction }
    }

    fn get_real_time_state(&self) -> &RealTimeState<u8> {
        &self.state
    }

    fn get_real_time_state_mut(&mut self) -> &mut RealTimeState<u8> {
        &mut self.state
    }

    fn on_event(&mut self, event: u8, _now: u32) -> RealTimeResult {
        self.seen.push(event);
        if event == 2 { RealTimeResult::Redraw } else { RealTimeResult::NoAction }
    }
}

#[test]
fn tick_fires_timed_then_key_events() {
    let mut app = Counter { state: RealTimeState::new(), seen: Vec::new() };
    app.state.schedule(0, 5, 1);
    app.state.on_input(OSInput::Button(ButtonInput::Exe), 2);
    assert!(!tick_real_time(&mut app, 10, None));
    assert!(tick_real_time(&mut app, 11, Some(OSInput::Button(ButtonInput::Exe))));
    assert_eq!(app.seen, vec![1, 2]);
}

#[test]
fn real_time_test_application_counts() {
    let mut app = RealTimeTestApplication::new(1000);
    assert_eq!(app.handle_event(RealTimeTestApplicationEvent::Start, 1000), RealTimeResult::Redraw);
    assert_eq!(app.handle_event(RealTimeTestApplicationEvent::Second, 2000), RealTimeResult::Redraw);
    app.handle_event(RealTimeTestApplicationEvent::Exe, 2100);
    assert_eq!((app.second_counter, app.exe_counter), (1, 1));
    assert_eq!(app.real_time_state.time_scheduled_events.last(), Some(&(3000, RealTimeTestApplicationEvent::Second)));
}

#[test]
fn sprite_cache_slots() {
    let mut cache = SpriteCache::new();
    cache.clear(3);
    assert!(cache.entry(2).is_blank());
    cache.set_entry(1, SpriteCacheEntry::ClippedOffTop);
    assert!(cache.entry_data(1).is_none());
    cache.set_entry(0, SpriteCacheEntry::Entry { data: SpriteCacheEntryData::Height { calculation: 4, result: 5 } });
    match cache.entry_data(0) {
        Some(SpriteCacheEntryData::Height { calculation, result }) => assert_eq!((*calculation, *result), (4, 5)),
        _ => panic!("expected a height"),
    }
}

#[test]
fn timer_measures_intervals() {
    let mut t = Timer::new("frame");
    t.start(100);
    t.stop(250);
    t.start(300);
    t.stop(310);
    assert_eq!(t.elapsed, 160);
    assert_eq!(t.new_subtimer("draw"), 0);
    assert_eq!(t.new_subtimer("input"), 1);
    assert_eq!(t.subtimers[1].name, "input");
}

#[test]
fn timer_text_indents_subtimers() {
    let mut t = Timer::new("frame");
    t.start(0);
    t.stop(1250);
    let draw = t.new_subtimer("draw");
    t.subtimers[draw].start(10);
    t.subtimers[draw].stop(40);
    let inner = t.subtimers[draw].new_subtimer("text");
    t.subtimers[draw].subtimers[inner].start(5);
    t.subtimers[draw].subtimers[inner].stop(12);
    t.new_subtimer("input");
    assert_eq!(t.to_string(), "frame: 1250\n  draw: 30\n    text: 7\n  input: 0\n");
    let mut indented = String::from(">");
    t.subtimers[1].fmt_with_indent_level(&mut indented, 3);
    assert_eq!(indented, ">      input: 0\n");
}

#[test]
fn tick_without_events_changes_nothing() {
    let mut app = Counter { state: RealTimeState::new(), seen: Vec::new() };
    app.state.schedule(0, 50, 1);
    app.state.on_input(OSInput::Button(ButtonInput::Exe), 2);
    assert!(!tick_real_time(&mut app, 10, Some(OSInput::Button(ButtonInput::MoveUp))));
    assert!(app.seen.is_empty());
    assert_eq!(app.state.time_scheduled_events.len(), 1);
}
