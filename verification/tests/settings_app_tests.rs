use delta_pico::input::{ButtonInput, OSInput};
use delta_pico::raw_storage::RawStorage;
use delta_pico::real_time::{redraw_requested, RealTimeResult};
use delta_pico::settings::{Settings, SettingsValues, FALSE_BYTE, TRUE_BYTE};
use delta_pico::settings_app::SettingsApplication;
use delta_pico::storage::MemoryStorage;
use delta_pico::timer::Timer;

#[test]
fn settings_menu_lists_switches() {
    let values = SettingsValues { show_heap_usage: true, show_frame_time: false, fire_button_press_only: true };
    let app = SettingsApplication::new(&values);
    let items = &app.menu.items;
    assert_eq!(items.len(), 3);
    assert_eq!((items[0].title.as_str(), items[0].icon.as_str(), items[0].toggle), ("Show frame time", "settings_show_frame_time", Some(false)));
    assert_eq!((items[1].title.as_str(), items[1].icon.as_str(), items[1].toggle), ("Show heap usage", "settings_show_memory_usage", Some(true)));
    assert_eq!((items[2].title.as_str(), items[2].toggle), ("Graphics benchmark", None));
    assert_eq!(app.menu.selected_index, 0);
    let info = SettingsApplication::info();
    assert_eq!((info.name.as_str(), info.visible), ("Settings", false));
}

#[test]
fn settings_switches_flip_and_save() {
    let mut dev = MemoryStorage::new(2048);
    let mut settings = Settings::new(RawStorage { start_address: 0, length: 1028 });
    let mut app = SettingsApplication::new(&settings.values);
    assert!(!app.handle_input(OSInput::Button(ButtonInput::MoveDown)));
    assert_eq!(app.menu.selected_index, 1);
    assert!(app.handle_input(OSInput::Button(ButtonInput::Exe)));
    assert!(!app.change_selected_setting(&mut settings, &mut dev));
    assert!(settings.values.show_heap_usage);
    assert_eq!(app.menu.items[1].toggle, Some(true));
    assert_eq!((dev.bytes[1], dev.bytes[2]), (TRUE_BYTE, FALSE_BYTE));
    app.handle_input(OSInput::Button(ButtonInput::MoveUp));
    assert!(!app.change_selected_setting(&mut settings, &mut dev));
    assert!(settings.values.show_frame_time);
    assert_eq!(dev.bytes[2], TRUE_BYTE);
    // The benchmark entry changes nothing and asks for the benchmark.
    app.handle_input(OSInput::Button(ButtonInput::MoveUp));
    assert_eq!(app.menu.selected_index, 2);
    let before = dev.bytes.clone();
    assert!(app.change_selected_setting(&mut settings, &mut dev));
    assert_eq!(dev.bytes, before);
}

#[test]
fn benchmark_report_lists_timers() {
    let mut timers = Vec::new();
    for (name, us) in [("Fill", 100u64), ("Rectangles", 20), ("Text", 3), ("Draw", 4000)] {
        let mut t = Timer::new(name);
        t.start(0);
        t.stop(us);
        timers.push(t);
    }
    let report = SettingsApplication::benchmark_report(&timers[0], &timers[1], &timers[2], &timers[3]);
    assert_eq!(report, "Total: 4123\n\nFill: 100\nRectangles: 20\nText: 3\nDraw: 4000\n\n(Lower is faster)");
}

#[test]
fn redraw_when_any_handler_asks() {
    assert!(!redraw_requested(&vec![]));
    assert!(!redraw_requested(&vec![RealTimeResult::NoAction, RealTimeResult::NoAction]));
    assert!(redraw_requested(&vec![RealTimeResult::NoAction, RealTimeResult::Redraw]));
}
