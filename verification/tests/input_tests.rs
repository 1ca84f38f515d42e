use delta_pico::input::{ButtonEvent, ButtonInput, OSInput};
use delta_pico::multi_tap::MultiTapState;
use delta_pico::os::{ApplicationInfo, ApplicationList, ApplicationToTick, OperatingSystem};

fn digit(d: u8) -> OSInput {
    OSInput::Button(ButtonInput::Digit(d))
}

#[test]
fn as_digit_of_keys() {
    assert_eq!(ButtonInput::Digit(4).as_digit(), Some(4));
    assert_eq!(ButtonInput::Exe.as_digit(), None);
}

#[test]
fn multi_tap_cycles_letters() {
    let mut m = MultiTapState::new();
    assert_eq!(m.input(digit(8), 1000), Some(OSInput::TextMultiTapNew('a')));
    assert_eq!(m.input(digit(8), 1100), Some(OSInput::TextMultiTapCycle('b')));
    assert_eq!(m.input(digit(8), 1200), Some(OSInput::TextMultiTapCycle('c')));
    assert_eq!(m.input(digit(8), 1300), Some(OSInput::TextMultiTapCycle('a')));
    // A different key starts a new letter.
    assert_eq!(m.input(digit(1), 1400), Some(OSInput::TextMultiTapNew('p')));
    // After the cooldown, the same key starts a new letter too.
    assert_eq!(m.input(digit(1), 3000), Some(OSInput::TextMultiTapNew('p')));
}

#[test]
fn multi_tap_shift_and_dead_keys() {
    let mut m = MultiTapState::new();
    assert_eq!(m.input(OSInput::ShiftedButton(ButtonInput::Digit(3)), 10), Some(OSInput::TextMultiTapNew('W')));
    assert_eq!(m.input(digit(3), 20), Some(OSInput::TextMultiTapCycle('X')));
    assert_eq!(m.input(digit(0), 30), None);
    assert_eq!(m.input(digit(7), 40), None);
    assert_eq!(m.input(OSInput::Button(ButtonInput::Exe), 50), None);
    m.drop_keypress();
    assert_eq!(m.input(digit(3), 60), Some(OSInput::TextMultiTapNew('w')));
}

#[test]
fn multi_tap_cycle_of_four_letters_returns_to_the_first() {
    let mut m = MultiTapState::new();
    let mut got = Vec::new();
    for t in 0..5 {
        got.push(m.input(digit(1), t * 100));
    }
    assert_eq!(got[4], Some(OSInput::TextMultiTapCycle('p')));
}

fn os() -> OperatingSystem {
    let mut os = OperatingSystem::new(240, 320);
    os.application_list.add(ApplicationInfo { name: "Calculator".to_string(), visible: true });
    os.application_list.add(ApplicationInfo { name: "Numbers".to_string(), visible: true });
    os
}

#[test]
fn os_starts_in_the_menu() {
    let os = os();
    assert!(os.showing_menu);
    assert_eq!(os.application_to_tick(), ApplicationToTick::Menu);
    assert_eq!(os.display_sprite.data.len(), 240 * 320);
}

#[test]
fn launching_and_menu_toggling() {
    let mut os = os();
    assert_eq!(os.launch_application_by_name(&"Numbers".to_string()), 1);
    assert_eq!(os.application_to_tick(), ApplicationToTick::Active(1));
    os.toggle_menu();
    assert_eq!(os.application_to_tick(), ApplicationToTick::Menu);
    os.toggle_menu();
    assert_eq!(os.restart_application(), 1);
    os.launch_application(0);
    assert_eq!(os.application_to_tick(), ApplicationToTick::Active(0));
}

#[test]
fn shift_and_text_modes() {
    let mut os = os();
    assert_eq!(os.button_input_to_os_input(ButtonInput::Shift, 0), None);
    assert_eq!(os.button_input_to_os_input(ButtonInput::Add, 0), Some(OSInput::ShiftedButton(ButtonInput::Add)));
    assert_eq!(os.button_input_to_os_input(ButtonInput::Add, 0), Some(OSInput::Button(ButtonInput::Add)));
    assert_eq!(os.button_input_to_os_input(ButtonInput::Menu, 0), Some(OSInput::Button(ButtonInput::Menu)));
    assert!(!os.showing_menu);
    assert_eq!(os.button_input_to_os_input(ButtonInput::Text, 0), None);
    assert_eq!(os.button_input_to_os_input(ButtonInput::Digit(9), 10), Some(OSInput::TextMultiTapNew('d')));
    assert_eq!(os.button_input_to_os_input(ButtonInput::Digit(9), 20), Some(OSInput::TextMultiTapCycle('e')));
    assert_eq!(os.button_input_to_os_input(ButtonInput::MoveLeft, 30), Some(OSInput::Button(ButtonInput::MoveLeft)));
    assert_eq!(os.button_input_to_os_input(ButtonInput::Digit(9), 40), Some(OSInput::TextMultiTapNew('d')));
    assert_eq!(os.button_input_to_os_input(ButtonInput::NoKey, 50), None);
}

#[test]
fn virtual_presses_are_interspersed_with_pauses() {
    let mut os = os();
    assert_eq!(os.next_virtual_input(), None);
    os.queue_virtual_presses(&[OSInput::Button(ButtonInput::Exe), digit(2)]);
    assert_eq!(os.next_virtual_input(), Some(Some(OSInput::Button(ButtonInput::Exe))));
    assert_eq!(os.next_virtual_input(), Some(None));
    assert_eq!(os.next_virtual_input(), Some(Some(digit(2))));
    assert_eq!(os.next_virtual_input(), Some(None));
    assert_eq!(os.next_virtual_input(), None);
}

#[test]
fn icon_names() {
    let info = ApplicationInfo { name: "Real Time Test".to_string(), visible: false };
    assert_eq!(info.icon_name(), Some("real_time_test_icon".to_string()));
    let digit_first = ApplicationInfo { name: "2048 Game".to_string(), visible: true };
    assert_eq!(digit_first.icon_name(), Some("_2048_game_icon".to_string()));
    let empty = ApplicationInfo { name: String::new(), visible: true };
    assert_eq!(empty.icon_name(), None);
    assert_eq!(ApplicationList::new().applications.len(), 0);
}

#[test]
fn key_events_filtered_for_applications() {
    let mut os = OperatingSystem::new(240, 320);
    assert_eq!(os.press_func_wrapper(None), None);
    assert_eq!(os.press_func_wrapper(Some(ButtonEvent::Release(ButtonInput::Exe))), None);
    assert_eq!(os.press_func_wrapper(Some(ButtonEvent::Press(ButtonInput::Exe))), Some(ButtonInput::Exe));
    assert!(os.showing_menu);
    assert_eq!(os.press_func_wrapper(Some(ButtonEvent::Press(ButtonInput::Menu))), None);
    assert!(!os.showing_menu);
    assert_eq!(os.press_func_wrapper(Some(ButtonEvent::Press(ButtonInput::Text))), None);
    assert!(os.text_mode);
    assert_eq!(os.press_func_wrapper(Some(ButtonEvent::Press(ButtonInput::Text))), None);
    assert!(!os.text_mode);
    assert_eq!(os.press_func_wrapper(Some(ButtonEvent::Press(ButtonInput::Digit(3)))), Some(ButtonInput::Digit(3)));
}

#[test]
fn dialog_takes_queued_inputs_up_to_exe() {
    let mut os = OperatingSystem::new(240, 320);
    os.queue_virtual_presses(&[digit(1), OSInput::Button(ButtonInput::Exe), digit(2)]);
    // The queue is 1, pause, EXE, pause, 2, pause: the dialog takes the first three.
    assert!(os.wait_for_exe_in_queue());
    assert_eq!(os.virtual_input_queue, vec![None, Some(digit(2)), None]);
    // With no EXE queued, it empties the queue and leaves the wait to the keys.
    assert!(!os.wait_for_exe_in_queue());
    assert!(os.virtual_input_queue.is_empty());
    assert!(os.showing_menu);
}
