use delta_pico::apps::{AboutApplication, MemoryApplication, StorageApplication, T9Application};
use delta_pico::bitmap::Bitmaps;
use delta_pico::display::Colour;
use delta_pico::font::{AsciiFontGlyph, TableFont};
use delta_pico::graphics::Sprite;
use delta_pico::input::ButtonInput;
use delta_pico::menu::{MenuApplication, UIFullPageMenu, UIFullPageMenuItem};
use delta_pico::numbers_game::NumbersGame;
use delta_pico::os::{ApplicationInfo, ApplicationList, OperatingSystem};
use delta_pico::real_time::RealTimeTestApplication;
use delta_pico::tetris::TetrisApplication;

/// A font where every printable character is a fully opaque 3 by 5 block.
fn block_font() -> TableFont {
    let mut glyphs = Vec::new();
    for b in 0..=255u16 {
        glyphs.push(if (33..=126).contains(&b) {
            Some(AsciiFontGlyph { width: 3, height: 5, data: vec![0xFF; 8] })
        } else {
            None
        });
    }
    TableFont { glyphs }
}

/// A bitmap of one colour, encoded as one run per column.
fn solid(width: u16, height: u16, colour: u16) -> Vec<u16> {
    let mut data = vec![width, height, 0x0001, 0xFFFF];
    for _ in 0..width {
        data.extend_from_slice(&[0xFFFF, height, colour]);
    }
    data
}

fn bitmaps() -> Bitmaps {
    Bitmaps {
        entries: vec![
            ("a_icon".to_string(), solid(48, 48, 0x07FF)),
            ("b_icon".to_string(), solid(48, 48, 0xF800)),
            ("toggle_on".to_string(), solid(30, 16, 0x07E0)),
            ("toggle_off".to_string(), solid(30, 16, 0x001F)),
            ("a_icon".to_string(), solid(2, 2, 0x0000)),
        ],
    }
}

fn item(title: &str, icon: &str, toggle: Option<bool>) -> UIFullPageMenuItem {
    UIFullPageMenuItem { title: title.to_string(), icon: icon.to_string(), toggle }
}

fn pixel(s: &Sprite, x: u16, y: u16) -> Colour {
    s.data[y as usize * s.width as usize + x as usize]
}

#[test]
fn bitmap_lookup_takes_the_first_match() {
    let b = bitmaps();
    assert_eq!(b.lookup(&"a_icon".to_string()).map(|v| v.len()), Some(4 + 48 * 3));
    assert_eq!(b.lookup(&"toggle_off".to_string()).map(|v| v[0]), Some(30));
    assert!(b.lookup(&"missing".to_string()).is_none());
}

#[test]
fn empty_menu_says_so() {
    let font = block_font();
    let mut s = Sprite::new(240, 320);
    UIFullPageMenu::new(vec![]).draw(&mut s, &font, &bitmaps());
    assert_eq!(pixel(&s, 75, 40), Colour::white());
    // "No items": seven glyphs (the font has no space), each moving the cursor 2 pixels.
    assert_eq!(s.get_cursor(), (89, 40));
}

#[test]
fn menu_entries_bar_icon_and_scroll_bar() {
    let font = block_font();
    let b = bitmaps();
    let mut s = Sprite::new(240, 320);
    let menu = UIFullPageMenu::new(vec![item("One", "a_icon", None), item("Two", "b_icon", Some(true))]);
    menu.draw(&mut s, &font, &b);
    // The selected first entry sits on a blue bar 222 pixels wide from (5, 40).
    assert_eq!(pixel(&s, 5, 40), Colour::blue());
    assert_eq!(pixel(&s, 226, 93), Colour::blue());
    assert_eq!(pixel(&s, 227, 93), Colour::black());
    // Its icon is drawn at (7, 42), its title at (65, 58).
    assert_eq!(pixel(&s, 7, 42), Colour::from_rgb565(0x07FF));
    assert_eq!(pixel(&s, 54, 89), Colour::from_rgb565(0x07FF));
    assert_eq!(pixel(&s, 65, 58), Colour::white());
    // The second entry, 54 pixels lower, has no bar, its own icon, and a toggle at (195, 114).
    assert_eq!(pixel(&s, 5, 94), Colour::black());
    assert_eq!(pixel(&s, 7, 96), Colour::from_rgb565(0xF800));
    assert_eq!(pixel(&s, 195, 114), Colour::from_rgb565(0x07E0));
    assert_eq!(pixel(&s, 65, 112), Colour::white());
    // Two entries share a 270-pixel column: the bar covers all of it, 4 pixels wide at x = 232.
    assert_eq!(pixel(&s, 232, 40), Colour::dark_blue());
    assert_eq!(pixel(&s, 235, 309), Colour::dark_blue());
    assert_eq!(pixel(&s, 232, 310), Colour::black());
}

#[test]
fn long_titles_take_two_lines() {
    let font = block_font();
    let mut s = Sprite::new(240, 320);
    // Each word is 4 glyphs wide (12 pixels) and spaces take no room: ten words fill the
    // 120 pixels of a line, so twelve take two lines.
    let title = "abcd abcd abcd abcd abcd abcd abcd abcd abcd abcd abcd abcd";
    UIFullPageMenu::new(vec![item(title, "a_icon", None)]).draw(&mut s, &font, &bitmaps());
    assert_eq!(pixel(&s, 65, 47), Colour::white());
    assert_eq!(pixel(&s, 65, 68), Colour::white());
    assert_eq!(pixel(&s, 65, 58), Colour::blue());
}

fn app_list(names: &[&str]) -> ApplicationList {
    let mut list = ApplicationList::new();
    for n in names {
        list.add(ApplicationInfo { name: n.to_string(), visible: true });
    }
    list
}

#[test]
fn launcher_lists_applications_with_icons() {
    let mut launcher = MenuApplication::new();
    assert!(launcher.refresh_items(&app_list(&["Numbers", "2048", "Raw Storage"])));
    let items = &launcher.menu.items;
    assert_eq!(items.len(), 3);
    assert_eq!((items[0].title.as_str(), items[0].icon.as_str()), ("Numbers", "numbers_icon"));
    assert_eq!(items[1].icon, "_2048_icon");
    assert_eq!(items[2].icon, "raw_storage_icon");
    assert!(items.iter().all(|i| i.toggle.is_none()));
}

#[test]
fn launcher_refuses_an_empty_name() {
    let mut launcher = MenuApplication::new();
    assert!(launcher.refresh_items(&app_list(&["Numbers"])));
    assert!(!launcher.refresh_items(&app_list(&["Numbers", ""])));
    assert_eq!(launcher.menu.items.len(), 1);
}

#[test]
fn launcher_keys() {
    let mut launcher = MenuApplication::new();
    launcher.refresh_items(&app_list(&["A", "B", "C"]));
    assert_eq!(launcher.handle_input(ButtonInput::MoveDown), None);
    assert_eq!(launcher.handle_input(ButtonInput::MoveDown), None);
    assert_eq!(launcher.handle_input(ButtonInput::Exe), Some(2));
    assert_eq!(launcher.handle_input(ButtonInput::MoveDown), None);
    assert_eq!(launcher.menu.selected_index, 0);
    assert_eq!(launcher.handle_input(ButtonInput::MoveUp), None);
    assert_eq!(launcher.handle_input(ButtonInput::Exe), Some(2));
    assert_eq!(launcher.handle_input(ButtonInput::Digit(3)), None);
}

#[test]
fn launcher_screen_has_title_and_menu() {
    let font = block_font();
    let mut launcher = MenuApplication::new();
    launcher.refresh_items(&app_list(&["A", "B"]));
    let b = Bitmaps { entries: vec![("a_icon".to_string(), solid(48, 48, 0x07FF)), ("b_icon".to_string(), solid(48, 48, 0xF800))] };
    let mut os = OperatingSystem::new(240, 320);
    launcher.draw(&mut os, &font, &b);
    let s = &os.display_sprite;
    assert_eq!(pixel(s, 239, 0), Colour::orange());
    assert_eq!(pixel(s, 5, 40), Colour::blue());
    assert_eq!(pixel(s, 7, 96), Colour::from_rgb565(0xF800));
    assert_eq!(pixel(s, 239, 319), Colour::black());
}

#[test]
fn applications_describe_themselves() {
    let infos = [
        NumbersGame::info(),
        TetrisApplication::info(),
        T9Application::info(),
        StorageApplication::info(),
        MemoryApplication::info(),
        AboutApplication::info(),
        MenuApplication::info(),
        RealTimeTestApplication::info(),
    ];
    let names: Vec<&str> = infos.iter().map(|i| i.name.as_str()).collect();
    assert_eq!(names, ["2048", "Tetris", "T9 Test", "Raw Storage", "Memory", "About", "Menu", "Real Time Test"]);
    let shown: Vec<bool> = infos.iter().map(|i| i.visible).collect();
    assert_eq!(shown, [true, true, true, true, true, true, false, false]);

    let mut list = ApplicationList::new();
    for info in infos {
        list.add(info);
    }
    let mut launcher = MenuApplication::new();
    assert!(launcher.refresh_items(&list));
    let icons: Vec<&str> = launcher.menu.items.iter().map(|i| i.icon.as_str()).collect();
    assert_eq!(icons[0], "_2048_icon");
    assert_eq!(icons[3], "raw_storage_icon");
    assert_eq!(icons[7], "real_time_test_icon");
}
