use delta_pico::apps::{AboutApplication, StorageApplication, T9Application};
use delta_pico::catalog::{Catalog, CatalogItem};
use delta_pico::context_menu::{ContextMenu, ContextMenuItem};
use delta_pico::decimal::decimal_string;
use delta_pico::display::Colour;
use delta_pico::font::{AsciiFontGlyph, TableFont};
use delta_pico::graphics::Sprite;
use delta_pico::input::{ButtonInput, OSInput};
use delta_pico::menu::{OptionMenu, OptionMenuStep};
use delta_pico::numbers_game::{NumbersGame, Tile};
use delta_pico::os::OperatingSystem;
use delta_pico::tetris::{TetrisApplication, Tile as Cell};

/// A font where every printable character is a fully opaque 3 by 5 block.
fn block_font() -> TableFont {
    let mut glyphs = Vec::new();
    for b in 0..=255u16 {
        glyphs.push(if (33..=126).contains(&b) {
            Some(AsciiFontGlyph { width: 3, height: 5, data: vec![0xFF; 8] })
        } else {
            None
        });
    }
    TableFont { glyphs }
}

fn pixel(s: &Sprite, x: u16, y: u16) -> Colour {
    s.data[y as usize * s.width as usize + x as usize]
}

#[test]
fn decimal_strings() {
    assert_eq!(decimal_string(0), "0");
    assert_eq!(decimal_string(7), "7");
    assert_eq!(decimal_string(2048), "2048");
    assert_eq!(decimal_string(u64::MAX), "18446744073709551615");
}

#[test]
fn tetris_screen_shows_playfield_and_piece() {
    let game = TetrisApplication::new(0);
    let mut s = Sprite::new(240, 320);
    s.fill(Colour::white());
    game.draw(&mut s);
    // Blank cells are grey 20 by 20 squares.
    assert_eq!(pixel(&s, 0, 0), Colour::grey());
    assert_eq!(pixel(&s, 199, 319 - 20), Colour::grey());
    // The T piece starts at column 3: its top row covers only column 4.
    assert_eq!(pixel(&s, 60, 0), Colour::grey());
    assert_eq!(pixel(&s, 85, 5), Colour::orange());
    assert_eq!(pixel(&s, 65, 25), Colour::orange());
    assert_eq!(pixel(&s, 115, 25), Colour::orange());
    assert_eq!(pixel(&s, 125, 25), Colour::grey());
    // Right of the playfield the screen is black; its 16 rows fill the height.
    assert_eq!(pixel(&s, 230, 10), Colour::black());
    assert_eq!(pixel(&s, 10, 319), Colour::grey());
}

#[test]
fn tetris_screen_shows_settled_cells() {
    let mut game = TetrisApplication::new(0);
    game.tetromino = None;
    game.playfield[159] = Cell::Filled(Colour::red());
    let mut s = Sprite::new(240, 320);
    game.draw(&mut s);
    assert_eq!(pixel(&s, 185, 305), Colour::red());
    assert_eq!(pixel(&s, 85, 5), Colour::grey());
}

#[test]
fn numbers_screen_layout() {
    let font = block_font();
    let mut os = OperatingSystem::new(240, 320);
    let game = NumbersGame::new();
    game.draw(&mut os, &font);
    let s = &os.display_sprite;
    // The title bar is orange across the top.
    assert_eq!(pixel(s, 239, 0), Colour::orange());
    // Tiles are 47 pixels square, 10 apart, from (10, 50): blank ones grey, filled ones orange.
    assert_eq!(pixel(s, 10, 50), Colour::grey());
    assert_eq!(pixel(s, 56, 96), Colour::grey());
    assert_eq!(pixel(s, 57, 96), Colour::black());
    assert_eq!(pixel(s, 181, 50), Colour::orange());
    assert_eq!(pixel(s, 67, 164), Colour::orange());
    // A tile's text "  2  " is centred: the font has no space, so it is 3 pixels wide in a
    // 47-pixel tile and starts 22 pixels in, a third of the tile (15 pixels) down.
    assert_eq!(pixel(s, 181 + 22, 65), Colour::white());
    assert_eq!(pixel(s, 181 + 21, 65), Colour::orange());
    // The score line starts at (10, 285).
    assert_eq!(pixel(s, 10, 285), Colour::white());
    assert_eq!(pixel(s, 13, 285), Colour::black());
}

#[test]
fn numbers_screen_shows_restart_hint_when_over() {
    let font = block_font();
    let mut os = OperatingSystem::new(240, 320);
    let mut game = NumbersGame::new();
    game.game_over = true;
    game.score = 12;
    game.board[0][0] = Tile::Filled(1024);
    game.draw(&mut os, &font);
    let s = &os.display_sprite;
    // "12 | [EXE] Restart": 15 glyphs, each advancing the cursor 2 pixels; the last one
    // starts at x = 38.
    assert_eq!(pixel(s, 10, 285), Colour::white());
    assert_eq!(pixel(s, 40, 285), Colour::white());
    assert_eq!(pixel(s, 41, 285), Colour::black());
    assert_eq!(s.get_cursor(), (40, 285));
}

#[test]
fn catalog_dialog_layout() {
    let font = block_font();
    let mut os = OperatingSystem::new(240, 320);
    let items = ["a", "b", "c", "d"]
        .iter()
        .map(|n| CatalogItem::new(n.to_string(), format!("about {}", n), 0u8))
        .collect();
    let catalog = Catalog::new("Symbols".to_string(), items);
    catalog.draw(&mut os, &font);
    let s = &os.display_sprite;
    // The title bar is drawn as well.
    assert_eq!(pixel(s, 239, 0), Colour::orange());
    // The dialog is 200 by 250 from (20, 50), with a white border 199 wide.
    assert_eq!(pixel(s, 20, 50), Colour::white());
    assert_eq!(pixel(s, 218, 100), Colour::white());
    assert_eq!(pixel(s, 219, 100), Colour::grey());
    assert_eq!(pixel(s, 19, 100), Colour::black());
    // The hovered first entry is blue inside a black border; its name starts 5 pixels in.
    assert_eq!(pixel(s, 22, 52), Colour::blue());
    assert_eq!(pixel(s, 85, 60), Colour::black());
    assert_eq!(pixel(s, 25, 55), Colour::white());
    // The second entry starts a pixel left of the first's end and is not lit.
    assert_eq!(pixel(s, 87, 52), Colour::grey());
    // The fourth entry starts the second row, 29 pixels down.
    assert_eq!(pixel(s, 22, 79), Colour::black());
    assert_eq!(pixel(s, 22, 81), Colour::grey());
    // The description box is 70 pixels high at the bottom, its text 5 pixels in.
    assert_eq!(pixel(s, 100, 230), Colour::white());
    assert_eq!(pixel(s, 100, 250), Colour::grey());
    assert_eq!(pixel(s, 25, 235), Colour::white());
}

#[test]
fn context_menu_rises_from_the_bottom() {
    let font = block_font();
    let mut s = Sprite::new(240, 320);
    let items = vec![
        ContextMenuItem::new_common("Copy".to_string(), 1u8),
        ContextMenuItem::Divider,
        ContextMenuItem::new_common("Paste".to_string(), 2u8),
    ];
    let menu = ContextMenu::new(items, true);
    menu.draw(&mut s, &font);
    // Entries 30 + 8 + 30 pixels high: the panel's top is 20 + 68 pixels above the bottom.
    assert_eq!(pixel(&s, 100, 231), Colour::black());
    assert_eq!(pixel(&s, 100, 232), Colour::white());
    assert_eq!(pixel(&s, 0, 300), Colour::white());
    assert_eq!(pixel(&s, 239, 300), Colour::white());
    assert_eq!(pixel(&s, 1, 233), Colour::grey());
    // The hovered first entry is on a blue bar from (5, 242), its text at (10, 246).
    assert_eq!(pixel(&s, 5, 242), Colour::blue());
    assert_eq!(pixel(&s, 234, 271), Colour::blue());
    assert_eq!(pixel(&s, 10, 246), Colour::white());
    // The divider is a white line 4 pixels into its 8, from x = 5 up to 235.
    assert_eq!(pixel(&s, 5, 276), Colour::white());
    assert_eq!(pixel(&s, 234, 276), Colour::white());
    assert_eq!(pixel(&s, 235, 276), Colour::grey());
    // The last entry is not lit.
    assert_eq!(pixel(&s, 10, 284), Colour::white());
    assert_eq!(pixel(&s, 20, 290), Colour::grey());
}

#[test]
fn debug_panels_show_frame_time_and_heap() {
    let font = block_font();
    let mut os = OperatingSystem::new(240, 320);
    os.display_sprite.fill(Colour::white());
    os.last_input_millis = 100;
    // Both panels off: nothing changes.
    os.draw(&font, 1337, (12345, 264000));
    assert!(os.display_sprite.data.iter().all(|c| *c == Colour::white()));

    os.filesystem.settings.values.show_frame_time = true;
    os.filesystem.settings.values.show_heap_usage = true;
    os.draw(&font, 1337, (12345, 264000));
    let s = &os.display_sprite;
    // Black boxes 80 by 15 at the top right, with "1237ms" and "12/264kB" in them.
    assert_eq!(pixel(s, 159, 0), Colour::white());
    assert_eq!(pixel(s, 239, 14), Colour::black());
    assert_eq!(pixel(s, 239, 29), Colour::black());
    assert_eq!(pixel(s, 239, 30), Colour::white());
    assert_eq!(pixel(s, 160, 0), Colour::white());
    assert_eq!(pixel(s, 160, 15), Colour::white());
    // Six glyphs of "1237ms" end at x = 160 + 5 * 2 + 2; eight of "12/264kB" at 160 + 7 * 2 + 2.
    assert_eq!(pixel(s, 172, 2), Colour::white());
    assert_eq!(pixel(s, 173, 2), Colour::black());
    assert_eq!(pixel(s, 176, 17), Colour::white());
    assert_eq!(pixel(s, 177, 17), Colour::black());
}

#[test]
fn text_dialog_is_centred() {
    let font = block_font();
    let mut os = OperatingSystem::new(240, 320);
    os.ui_text_dialog(&font, "Hello there");
    let s = &os.display_sprite;
    // One line 5 pixels high: the box is 25 high, from y = (320 - 5) / 2 = 157, 180 wide from x = 30.
    assert_eq!(pixel(s, 100, 156), Colour::black());
    assert_eq!(pixel(s, 100, 157), Colour::white());
    assert_eq!(pixel(s, 100, 181), Colour::white());
    assert_eq!(pixel(s, 100, 182), Colour::black());
    assert_eq!(pixel(s, 209, 170), Colour::white());
    assert_eq!(pixel(s, 210, 170), Colour::black());
    assert_eq!(pixel(s, 35, 160), Colour::grey());
    // The text starts 10 pixels in and 10 down.
    assert_eq!(pixel(s, 40, 167), Colour::white());
    assert_eq!(pixel(s, 39, 167), Colour::grey());
}

#[test]
fn option_menu_layout() {
    let font = block_font();
    let mut s = Sprite::new(240, 320);
    let options = vec!["Jump".to_string(), "Clear memory".to_string(), "Save USB mass storage".to_string()];
    let mut menu = OptionMenu::new(options.len(), true);
    assert_eq!(menu.handle_input(Some(OSInput::Button(ButtonInput::MoveDown))), OptionMenuStep::Open);
    menu.draw(&mut s, &font, &options);
    // Three options of 30 pixels: the panel starts 100 pixels above the bottom.
    assert_eq!(pixel(&s, 100, 219), Colour::black());
    assert_eq!(pixel(&s, 100, 220), Colour::white());
    assert_eq!(pixel(&s, 100, 225), Colour::grey());
    // Options 30 apart from y = 230, their text 10 in and 4 down; the second is on a blue bar.
    assert_eq!(pixel(&s, 10, 234), Colour::white());
    assert_eq!(pixel(&s, 5, 260), Colour::blue());
    assert_eq!(pixel(&s, 234, 284), Colour::blue());
    assert_eq!(pixel(&s, 235, 284), Colour::grey());
    assert_eq!(pixel(&s, 10, 264), Colour::white());
    assert_eq!(pixel(&s, 10, 294), Colour::white());
}

/// A font whose printable characters are each a 1 by 1 opaque dot (the space a clear one). A
/// glyph moves the cursor one pixel short of its width, so with this font only line breaks move
/// it.
fn dot_font() -> TableFont {
    let mut glyphs = Vec::new();
    for b in 0..=255u16 {
        glyphs.push(if (33..=126).contains(&b) {
            Some(AsciiFontGlyph { width: 1, height: 1, data: vec![0xF0] })
        } else if b == 32 {
            Some(AsciiFontGlyph { width: 1, height: 1, data: vec![0x00] })
        } else {
            None
        });
    }
    TableFont { glyphs }
}

#[test]
fn storage_viewer_screen() {
    let font = block_font();
    let mut os = OperatingSystem::new(240, 320);
    let mut viewer = StorageApplication::new();
    viewer.jump_to(64);
    let bytes: Vec<u8> = (0..64).map(|i| if i == 0 { 0xAB } else { i as u8 }).collect();
    viewer.draw(&mut os, &font, &bytes);
    let s = &os.display_sprite;
    assert_eq!(pixel(s, 239, 0), Colour::orange());
    // "Address range 64-127" from (0, 50).
    assert_eq!(pixel(s, 0, 50), Colour::white());
    // Then three line breaks (5 pixels each) and the bytes from x = 0.
    assert_eq!(pixel(s, 0, 65), Colour::white());
}

#[test]
fn storage_viewer_writes_bytes_in_hex() {
    // With the one-pixel font only line breaks move the cursor: each byte is "xx ", eight to a
    // line, and each line of bytes ends in a line break.
    let font = dot_font();
    let mut os = OperatingSystem::new(240, 320);
    let viewer = StorageApplication::new();
    let bytes = vec![0u8; 64];
    viewer.draw(&mut os, &font, &bytes);
    // "Address range 0-63\n\n\n" puts the bytes on the fourth line (y = 53); eight lines of
    // bytes end with a line break, leaving the cursor at the start of line 12.
    assert_eq!(os.display_sprite.get_cursor(), (0, 50 + 11));
}

#[test]
fn t9_screen_shows_typed_text() {
    let font = block_font();
    let mut os = OperatingSystem::new(240, 320);
    let mut t9 = T9Application::new();
    t9.handle_input(delta_pico::input::ButtonInput::Digit(2), 1000);
    t9.draw(&mut os, &font);
    let s = &os.display_sprite;
    assert_eq!(pixel(s, 239, 0), Colour::orange());
    assert_eq!(pixel(s, 10, 50), Colour::white());
    assert_eq!(s.get_cursor(), (12, 50));
}

#[test]
fn about_screen_lines() {
    let font = dot_font();
    let mut os = OperatingSystem::new(240, 320);
    AboutApplication::new().draw(&mut os, &font, "0.1.0", "0.2.0", "rev 3");
    let s = &os.display_sprite;
    for (x, y) in [(5, 40), (5, 60), (5, 100), (5, 140), (5, 160), (70, 250), (35, 270), (110, 290)] {
        assert_eq!(pixel(s, x, y), Colour::white());
    }
    assert_eq!(pixel(s, 6, 40), Colour::black());
    // The last text is ":)" at (110, 290).
    assert_eq!(s.get_cursor(), (110, 290));
}

#[test]
fn expression_dialog_grows_but_never_shrinks() {
    let font = block_font();
    let mut os = OperatingSystem::new(240, 320);
    let mut expression = Sprite::new(20, 10);
    expression.fill(Colour(0x49));
    // A 10 pixel expression: the dialog starts at 320 - 10 - 50 = 260.
    assert_eq!(os.ui_draw_expression_dialog(&font, "Ab", &expression, 0), 10);
    let s = &os.display_sprite;
    assert_eq!(pixel(s, 100, 259), Colour::black());
    assert_eq!(pixel(s, 100, 260), Colour::white());
    assert_eq!(pixel(s, 0, 300), Colour::white());
    assert_eq!(pixel(s, 239, 300), Colour::white());
    assert_eq!(pixel(s, 100, 290), Colour::grey());
    // The title 10 pixels in and down, the expression 10 in and 40 down.
    assert_eq!(pixel(s, 10, 270), Colour::white());
    assert_eq!(pixel(s, 13, 270), Colour::white());
    assert_eq!(pixel(s, 16, 270), Colour::grey());
    assert_eq!(pixel(s, 10, 300), Colour(0x49));
    assert_eq!(pixel(s, 29, 309), Colour(0x49));
    assert_eq!(pixel(s, 30, 300), Colour::grey());
    // Once the expression was 15 high, a shorter one keeps the taller dialog.
    let mut again = OperatingSystem::new(240, 320);
    assert_eq!(again.ui_draw_expression_dialog(&font, "Ab", &expression, 15), 15);
    assert_eq!(pixel(&again.display_sprite, 100, 255), Colour::white());
    assert_eq!(pixel(&again.display_sprite, 10, 295), Colour(0x49));
}

#[test]
fn usb_saving_screen() {
    let font = block_font();
    let mut os = OperatingSystem::new(240, 320);
    os.display_sprite.fill(Colour::white());
    os.save_usb_mass_storage(&font);
    let s = &os.display_sprite;
    // The title bar is orange, the rest black.
    assert_eq!(pixel(s, 200, 10), Colour::orange());
    assert_eq!(pixel(s, 200, 200), Colour::black());
    // "Saving..." is 9 glyphs of width 3, 27 pixels: it starts at (240 - 27) / 2 = 106, and each
    // glyph overlaps the next by one pixel, so it ends at 124.
    assert_eq!(pixel(s, 105, 100), Colour::black());
    assert_eq!(pixel(s, 106, 100), Colour::white());
    assert_eq!(pixel(s, 124, 104), Colour::white());
    assert_eq!(pixel(s, 125, 100), Colour::black());
}

#[test]
fn benchmark_results_screen() {
    let font = block_font();
    let mut os = OperatingSystem::new(240, 320);
    os.display_sprite.fill(Colour::white());
    delta_pico::settings_app::SettingsApplication::draw_benchmark_results(&mut os, &font, "Ab");
    let s = &os.display_sprite;
    assert_eq!(pixel(s, 200, 10), Colour::orange());
    assert_eq!(pixel(s, 200, 200), Colour::black());
    // The report from (0, 40).
    assert_eq!(pixel(s, 0, 40), Colour::white());
    assert_eq!(pixel(s, 5, 40), Colour::black());
    // "[EXE]: Close" has 11 glyphs of width 3: 33 pixels, centred from (240 - 33) / 2 = 103.
    assert_eq!(pixel(s, 102, 290), Colour::black());
    assert_eq!(pixel(s, 103, 290), Colour::white());
}
