use delta_pico::calculator::Selection;
use delta_pico::catalog::{Catalog, CatalogItem};
use delta_pico::context_menu::{ContextMenu, ContextMenuItem};
use delta_pico::input::{ButtonInput, OSInput};
use delta_pico::menu::{UIFullPageMenu, UIFullPageMenuItem, UIMenu};
use delta_pico::selector::{SelectorMenu, SelectorMenuItem, SelectorMenuTickResult};

fn items(n: usize) -> Vec<UIFullPageMenuItem> {
    (0..n).map(|i| UIFullPageMenuItem { title: format!("Item {i}"), icon: "icon".to_string(), toggle: None }).collect()
}

#[test]
fn full_page_menu_wraps_and_scrolls() {
    let mut m = UIFullPageMenu::new(items(7));
    m.move_up();
    assert_eq!((m.selected_index, m.page_scroll_offset), (6, 2));
    m.move_down();
    assert_eq!((m.selected_index, m.page_scroll_offset), (0, 0));
    for _ in 0..5 {
        m.move_down();
    }
    assert_eq!((m.selected_index, m.page_scroll_offset), (5, 1));
    m.move_up();
    m.move_up();
    m.move_up();
    m.move_up();
    m.move_up();
    assert_eq!((m.selected_index, m.page_scroll_offset), (0, 0));
}

#[test]
fn short_menu_never_scrolls() {
    let mut m: UIMenu = UIMenu::new(items(3));
    m.move_up();
    assert_eq!((m.selected_index, m.page_scroll_offset), (2, 0));
}

#[test]
fn move_down_then_up_returns() {
    let mut m = UIFullPageMenu::new(items(6));
    for _ in 0..6 {
        let before = m.selected_index;
        m.move_down();
        m.move_up();
        assert_eq!(m.selected_index, before);
        m.move_down();
    }
}

fn context_items() -> Vec<ContextMenuItem<u32>> {
    vec![
        ContextMenuItem::new_common("One".to_string(), 1),
        ContextMenuItem::Divider,
        ContextMenuItem::new_common("Two".to_string(), 2),
        ContextMenuItem::Divider,
    ]
}

#[test]
fn context_menu_skips_dividers() {
    let mut m = ContextMenu::new(context_items(), true);
    assert_eq!(m.handle_input(Some(OSInput::Button(ButtonInput::MoveDown))), SelectorMenuTickResult::Normal);
    assert_eq!(m.selected_index(), 2);
    m.handle_input(Some(OSInput::Button(ButtonInput::MoveDown)));
    assert_eq!(m.selected_index(), 0);
    m.handle_input(Some(OSInput::Button(ButtonInput::MoveUp)));
    assert_eq!(m.selected_index(), 2);
    assert_eq!(m.handle_input(Some(OSInput::Button(ButtonInput::Exe))), SelectorMenuTickResult::Selected);
    assert_eq!(*m.selected().inner(), 2);
    assert_eq!(m.into_selected().into_inner(), 2);
}

#[test]
fn context_menu_closing() {
    let mut closeable = ContextMenu::new(context_items(), true);
    assert_eq!(closeable.handle_input(Some(OSInput::Button(ButtonInput::List))), SelectorMenuTickResult::Cancelled);
    let mut fixed = ContextMenu::new(context_items(), false);
    assert_eq!(fixed.handle_input(Some(OSInput::Button(ButtonInput::List))), SelectorMenuTickResult::Normal);
    assert_eq!(fixed.handle_input(None), SelectorMenuTickResult::Normal);
}

#[test]
fn context_menu_item_heights() {
    let m = ContextMenu::new(context_items(), true);
    assert_eq!(m.total_height(), 30 + 8 + 30 + 8);
    assert!(!ContextMenuItem::<u32>::Divider.selectable());
    assert_eq!(ContextMenuItem::<u32>::Divider.height(), 8);
}

fn catalog(n: usize) -> Catalog<usize> {
    let items = (0..n).map(|i| CatalogItem::new(format!("{i}"), "desc".to_string(), i)).collect();
    Catalog::new("Catalog".to_string(), items)
}

#[test]
fn catalog_moves_within_the_grid() {
    let mut c = catalog(8);
    let key = |k| Some(OSInput::Button(k));
    c.handle_input(key(ButtonInput::MoveRight));
    c.handle_input(key(ButtonInput::MoveRight));
    c.handle_input(key(ButtonInput::MoveRight));
    assert_eq!(c.selected_index(), 2);
    c.handle_input(key(ButtonInput::MoveDown));
    c.handle_input(key(ButtonInput::MoveDown));
    assert_eq!(c.selected_index(), 5);
    c.handle_input(key(ButtonInput::MoveDown));
    assert_eq!(c.selected_index(), 5);
    c.handle_input(key(ButtonInput::MoveLeft));
    c.handle_input(key(ButtonInput::MoveLeft));
    c.handle_input(key(ButtonInput::MoveLeft));
    assert_eq!(c.selected_index(), 3);
    c.handle_input(key(ButtonInput::MoveUp));
    assert_eq!(c.selected_index(), 0);
    assert_eq!(c.handle_input(key(ButtonInput::List)), SelectorMenuTickResult::Cancelled);
    assert_eq!(c.handle_input(key(ButtonInput::Exe)), SelectorMenuTickResult::Selected);
    assert_eq!(c.title(), "Catalog");
    assert_eq!(c.into_selected().metadata, 0);
}

#[test]
fn catalog_right_stops_at_the_end() {
    let mut c = catalog(2);
    c.handle_input(Some(OSInput::Button(ButtonInput::MoveRight)));
    c.handle_input(Some(OSInput::Button(ButtonInput::MoveRight)));
    assert_eq!(c.selected_index(), 1);
}

#[test]
fn selection_steps() {
    assert_eq!(Selection::Expression(3).down(), Selection::Result(3));
    assert_eq!(Selection::Result(3).down(), Selection::Expression(4));
    assert_eq!(Selection::Expression(3).up(), Selection::Result(2));
    assert_eq!(Selection::Result(3).up(), Selection::Expression(3));
    assert_eq!(Selection::Result(3).index(), 3);
    assert_eq!(Selection::Expression(5).down().up(), Selection::Expression(5));
    assert_eq!(Selection::Result(5).up().down(), Selection::Result(5));
}
