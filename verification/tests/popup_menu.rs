use koala_desktop::popup_menu::{MenuEvent, MenuInput, MenuKind, PopupMenu};
use koala_desktop::xft_text::{default_font, text_color_rgb_exec, TextColor};

fn items(n: usize) -> (Vec<String>, Vec<i32>) {
    let v: Vec<String> = (0..n).map(|i| format!("item {}", i)).collect();
    let w: Vec<i32> = (0..n).map(|i| 10 * i as i32).collect();
    (v, w)
}

#[test]
fn open_places_menu_above_anchor_scrolled_to_selection() {
    let mut m = PopupMenu::new();
    let (v, w) = items(15);
    let p = m.open(MenuKind::Captions, v, Some(12), &w, 1000, 700);
    assert_eq!((p.width, p.height), (200, 332));
    assert_eq!((p.x, p.y), (800, 700 - 4 - 332));
    assert!(p.map);
    assert!(m.is_visible());
    assert_eq!(m.current_kind(), MenuKind::Captions);
    assert_eq!(m.max_scroll(), 5);
    let rows = m.visible_items();
    assert_eq!(rows.len(), 10);
    assert_eq!(rows[0].index, 3);
    assert!(rows[9].selected);
    let (v, w) = items(3);
    let p = m.open(MenuKind::Audio, v, None, &w, 10, 10);
    assert!(!p.map);
    assert_eq!((p.x, p.y), (4, 4));
    assert_eq!(p.height, 12 + 96);
}

#[test]
fn wide_items_widen_the_menu() {
    let mut m = PopupMenu::new();
    let p = m.open(MenuKind::Quality, vec!["a".to_string()], None, &vec![300], 2000, 2000);
    assert_eq!(p.width, 356);
    assert_eq!(m.size(), (356, 44));
}

#[test]
fn clicks_wheel_and_hover() {
    let mut m = PopupMenu::new();
    let (v, w) = items(15);
    m.open(MenuKind::Captions, v, None, &w, 1000, 1000);
    assert_eq!(m.row_at(5), None);
    assert_eq!(m.row_at(6), Some(0));
    assert_eq!(m.row_at(6 + 32 * 10), None);
    let r = m.handle_input(MenuInput::ButtonPress { button: 1, y: 6 + 32 * 2 + 1 });
    assert_eq!(r.event, Some(MenuEvent::Selected { kind: MenuKind::Captions, index: 2 }));
    let r = m.handle_input(MenuInput::ButtonPress { button: 5, y: 0 });
    assert!(r.redraw);
    assert_eq!(m.row_at(6), Some(3));
    m.handle_input(MenuInput::ButtonPress { button: 5, y: 0 });
    m.handle_input(MenuInput::ButtonPress { button: 5, y: 0 });
    assert_eq!(m.row_at(6), Some(5));
    let r = m.handle_input(MenuInput::ButtonPress { button: 4, y: 0 });
    assert!(r.redraw);
    assert_eq!(m.row_at(6), Some(2));
    assert!(m.handle_input(MenuInput::Motion { y: 40 }).redraw);
    assert!(!m.handle_input(MenuInput::Motion { y: 41 }).redraw);
    assert!(m.handle_input(MenuInput::Leave).redraw);
    assert!(!m.handle_input(MenuInput::Leave).redraw);
    assert!(m.handle_input(MenuInput::Expose).redraw);
    assert!(m.scrollbar().is_some());
    assert!(m.close());
    assert!(!m.close());
}

#[test]
fn no_scrollbar_for_short_lists() {
    let mut m = PopupMenu::new();
    let (v, w) = items(4);
    m.open(MenuKind::Audio, v, Some(1), &w, 500, 500);
    assert!(m.scrollbar().is_none());
    assert!(!m.scroll_by(3));
}

#[test]
fn fonts_and_colors() {
    assert_eq!(default_font(13), "system-ui,Inter,Cantarell,DejaVu Sans:size=13:antialias=true");
    assert_eq!(text_color_rgb_exec(TextColor::Accent), 0x9b59b6);
    assert_eq!(text_color_rgb_exec(TextColor::Primary), 0xe8e8ea);
}

#[test]
fn clicking_the_opened_selection_selects_it() {
    let mut m = PopupMenu::new();
    let (v, w) = items(15);
    m.open(MenuKind::Quality, v, Some(12), &w, 1000, 700);
    let r = m.handle_input(MenuInput::ButtonPress { button: 1, y: 6 + (12 - 3) * 32 });
    assert_eq!(r.event, Some(MenuEvent::Selected { kind: MenuKind::Quality, index: 12 }));
}
