use todo_screen::home::Home;
use todo_screen::mode::{Key, Mode};
use todo_screen::render::{render_plan, row_label, Rect};

fn area_80x24() -> Rect {
    Rect { x: 0, y: 0, width: 80, height: 24 }
}

fn press(h: &mut Home, key: Key) {
    if let Some(a) = h.handle_key_events(key) {
        h.update(a);
    }
}

#[test]
fn layout_regions_stack_inside_the_margin() {
    let h = Home::new();
    let p = render_plan(&h, area_80x24());
    assert_eq!(
        (p.list_area.x, p.list_area.y, p.list_area.width, p.list_area.height),
        (2, 2, 76, 15)
    );
    assert_eq!(
        (p.status_area.x, p.status_area.y, p.status_area.width, p.status_area.height),
        (2, 17, 76, 1)
    );
    assert_eq!(
        (p.input_area.x, p.input_area.y, p.input_area.width, p.input_area.height),
        (2, 18, 76, 3)
    );
    assert_eq!(
        (p.mode_area.x, p.mode_area.y, p.mode_area.width, p.mode_area.height),
        (2, 21, 76, 1)
    );
    assert_eq!(p.input_scroll, 0);
    assert_eq!(p.caret, None);
    assert_eq!(p.highlight, None);
    assert_eq!(p.help_overlay, None);
}

#[test]
fn caret_appears_only_in_editing_mode() {
    let mut h = Home::new();
    press(&mut h, Key::Char('i'));
    assert_eq!(h.mode(), Mode::Editing);
    let p = render_plan(&h, area_80x24());
    // one cell in from the input box's top-left border corner
    assert_eq!(p.caret, Some((3, 19)));
    for c in "abc".chars() {
        press(&mut h, Key::Char(c));
    }
    let p = render_plan(&h, area_80x24());
    assert_eq!(p.caret, Some((6, 19)));
}

#[test]
fn caret_scrolls_with_a_long_line() {
    let mut h = Home::new();
    press(&mut h, Key::Char('i'));
    for _ in 0..100 {
        press(&mut h, Key::Char('x'));
    }
    let p = render_plan(&h, area_80x24());
    // visible width is 76 - 3 = 73, so the scroll keeps the caret at the
    // right edge of the visible region
    assert_eq!(p.input_scroll, 27);
    assert_eq!(p.caret, Some((2 + 73 + 1, 19)));
}

#[test]
fn help_overlay_is_centered_at_35_percent() {
    let mut h = Home::new();
    press(&mut h, Key::Char('h'));
    let p = render_plan(&h, area_80x24());
    let o = p.help_overlay.expect("help overlay in Help mode");
    assert_eq!((o.x, o.y, o.width, o.height), (26, 8, 28, 8));
}

#[test]
fn highlight_follows_the_browse_cursor() {
    let mut h = Home::new();
    h.append(String::from("A"));
    h.append(String::from("B"));
    press(&mut h, Key::Char('v'));
    press(&mut h, Key::Char('j'));
    let p = render_plan(&h, area_80x24());
    assert_eq!(p.highlight, Some(1));
    press(&mut h, Key::Esc);
    let p = render_plan(&h, area_80x24());
    assert_eq!(p.highlight, None);
}

#[test]
fn row_labels_render_the_position_in_decimal() {
    assert_eq!(row_label(0, "first"), "0: first");
    assert_eq!(row_label(9, "nine"), "9: nine");
    assert_eq!(row_label(10, "ten"), "10: ten");
    assert_eq!(row_label(1203, ""), "1203: ");
}

#[test]
fn tiny_areas_collapse_to_empty_regions() {
    let h = Home::new();
    let p = render_plan(&h, Rect { x: 5, y: 5, width: 3, height: 3 });
    assert_eq!(p.list_area.width, 0);
    assert_eq!(p.list_area.height, 0);
    assert_eq!(p.status_area.height, 0);
    assert_eq!(p.input_area.height, 0);
    assert_eq!(p.mode_area.height, 0);
}
