use todo_screen::home::{Home, LoadError, TodoItem};
use todo_screen::mode::{Action, Key, Mode};

/// Drives one key press the way the harness does: handle it, then
/// dispatch whatever intent it raised back into `update`.
fn press(h: &mut Home, key: Key) {
    if let Some(a) = h.handle_key_events(key) {
        h.update(a);
    }
}

fn type_str(h: &mut Home, s: &str) {
    for c in s.chars() {
        press(h, Key::Char(c));
    }
}

fn titles(h: &Home) -> Vec<String> {
    let mut out = Vec::new();
    for i in 0..h.todo_count() {
        out.push(h.title_at(i).clone());
    }
    out
}

#[test]
fn todo_item_holds_its_title() {
    let item = TodoItem::new(String::from("water the plants"));
    assert_eq!(item.title().as_str(), "water the plants");
}

#[test]
fn starts_in_normal_mode_with_empty_store() {
    let h = Home::new();
    assert_eq!(h.mode(), Mode::Normal);
    assert_eq!(h.todo_count(), 0);
    assert_eq!(h.input_value(), "");
    assert_eq!(h.cursor_row(), 0);
}

#[test]
fn commit_scenario_buy_milk() {
    let mut h = Home::new();
    let a = h.handle_key_events(Key::Char('i'));
    assert_eq!(a, Some(Action::EnterCommandMode));
    h.update(a.unwrap());
    assert_eq!(h.mode(), Mode::Editing);
    type_str(&mut h, "Buy milk");
    assert_eq!(h.input_value(), "Buy milk");
    let a = h.handle_key_events(Key::Enter);
    assert_eq!(a, Some(Action::AddTodo));
    h.update(a.unwrap());
    assert_eq!(titles(&h), vec!["Buy milk".to_string()]);
    assert_eq!(h.input_value(), "");
    assert_eq!(h.mode(), Mode::Editing);
}

#[test]
fn browse_scenario_clamps_at_last_row() {
    let mut h = Home::new();
    h.append(String::from("A"));
    h.append(String::from("B"));
    h.append(String::from("C"));
    press(&mut h, Key::Char('v'));
    assert_eq!(h.mode(), Mode::Browse);
    press(&mut h, Key::Char('j'));
    press(&mut h, Key::Char('j'));
    assert_eq!(h.cursor_row(), 2);
    press(&mut h, Key::Char('j'));
    assert_eq!(h.cursor_row(), 2);
    press(&mut h, Key::Char('k'));
    assert_eq!(h.cursor_row(), 1);
}

#[test]
fn browse_cursor_stays_in_range_and_at_zero_floor() {
    let mut h = Home::new();
    h.append(String::from("only"));
    press(&mut h, Key::Char('v'));
    for _ in 0..10 {
        press(&mut h, Key::Char('k'));
    }
    assert_eq!(h.cursor_row(), 0);
    for _ in 0..10 {
        press(&mut h, Key::Char('j'));
    }
    assert_eq!(h.cursor_row(), 0);
}

#[test]
fn browse_on_empty_store_moves_nothing() {
    let mut h = Home::new();
    press(&mut h, Key::Char('v'));
    assert_eq!(h.mode(), Mode::Browse);
    press(&mut h, Key::Char('j'));
    press(&mut h, Key::Char('j'));
    press(&mut h, Key::Char('k'));
    assert_eq!(h.cursor_row(), 0);
    assert_eq!(h.todo_count(), 0);
}

#[test]
fn mode_transitions_follow_the_table() {
    let mut h = Home::new();
    press(&mut h, Key::Char('h'));
    assert_eq!(h.mode(), Mode::Help);
    press(&mut h, Key::Char('h'));
    assert_eq!(h.mode(), Mode::Normal);
    press(&mut h, Key::Char('v'));
    assert_eq!(h.mode(), Mode::Browse);
    press(&mut h, Key::Esc);
    assert_eq!(h.mode(), Mode::Normal);
    press(&mut h, Key::Char('i'));
    assert_eq!(h.mode(), Mode::Editing);
    press(&mut h, Key::Esc);
    assert_eq!(h.mode(), Mode::Normal);
}

#[test]
fn unlisted_keys_change_nothing() {
    let mut h = Home::new();
    h.append(String::from("A"));
    assert_eq!(h.handle_key_events(Key::Char('x')), None);
    assert_eq!(h.handle_key_events(Key::Enter), None);
    assert_eq!(h.mode(), Mode::Normal);
    press(&mut h, Key::Char('h'));
    assert_eq!(h.handle_key_events(Key::Char('j')), None);
    assert_eq!(h.mode(), Mode::Help);
    press(&mut h, Key::Char('h'));
    press(&mut h, Key::Char('v'));
    assert_eq!(h.handle_key_events(Key::Char('q')), None);
    assert_eq!(h.mode(), Mode::Browse);
    assert_eq!(titles(&h), vec!["A".to_string()]);
    assert_eq!(h.cursor_row(), 0);
}

#[test]
fn editing_keys_edit_the_buffer() {
    let mut h = Home::new();
    press(&mut h, Key::Char('i'));
    type_str(&mut h, "helo");
    press(&mut h, Key::Left);
    press(&mut h, Key::Left);
    press(&mut h, Key::Char('l'));
    assert_eq!(h.input_value(), "hello");
    assert_eq!(h.input_cursor(), 3);
    press(&mut h, Key::Home);
    press(&mut h, Key::Delete);
    assert_eq!(h.input_value(), "ello");
    press(&mut h, Key::End);
    press(&mut h, Key::Backspace);
    assert_eq!(h.input_value(), "ell");
    assert_eq!(h.input_cursor(), 3);
}

#[test]
fn input_scroll_keeps_cursor_visible() {
    let mut h = Home::new();
    press(&mut h, Key::Char('i'));
    type_str(&mut h, "0123456789");
    assert_eq!(h.input_cursor(), 10);
    assert_eq!(h.input_scroll(4), 6);
    assert_eq!(h.input_scroll(10), 0);
    assert_eq!(h.input_scroll(40), 0);
}

#[test]
fn append_preserves_length_and_order() {
    let mut h = Home::new();
    let names = ["one", "two", "three", "four", "five"];
    for (i, n) in names.iter().enumerate() {
        h.append(n.to_string());
        assert_eq!(h.todo_count(), i + 1);
    }
    for (i, n) in names.iter().enumerate() {
        assert_eq!(h.title_at(i).as_str(), *n);
    }
}

#[test]
fn buildup_with_missing_source_is_benign() {
    let mut h = Home::new();
    assert_eq!(h.buildup(None), Ok(()));
    assert_eq!(h.todo_count(), 0);
    // a second call is just as harmless
    assert_eq!(h.buildup(None), Ok(()));
    assert_eq!(h.todo_count(), 0);
    assert_eq!(h.mode(), Mode::Normal);
}

#[test]
fn buildup_reads_persisted_items() {
    let mut h = Home::new();
    assert_eq!(h.buildup(Some("[{\"title\":\"X\"}]")), Ok(()));
    assert_eq!(titles(&h), vec!["X".to_string()]);
}

#[test]
fn buildup_keeps_persisted_order() {
    let mut h = Home::new();
    let src = "[{\"title\":\"first\"},{\"title\":\"second\"},{\"title\":\"third\"}]";
    assert_eq!(h.buildup(Some(src)), Ok(()));
    assert_eq!(
        titles(&h),
        vec!["first".to_string(), "second".to_string(), "third".to_string()]
    );
}

#[test]
fn buildup_accepts_whitespace_between_tokens() {
    let mut h = Home::new();
    let src = "[\n  { \"title\" : \"X\" },\r\n  {\t\"title\":\"Y\"\t}\n]\n";
    assert_eq!(h.buildup(Some(src)), Ok(()));
    assert_eq!(titles(&h), vec!["X".to_string(), "Y".to_string()]);

    let mut e = Home::new();
    assert_eq!(e.buildup(Some(" [ ] \n")), Ok(()));
    assert_eq!(e.todo_count(), 0);

    let mut t = Home::new();
    assert_eq!(t.buildup(Some("[{\"title\":\"X\"}]\n")), Ok(()));
    assert_eq!(titles(&t), vec!["X".to_string()]);
}

#[test]
fn buildup_accepts_unicode_escapes() {
    let mut h = Home::new();
    assert_eq!(h.buildup(Some("[{\"title\":\"\\u0041\\u00e9\"}]")), Ok(()));
    assert_eq!(titles(&h), vec!["A\u{00e9}".to_string()]);

    // a surrogate pair denotes one character beyond the basic plane
    let mut p = Home::new();
    assert_eq!(p.buildup(Some("[{\"title\":\"\\uD834\\uDD1E\"}]")), Ok(()));
    assert_eq!(titles(&p), vec!["\u{1D11E}".to_string()]);
}

#[test]
fn buildup_rejects_raw_control_characters() {
    let mut h = Home::new();
    h.append(String::from("kept"));
    assert_eq!(
        h.buildup(Some("[{\"title\":\"a\u{0007}b\"}]")),
        Err(LoadError::Malformed)
    );
    assert_eq!(titles(&h), vec!["kept".to_string()]);
}

#[test]
fn buildup_rejects_malformed_sources() {
    for bad in [
        "",
        "garbage",
        "[",
        "[]x",
        "[{\"title\":\"X\"}",
        "[{\"title\":\"X\"},]",
        "[{\"name\":\"X\"}]",
        "[{\"title\":\"a\\qb\"}]",
        "[{\"title\":\"\\u12\"}]",
        "[{\"title\":\"\\uD800x\"}]",
        "[{\"title\":\"\\uDC00\"}]",
    ] {
        let mut h = Home::new();
        h.append(String::from("kept"));
        assert_eq!(h.buildup(Some(bad)), Err(LoadError::Malformed), "input: {bad}");
        assert_eq!(titles(&h), vec!["kept".to_string()], "input: {bad}");
    }
}

#[test]
fn teardown_writes_the_persisted_form() {
    let mut h = Home::new();
    assert_eq!(h.teardown(), "[]");
    h.append(String::from("X"));
    assert_eq!(h.teardown(), "[{\"title\":\"X\"}]");
    h.append(String::from("Y"));
    assert_eq!(h.teardown(), "[{\"title\":\"X\"},{\"title\":\"Y\"}]");
}

#[test]
fn teardown_escapes_quotes_and_backslashes() {
    let mut h = Home::new();
    h.append(String::from("say \"hi\""));
    h.append(String::from("a\\b"));
    assert_eq!(
        h.teardown(),
        "[{\"title\":\"say \\\"hi\\\"\"},{\"title\":\"a\\\\b\"}]"
    );
}

#[test]
fn teardown_escapes_control_characters() {
    let mut h = Home::new();
    h.append(String::from("a\nb\tc"));
    h.append(String::from("\u{0001}\u{001f}"));
    assert_eq!(
        h.teardown(),
        "[{\"title\":\"a\\nb\\tc\"},{\"title\":\"\\u0001\\u001f\"}]"
    );
}

#[test]
fn save_then_load_round_trips() {
    let mut h = Home::new();
    h.append(String::from("plain"));
    h.append(String::from(""));
    h.append(String::from("with \"quotes\" and \\slashes\\"));
    h.append(String::from("unicode \u{00e9}\u{6f22} and beyond \u{1D11E}"));
    h.append(String::from("control \u{0007}\r\n chars"));
    let saved = h.teardown();
    let mut fresh = Home::new();
    assert_eq!(fresh.buildup(Some(&saved)), Ok(()));
    assert_eq!(titles(&fresh), titles(&h));
}

#[test]
fn load_accepts_common_json_escapes() {
    let mut h = Home::new();
    assert_eq!(h.buildup(Some("[{\"title\":\"a\\nb\\tc\\/d\"}]")), Ok(()));
    assert_eq!(titles(&h), vec!["a\nb\tc/d".to_string()]);
}

#[test]
fn mode_display_names() {
    assert_eq!(Mode::Normal.display_name(), "Normal");
    assert_eq!(Mode::Editing.display_name(), "Editing");
    assert_eq!(Mode::Browse.display_name(), "Browsing");
    assert_eq!(Mode::Help.display_name(), "Help");
}
