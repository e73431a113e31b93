use ragout::render::{alt_screen_bytes, encode_char, str_to_bytes};
use ragout::{History, Input};

fn typed(s: &str) -> Input {
    let mut i = Input::new("> ", false);
    s.chars().for_each(|c| i.put_char(c));
    i
}

fn chars(s: &str) -> Vec<char> {
    s.chars().collect()
}

#[test]
fn typing_pika_reads_back() {
    let i = typed("pika");
    assert_eq!(i.values, chars("pika"));
    assert_eq!(i.cursor, 4);
}

#[test]
fn typing_round_trip_with_unicode() {
    let i = typed("añ🐱 b");
    assert_eq!(i.values, chars("añ🐱 b"));
    assert_eq!(i.cursor, 5);
}

#[test]
fn put_char_in_the_middle_shifts_right() {
    let mut i = typed("ac");
    assert!(i.to_the_left());
    i.put_char('b');
    assert_eq!(i.values, chars("abc"));
    assert_eq!(i.cursor, 2);
}

#[test]
fn backspace_scenario_leaves_n_left_of_cursor() {
    let mut i = typed("pikatchino");
    i.backspace();
    assert_eq!(i.values, chars("pikatchin"));
    assert_eq!(i.cursor, 9);
    assert_eq!(i.values[i.cursor - 1], 'n');
}

#[test]
fn backspace_at_start_or_empty_does_nothing() {
    let mut e = Input::new("> ", false);
    e.backspace();
    assert!(e.values.is_empty());
    assert_eq!(e.cursor, 0);

    let mut i = typed("ab");
    i.to_home();
    i.backspace();
    assert_eq!(i.values, chars("ab"));
    assert_eq!(i.cursor, 0);
}

#[test]
fn moves_report_boundaries() {
    let mut e = Input::new("> ", false);
    assert!(!e.to_the_left());
    assert!(!e.to_the_right());
    assert_eq!(e.to_end(), 0);
    assert!(!e.to_home());

    let mut i = typed("abc");
    assert!(!i.to_the_right());
    assert!(i.to_the_left());
    assert_eq!(i.cursor, 2);
    assert!(i.to_home());
    assert!(!i.to_the_left());
    assert_eq!(i.to_end(), 3);
    assert_eq!(i.to_end(), 0);
}

#[test]
fn to_home_twice_second_is_false() {
    let mut i = typed("abc");
    assert!(i.to_home());
    assert!(!i.to_home());
    assert_eq!(i.cursor, 0);
    assert_eq!(i.values, chars("abc"));
}

#[test]
fn clear_after_cursor_scenario() {
    let mut i = typed("pikatchiatto");
    for _ in 0..4 {
        i.to_the_left();
    }
    assert_eq!(i.cursor, 8);
    i.clear_right();
    assert_eq!(i.values, chars("pikatchi"));
    assert_eq!(i.cursor, 8);
}

#[test]
fn clear_before_cursor_scenario() {
    let mut i = typed("pikatchiatto");
    for _ in 0..4 {
        i.to_the_left();
    }
    i.clear_left();
    assert_eq!(i.values, chars("atto"));
    assert_eq!(i.cursor, 0);
}

#[test]
fn right_jump_stops_at_stoppers() {
    let mut i = typed("hello world-foo");
    i.to_home();
    i.to_right_jump();
    assert_eq!(i.cursor, 5);
    i.to_right_jump();
    assert_eq!(i.cursor, 11);
    i.to_right_jump();
    assert_eq!(i.cursor, 15);
    i.to_right_jump();
    assert_eq!(i.cursor, 15);
}

#[test]
fn right_jump_over_spaces() {
    let mut i = typed("a   b");
    i.to_home();
    i.to_right_jump();
    assert_eq!(i.cursor, 3);
}

#[test]
fn left_jump_stops_at_stoppers() {
    let mut i = typed("hello world");
    i.to_left_jump();
    assert_eq!(i.cursor, 5);
    i.to_left_jump();
    assert_eq!(i.cursor, 0);
    i.to_left_jump();
    assert_eq!(i.cursor, 0);
}

#[test]
fn left_jump_lands_after_stopper() {
    let mut i = typed("a-bc");
    i.to_left_jump();
    assert_eq!(i.cursor, 1);
}

#[test]
fn left_jump_over_spaces() {
    let mut i = typed("ab   ");
    i.to_left_jump();
    assert_eq!(i.cursor, 2);
}

#[test]
fn jumps_on_empty_buffer_stay() {
    let mut i = Input::new("> ", false);
    i.to_right_jump();
    assert_eq!(i.cursor, 0);
    i.to_left_jump();
    assert_eq!(i.cursor, 0);
}

#[test]
fn submit_scenario() {
    let mut i = typed("pikatcharu");
    let mut h = History::new();
    let mut user_input = String::new();
    i.cr_lf(&mut h, &mut user_input);
    assert_eq!(h.values[0], chars("pikatcharu"));
    assert_eq!(user_input, "pikatcharu");
    assert!(i.values.is_empty());
    assert_eq!(i.cursor, 0);
    assert_eq!(h.cursor, 1);
    assert!(h.temp.is_none());
}

#[test]
fn submit_same_line_twice_keeps_one_entry() {
    let mut h = History::new();
    h.push(chars("ls -la"));
    h.push(chars("ls -la"));
    assert_eq!(h.values, vec![chars("ls -la")]);
    assert_eq!(h.cursor, 1);
}

#[test]
fn submit_blank_line_is_rejected_but_resets() {
    let mut h = History::new();
    h.push(chars("alpha"));
    let mut cur = chars("x");
    assert!(h.prev(&mut cur));
    assert!(h.temp.is_some());
    h.push(chars("   "));
    h.push(Vec::new());
    assert_eq!(h.values, vec![chars("alpha")]);
    assert_eq!(h.cursor, 1);
    assert!(h.temp.is_none());
}

#[test]
fn recall_previous_then_next_restores_draft() {
    let mut h = History::new();
    h.push(chars("alpha"));
    let mut cur = chars("beta");
    assert!(h.prev(&mut cur));
    assert_eq!(cur, chars("alpha"));
    assert_eq!(h.temp, Some(chars("beta")));
    assert_eq!(h.cursor, 0);
    assert!(!h.prev(&mut cur));
    assert_eq!(cur, chars("alpha"));
    assert!(h.next(&mut cur));
    assert_eq!(cur, chars("beta"));
    assert_eq!(h.cursor, 1);
    assert!(!h.next(&mut cur));
    assert_eq!(cur, chars("beta"));
}

#[test]
fn recall_walks_several_entries() {
    let mut h = History::new();
    h.push(chars("one"));
    h.push(chars("two"));
    h.push(chars("three"));
    let mut cur = chars("draft");
    assert!(h.prev(&mut cur));
    assert_eq!(cur, chars("three"));
    assert!(h.prev(&mut cur));
    assert_eq!(cur, chars("two"));
    assert!(h.prev(&mut cur));
    assert_eq!(cur, chars("one"));
    assert!(h.next(&mut cur));
    assert_eq!(cur, chars("two"));
    assert!(h.next(&mut cur));
    assert_eq!(cur, chars("three"));
    assert!(h.next(&mut cur));
    assert_eq!(cur, chars("draft"));
    assert_eq!(h.temp, Some(chars("draft")));
}

#[test]
fn recall_on_empty_history_fails() {
    let mut h = History::new();
    let mut cur = chars("x");
    assert!(!h.prev(&mut cur));
    assert!(!h.next(&mut cur));
    assert_eq!(cur, chars("x"));
}

#[test]
fn overwrite_prompt_replaces_it() {
    let mut i = typed("ab");
    i.overwrite_prompt("new> ");
    assert_eq!(i.prompt, "new> ");
    assert_eq!(i.values, chars("ab"));
}

#[test]
fn encode_char_widths() {
    let mut b = Vec::new();
    encode_char('a', &mut b);
    assert_eq!(b, vec![0x61]);
    encode_char('é', &mut b);
    assert_eq!(b, vec![0x61, 0xC3, 0xA9]);
    let mut c = Vec::new();
    encode_char('€', &mut c);
    assert_eq!(c, vec![0xE2, 0x82, 0xAC]);
    let mut d = Vec::new();
    encode_char('🐱', &mut d);
    assert_eq!(d, vec![0xF0, 0x9F, 0x90, 0xB1]);
}

#[test]
fn str_to_bytes_matches_utf8() {
    assert_eq!(str_to_bytes(""), Vec::<u8>::new());
    assert_eq!(str_to_bytes("a🐱é"), "a🐱é".as_bytes().to_vec());
}

#[test]
fn prompt_bytes_clear_return_prompt_and_line() {
    let mut i = Input::new("p> ", false);
    i.put_char('x');
    i.put_char('é');
    assert_eq!(
        i.prompt_bytes(),
        vec![0x1b, b'[', b'2', b'K', 13, b'p', b'>', b' ', b'x', 0xC3, 0xA9]
    );
}

#[test]
fn cursor_sync_counts_prompt_characters() {
    let mut i = Input::new("é> ", false);
    i.put_char('x');
    let mut want = vec![13u8];
    for _ in 0..5 {
        want.extend_from_slice(b"\x1b[C");
    }
    assert_eq!(i.cursor_sync_bytes(), want);
}

#[test]
fn alt_screen_enters_and_homes() {
    assert_eq!(alt_screen_bytes(), b"\x1b[?1049h\x1b[1;1f".to_vec());
}
