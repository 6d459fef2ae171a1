use oblivion::terminal::parser::strip_ansi;

#[test]
fn passthrough_plain_text() {
    assert_eq!(strip_ansi(b"hello"), b"hello".to_vec());
}

#[test]
fn strips_csi_sgr_color() {
    let input = b"\x1b[31mhi\x1b[0m";
    assert_eq!(strip_ansi(input), b"hi".to_vec());
}

#[test]
fn strips_csi_cursor_move() {
    let input = b"\x1b[2J\x1b[Hhello";
    assert_eq!(strip_ansi(input), b"hello".to_vec());
}

#[test]
fn strips_osc_bel_terminated() {
    let input = b"\x1b]0;title\x07after";
    assert_eq!(strip_ansi(input), b"after".to_vec());
}

#[test]
fn strips_osc_st_terminated() {
    let input = b"\x1b]0;title\x1b\\after";
    assert_eq!(strip_ansi(input), b"after".to_vec());
}

#[test]
fn handles_trailing_esc() {
    let input = b"abc\x1b";
    assert_eq!(strip_ansi(input), b"abc\x1b".to_vec());
}

#[test]
fn strips_two_byte_esc() {
    // ESC c is "Reset Device": a two-byte sequence, dropped whole.
    let input = b"\x1bcreset\x1b";
    assert_eq!(strip_ansi(input), b"reset\x1b".to_vec());
}

#[test]
fn strip_is_idempotent_on_mixed_input() {
    let input = b"a\x1b[1;32mb\x1b]2;t\x07c\x1bXd";
    let once = strip_ansi(input);
    assert_eq!(once, b"abcd".to_vec());
    assert_eq!(strip_ansi(&once), once);
}

#[test]
fn unterminated_csi_is_dropped() {
    assert_eq!(strip_ansi(b"x\x1b[12;3"), b"x".to_vec());
}

#[test]
fn unterminated_osc_is_dropped() {
    assert_eq!(strip_ansi(b"x\x1b]0;never ends"), b"x".to_vec());
}

#[test]
fn empty_input_gives_empty_output() {
    assert_eq!(strip_ansi(b""), Vec::<u8>::new());
}
