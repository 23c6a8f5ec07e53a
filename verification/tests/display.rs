use rustrace::console_line::{first_boundary, first_cluster, last_cluster};
use rustrace::display::{
    json_preview, label, label_fmt, lay_out, output, plain, preview, take_clusters, DisplayText,
    Limits, Renderer, Room, MAX_LINES, TRUNCATED,
};
use rustrace::json::{JsonNumber, JsonValue};
use rustrace::style::{apply_sgr, parse_sgr, Color, Style};
use rustrace::text;

fn shown(bytes: &[u8]) -> DisplayText {
    output(bytes, Limits::default())
}

#[test]
fn controls_become_visible_text() {
    assert_eq!(shown(b"a\x00b\x1b[2J\x7f").to_text(), "a\\u{0}b\\u{1b}[2J\\u{7f}");
    assert_eq!(label("line\nnext\u{202e}", 100), "line\\nnext\\u{202e}");
    assert_eq!(shown(b"bad \xff byte").to_text(), "bad \\xff byte");
}

#[test]
fn allowed_styles_are_set_and_plain_text_reads_none() {
    let text = shown(b"\x1b[1;31mred\x1b[0m rest");
    assert_eq!(text.to_text(), "red rest");
    assert_eq!(text.text[0].spans[0].style.fg, Some(Color::Red));
    assert!(text.text[0].spans[0].style.added.bold);
    assert_eq!(
        plain(b"\x1b[1mx", Limits::default()).to_text(),
        "\\u{1b}[1mx"
    );
}

#[test]
fn lines_and_tabs_are_laid_out() {
    let text = shown(b"a\tb\r\nc\n");
    assert_eq!(text.text[0].spans[0].content, "a   b");
    assert_eq!(text.text[1].spans[0].content, "c");
    assert_eq!(shown("世\tb".as_bytes()).text[0].spans[0].content, "世  b");
}

#[test]
fn what_is_too_long_is_cut_with_a_marker() {
    let cut = label(&"x".repeat(500), 64);
    assert!(cut.len() <= 64);
    assert!(cut.ends_with(TRUNCATED));
    let many = "line\n".repeat(MAX_LINES * 2);
    let text = shown(many.as_bytes());
    assert!(text.truncated);
    assert!(text.text.len() <= MAX_LINES);
    assert!(!shown(b"short").truncated);
}

#[test]
fn clusters_are_never_split() {
    let family = "👩\u{200d}💻";
    for limit in 20..60 {
        let cut = label(&family.repeat(10), limit);
        let kept = cut.strip_suffix(TRUNCATED).unwrap_or(&cut);
        assert_eq!(kept.len() % family.len(), 0, "{limit}: {cut:?}");
    }
}

#[test]
fn pieces_are_shown_as_one() {
    let pieces = vec!["one ".to_owned(), "two\u{7}".to_owned()];
    assert_eq!(label_fmt(&pieces, 100), "one two\\u{7}");
    assert_eq!(label_fmt(&pieces, 100), label("one two\u{7}", 100));
}

#[test]
fn values_are_previewed_as_json() {
    let value = JsonValue::Object(vec![(
        "a".to_owned(),
        JsonValue::Array(vec![
            JsonValue::Number(JsonNumber::Negative(-1)),
            JsonValue::Text("x\u{1b}".to_owned()),
        ]),
    )]);
    let shown = json_preview(&value);
    assert!(shown.contains("-1") && shown.contains("\"a\""), "{shown}");
    assert!(!shown.contains('\u{1b}'));
}

#[test]
fn style_codes_are_read_or_refused_whole() {
    assert_eq!(apply_sgr(Style::plain(), &[38, 5, 200]).unwrap().fg, Some(Color::Indexed(200)));
    assert_eq!(
        apply_sgr(Style::plain(), &[48, 2, 1, 2, 3]).unwrap().bg,
        Some(Color::Rgb(1, 2, 3))
    );
    assert_eq!(apply_sgr(Style::plain(), &[1, 5]), None);
    assert_eq!(apply_sgr(Style::plain(), &[38, 5]), None);
    let (read, style) = parse_sgr(b"x\x1b[32my", 1, Style::plain()).unwrap();
    assert_eq!(style.fg, Some(Color::Green));
    assert!(read > 0);
}

#[test]
fn texts_are_trimmed_split_and_counted() {
    assert_eq!(text::trim("\u{a0} a b \n"), "a b");
    assert_eq!(text::split_lines("a\r\n\nb\r"), ["a", "", "b\r"]);
    assert_eq!(text::write_decimal(u64::MAX), "18446744073709551615");
    assert_eq!(text::write_signed(i32::MIN), "-2147483648");
    assert_eq!(text::encode_hex(&[0, 255, 16]), "00ff10");
    assert_eq!(text::decode_hex("00ff1"), None);
    assert_eq!(text::decode_hex("00FF").is_none(), text::decode_hex("0g").is_none());
    assert_eq!(text::str_bytes("é🦀"), 6);
    assert!(text::is_utf8("é".as_bytes()) && !text::is_utf8(b"\xff"));
    assert!(text::holds_lowered("XTERM-256", "xterm") && !text::holds_lowered("xter", "xterm"));
    assert_eq!(text::join_path("", "a"), "a");
}

fn clusters(parts: &[&str]) -> Vec<String> {
    parts.iter().map(|part| (*part).to_owned()).collect()
}

const ROOM: Room = Room {
    bytes: 8,
    spans: 2,
    lines: 2,
};

#[test]
fn clusters_are_laid_out_until_the_page_is_full() {
    let styles = vec![(0, Style::plain()), (2, Style::plain().with_fg(Color::Red))];
    let page = lay_out(&clusters(&["a", "b", "c", "\n", "d"]), &styles, true, &ROOM);
    assert!(page.stopped);
    assert_eq!(page.lines.len(), 2);
    assert_eq!(page.lines[0].spans[0].content, "ab");
    assert_eq!(page.lines[0].spans[1].content, "c");
    assert_eq!(page.lines[0].spans[1].style.fg, Some(Color::Red));
    assert_eq!((page.bytes, page.spans), (4, 2));

    let plain = vec![(0, Style::plain())];
    let page = lay_out(&clusters(&["abc", "defgh", "i"]), &plain, true, &ROOM);
    assert!(page.stopped);
    assert_eq!(page.lines[0].spans[0].content, "abcdefgh");
    let page = lay_out(&clusters(&["a", "\t"]), &plain, false, &ROOM);
    assert_eq!(page.lines[0].spans[0].content, "a\\t");
}

#[test]
fn a_text_is_placed_where_it_has_room() {
    let mut page = Renderer::new(&ROOM);
    page.place("wide", Style::plain(), 6, &ROOM);
    assert_eq!((page.column, page.bytes, page.stopped), (6, 4, false));
    page.place("longer", Style::plain(), 6, &ROOM);
    assert_eq!((page.column, page.bytes, page.stopped), (6, 4, true));
}

#[test]
fn a_cut_keeps_whole_clusters() {
    assert_eq!(take_clusters(&clusters(&["ab", "cd", "ef"]), 3), "ab");
    assert_eq!(take_clusters(&clusters(&["ab", "cd", "ef"]), 4), "abcd");
    assert_eq!(take_clusters(&clusters(&["ab", "cd"]), 9), "ab");
    assert_eq!(take_clusters(&clusters(&["ab"]), 9), "");
}

#[test]
fn boundaries_are_counted_in_characters() {
    let parts = clusters(&["e\u{301}", "x", "🦀"]);
    assert_eq!(first_boundary(&parts, 0), 0);
    assert_eq!(first_boundary(&parts, 1), 2);
    assert_eq!(first_boundary(&parts, 3), 3);
    assert_eq!(first_boundary(&parts, 9), 4);
    assert_eq!(first_cluster(&parts), Some(2));
    assert_eq!(last_cluster(&parts), Some(1));
    assert_eq!((first_cluster(&Vec::new()), last_cluster(&Vec::new())), (None, None));
}

#[test]
fn a_preview_of_written_bytes_is_bounded() {
    assert_eq!(preview(b"{\n  \"a\": 1\n}"), "{\n  \"a\": 1\n}");
    assert!(preview(&vec![b'x'; 64 * 1024]).ends_with(TRUNCATED));
}
