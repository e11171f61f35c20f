use diff_tui::markup::{decode_markup, decode_parsed, plain_lines};

fn texts(lines: &[diff_tui::markup::StyledLine]) -> Vec<Vec<String>> {
    lines.iter().map(|l| l.spans.iter().map(|s| s.text.clone()).collect()).collect()
}

#[test]
fn colour_codes_become_spans() {
    let lines = decode_markup(b"\x1b[31mred\x1b[0m plain\nnext");
    let t = texts(&lines);
    assert_eq!(t.len(), 2);
    assert_eq!(t[0].concat(), "red plain");
    assert_eq!(t[1].concat(), "next");
    assert!(lines[0].spans[0].style.is_some());
}

#[test]
fn plain_lines_split_at_line_feeds() {
    let lines = plain_lines(b"a\r\nb\n\nc");
    assert_eq!(texts(&lines), vec![vec!["a"], vec!["b"], vec![""], vec!["c"]]);
    assert!(lines.iter().all(|l| l.spans[0].style.is_none()));
}

#[test]
fn final_line_feed_opens_no_line() {
    assert_eq!(plain_lines(b"x\n").len(), 1);
    assert_eq!(plain_lines(b"\n").len(), 1);
    assert_eq!(plain_lines(b"").len(), 0);
}

#[test]
fn invalid_utf8_is_replaced() {
    let lines = plain_lines(&[0x66, 0xff, 0x67]);
    assert_eq!(texts(&lines), vec![vec!["f\u{fffd}g"]]);
}

#[test]
fn refused_parse_falls_back_to_plain() {
    let lines = decode_parsed(None, b"one\ntwo");
    assert_eq!(texts(&lines), vec![vec!["one"], vec!["two"]]);
}

#[test]
fn empty_parse_of_non_empty_input_falls_back() {
    let lines = decode_parsed(Some(Vec::new()), b"z");
    assert_eq!(texts(&lines), vec![vec!["z"]]);
}

#[test]
fn arbitrary_bytes_never_give_nothing() {
    let mut seed: u32 = 12345;
    for len in 1..200usize {
        let mut bytes = Vec::new();
        for _ in 0..len {
            seed = seed.wrapping_mul(1103515245).wrapping_add(12345);
            bytes.push((seed >> 16) as u8);
        }
        let lines = decode_markup(&bytes);
        assert!(!lines.is_empty());
    }
}
