use kanban::{decode_board, decode_config, encode_board, encode_config, Board, Config};

fn s(x: &str) -> String {
    x.to_string()
}

fn sample() -> Board {
    let mut b = Board::empty();
    b.add_column(s("Todo"));
    b.add_column(s("Done"));
    b.add_task(0, s("a\nb"));
    b.add_tag(0, 0, s("x\\y"));
    b.add_tag(0, 0, s("bug"));
    b.set_description(0, 0, s("line one\nline two"));
    b.add_task(1, s("shipped"));
    b
}

#[test]
fn board_text_escapes_breaks_and_backslashes() {
    let mut b = Board::empty();
    b.add_column(s("Todo"));
    b.add_task(0, s("a\nb"));
    b.add_tag(0, 0, s("x\\y"));
    assert_eq!(encode_board(&b), "CTodo\nTa\\nb\nD\nGx\\\\y\n");
}

#[test]
fn empty_board_is_empty_text() {
    assert_eq!(encode_board(&Board::empty()), "");
    assert!(decode_board("").unwrap().columns.is_empty());
}

#[test]
fn board_round_trip() {
    let b = sample();
    let text = encode_board(&b);
    let back = decode_board(&text).unwrap();
    assert_eq!(encode_board(&back), text);
    assert_eq!(back.columns.len(), 2);
    assert_eq!(back.columns[0].name, "Todo");
    let t = &back.columns[0].tasks[0];
    assert_eq!(t.title, "a\nb");
    assert_eq!(t.tags, vec![s("x\\y"), s("bug")]);
    assert_eq!(t.description, "line one\nline two");
    assert_eq!(back.columns[1].tasks[0].title, "shipped");
    assert!(back.columns[1].tasks[0].tags.is_empty());
}

#[test]
fn decode_reads_handwritten_text() {
    let b = decode_board("CTodo\nTwrite\nDsoon\nGdoc\nCDone\n").unwrap();
    assert_eq!(b.columns.len(), 2);
    assert_eq!(b.columns[0].tasks[0].title, "write");
    assert_eq!(b.columns[0].tasks[0].description, "soon");
    assert_eq!(b.columns[0].tasks[0].tags, vec![s("doc")]);
    assert!(b.columns[1].tasks.is_empty());
}

#[test]
fn decode_refuses_malformed_text() {
    assert!(decode_board("Xwhat\n").is_none());
    assert!(decode_board("Torphan\n").is_none());
    assert!(decode_board("CTodo\nDno task\n").is_none());
    assert!(decode_board("CTodo\nGno task\n").is_none());
    assert!(decode_board("CTodo").is_none());
    assert!(decode_board("C\\q\n").is_none());
    assert!(decode_board("CTodo\\").is_none());
    assert!(decode_board("\n").is_none());
}

#[test]
fn config_text_and_round_trip() {
    let c = Config { default_project: Some(s("work")), theme: Some(s("nord")) };
    let text = encode_config(&c);
    assert_eq!(text, "Pwork\nSnord\n");
    let back = decode_config(&text).unwrap();
    assert_eq!(back.default_project, Some(s("work")));
    assert_eq!(back.theme, Some(s("nord")));
}

#[test]
fn unset_config_is_empty_text() {
    assert_eq!(encode_config(&Config::new()), "");
    let back = decode_config("").unwrap();
    assert_eq!(back.default_project, None);
    assert_eq!(back.theme, None);
    assert!(decode_config("Qzzz\n").is_none());
}
