use topdown_sim::asset_loader::{parse_spritesheet_data, LineIssue, SpriteData};

#[test]
fn parse_valid_lines_retrievable_exactly() {
    let (atlas, diags) = parse_spritesheet_data(b"weapon_knife 128 0 32 32\ndoc 1 2 3 4");
    assert_eq!(
        atlas.lookup(b"weapon_knife"),
        Some(SpriteData { x: 128, y: 0, width: 32, height: 32 })
    );
    assert_eq!(atlas.lookup(b"doc"), Some(SpriteData { x: 1, y: 2, width: 3, height: 4 }));
    assert_eq!(atlas.lookup(b"missing"), None);
    assert!(diags.is_empty());
}

#[test]
fn parse_last_write_wins() {
    let (atlas, diags) = parse_spritesheet_data(b"a 1 2 3 4\na 5 6 7 8");
    assert_eq!(atlas.lookup(b"a"), Some(SpriteData { x: 5, y: 6, width: 7, height: 8 }));
    assert!(diags.is_empty());
}

#[test]
fn parse_wrong_field_count_skips_line_only() {
    let (atlas, diags) = parse_spritesheet_data(b"a 1 2 3\nb 1 2 3 4 5\nok 1 2 3 4");
    assert_eq!(atlas.lookup(b"a"), None);
    assert_eq!(atlas.lookup(b"b"), None);
    assert_eq!(atlas.lookup(b"ok"), Some(SpriteData { x: 1, y: 2, width: 3, height: 4 }));
    assert_eq!(diags.len(), 2);
    assert_eq!(diags[0].line, 0);
    assert_eq!(diags[0].content, b"a 1 2 3".to_vec());
    assert_eq!(diags[0].kind, LineIssue::WrongFieldCount);
    assert_eq!(diags[1].line, 1);
    assert_eq!(diags[1].content, b"b 1 2 3 4 5".to_vec());
    assert_eq!(diags[1].kind, LineIssue::WrongFieldCount);
}

#[test]
fn parse_bad_numeric_fields_name_the_field() {
    let cases: [(&[u8], LineIssue); 4] = [
        (b"a x 2 3 4", LineIssue::BadX),
        (b"a 1 x 3 4", LineIssue::BadY),
        (b"a 1 2 x 4", LineIssue::BadWidth),
        (b"a 1 2 3 x", LineIssue::BadHeight),
    ];
    for (text, kind) in cases {
        let (atlas, diags) = parse_spritesheet_data(text);
        assert_eq!(atlas.lookup(b"a"), None);
        assert_eq!(diags.len(), 1);
        assert_eq!(diags[0].line, 0);
        assert_eq!(diags[0].kind, kind);
    }
}

#[test]
fn parse_first_bad_field_wins() {
    let (atlas, diags) = parse_spritesheet_data(b"a 1 oops 3 nope");
    assert_eq!(atlas.lookup(b"a"), None);
    assert_eq!(diags.len(), 1);
    assert_eq!(diags[0].kind, LineIssue::BadY);
}

#[test]
fn parse_empty_text_yields_nothing() {
    let (atlas, diags) = parse_spritesheet_data(b"");
    assert_eq!(atlas.lookup(b"a"), None);
    assert!(diags.is_empty());
}

#[test]
fn parse_trailing_newline_opens_no_extra_line() {
    let (atlas, diags) = parse_spritesheet_data(b"a 1 2 3 4\n");
    assert_eq!(atlas.lookup(b"a"), Some(SpriteData { x: 1, y: 2, width: 3, height: 4 }));
    assert!(diags.is_empty());
}

#[test]
fn parse_crlf_line_endings() {
    let (atlas, diags) = parse_spritesheet_data(b"a 1 2 3 4\r\nb 5 6 7 8\r\n");
    assert_eq!(atlas.lookup(b"a"), Some(SpriteData { x: 1, y: 2, width: 3, height: 4 }));
    assert_eq!(atlas.lookup(b"b"), Some(SpriteData { x: 5, y: 6, width: 7, height: 8 }));
    assert!(diags.is_empty());
}

#[test]
fn parse_blank_line_is_diagnosed_not_fatal() {
    let (atlas, diags) = parse_spritesheet_data(b"a 1 2 3 4\n\nb 5 6 7 8");
    assert_eq!(atlas.lookup(b"a"), Some(SpriteData { x: 1, y: 2, width: 3, height: 4 }));
    assert_eq!(atlas.lookup(b"b"), Some(SpriteData { x: 5, y: 6, width: 7, height: 8 }));
    assert_eq!(diags.len(), 1);
    assert_eq!(diags[0].line, 1);
    assert_eq!(diags[0].content, b"".to_vec());
    assert_eq!(diags[0].kind, LineIssue::WrongFieldCount);
}

#[test]
fn parse_numeric_edges() {
    let (atlas, diags) = parse_spritesheet_data(b"max 4294967295 0 0 0");
    assert_eq!(
        atlas.lookup(b"max"),
        Some(SpriteData { x: 4294967295, y: 0, width: 0, height: 0 })
    );
    assert!(diags.is_empty());

    let (atlas, diags) = parse_spritesheet_data(b"over 4294967296 0 0 0");
    assert_eq!(atlas.lookup(b"over"), None);
    assert_eq!(diags[0].kind, LineIssue::BadX);

    let (atlas, diags) = parse_spritesheet_data(b"plus +7 0 0 0");
    assert_eq!(atlas.lookup(b"plus"), Some(SpriteData { x: 7, y: 0, width: 0, height: 0 }));
    assert!(diags.is_empty());

    let (atlas, diags) = parse_spritesheet_data(b"mixed 12a 0 0 0");
    assert_eq!(atlas.lookup(b"mixed"), None);
    assert_eq!(diags[0].kind, LineIssue::BadX);

    let (atlas, diags) = parse_spritesheet_data(b"neg -1 0 0 0");
    assert_eq!(atlas.lookup(b"neg"), None);
    assert_eq!(diags[0].kind, LineIssue::BadX);
}

#[test]
fn parse_double_space_makes_empty_field() {
    // Splitting on single spaces keeps empty fields: "a  2 3 4" has five
    // fields and an empty x field, which fails to parse.
    let (atlas, diags) = parse_spritesheet_data(b"a  2 3 4");
    assert_eq!(atlas.lookup(b"a"), None);
    assert_eq!(diags.len(), 1);
    assert_eq!(diags[0].kind, LineIssue::BadX);
}
