use survey_cad_truck_gui::field_book::{
    code_tokens, contains_text, field_book_columns, field_book_row, field_book_rows,
    field_code_lines, split_text, CodeAction, FieldColumns, trim_text,
};

fn strings(v: &[&str]) -> Vec<String> {
    v.iter().map(|s| s.to_string()).collect()
}

#[test]
fn header_names_the_columns() {
    let c = field_book_columns("Code, NORTHING , Easting");
    assert_eq!(c.start, 1);
    assert_eq!(c.x_idx, 2);
    assert_eq!(c.y_idx, 1);
    assert_eq!(c.code_idx, Some(0));
}

#[test]
fn numeric_first_line_is_data() {
    let c = field_book_columns("100.0,200.0,CL");
    assert_eq!(c.start, 0);
    assert_eq!((c.x_idx, c.y_idx, c.code_idx), (0, 1, None));
    // an exponent "e" hints at a header and counts as a letter
    let c = field_book_columns("1e3,2");
    assert_eq!(c.start, 1);
}

#[test]
fn single_letter_headers() {
    let c = field_book_columns("y,x,desc");
    assert_eq!((c.start, c.x_idx, c.y_idx, c.code_idx), (1, 1, 0, Some(2)));
}

#[test]
fn rows_are_trimmed_and_short_lines_skipped() {
    let cols = FieldColumns { start: 1, x_idx: 0, y_idx: 1, code_idx: Some(2) };
    let row = field_book_row(" 10.5 , 20 , CL1 B ", cols).unwrap();
    assert_eq!(row.x, "10.5");
    assert_eq!(row.y, "20");
    assert_eq!(row.code, "CL1 B");
    let row = field_book_row("1,2", cols).unwrap();
    assert_eq!(row.code, "");
    assert!(field_book_row("   ", cols).is_none());
    assert!(field_book_row("5", cols).is_none());
}

#[test]
fn whole_field_book() {
    let lines = strings(&["E,N,Code", "1,2,A", "", "3,4", "5,6,B"]);
    let rows = field_book_rows(&lines);
    let got: Vec<(String, String, String)> =
        rows.into_iter().map(|r| (r.x, r.y, r.code)).collect();
    assert_eq!(
        got,
        vec![
            ("1".to_string(), "2".to_string(), "A".to_string()),
            ("3".to_string(), "4".to_string(), String::new()),
            ("5".to_string(), "6".to_string(), "B".to_string()),
        ]
    );
    assert!(field_book_rows(&Vec::new()).is_empty());
    let rows = field_book_rows(&strings(&["7,8"]));
    assert_eq!(rows.len(), 1);
}

#[test]
fn splitting_and_tokens() {
    assert_eq!(split_text("a,,b", ',', ','), strings(&["a", "", "b"]));
    assert_eq!(split_text("", ',', ','), strings(&[""]));
    assert_eq!(code_tokens(" CL1;B  EP "), strings(&["CL1", "B", "EP"]));
    assert!(code_tokens(" ; ").is_empty());
    assert!(contains_text("northing", "north"));
    assert!(!contains_text("nor", "north"));
    assert!(contains_text("x", ""));
}

#[test]
fn code_lines_follow_begin_continue_end() {
    let b = |c: &str, a: CodeAction| (c.to_string(), a);
    let codes = vec![
        vec![b("CL", CodeAction::Begin), b("EP", CodeAction::Continue)],
        vec![b("CL", CodeAction::Continue)],
        vec![b("CL", CodeAction::End), b("EP", CodeAction::Continue)],
        vec![b("CL", CodeAction::End), b("", CodeAction::Begin)],
        vec![b("EP", CodeAction::End), b("X", CodeAction::NoAction)],
    ];
    assert_eq!(field_code_lines(&codes), vec![(0, 1), (1, 2), (0, 2), (2, 4)]);
}

#[test]
fn trims_as_str_trim_does() {
    for t in ["", "   ", " a b ", "\t\nx\r\n", "\u{3000}cell\u{a0}", "\u{200b}z", "no space"] {
        assert_eq!(trim_text(t), t.trim(), "text {t:?}");
    }
}
