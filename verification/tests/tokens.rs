use help_table::tokens::count_token;

#[test]
fn empty_text_has_no_tokens() {
    assert_eq!(count_token("").unwrap(), 0);
}

#[test]
fn longer_text_has_more_tokens() {
    let short = count_token("hello").unwrap();
    let long = count_token("hello hello hello hello hello hello hello hello").unwrap();
    assert!(short >= 1);
    assert!(long > short);
}
