use help_table::spinner::Spinner;

#[test]
fn ascii_cycle_has_four_frames() {
    let mut s = Spinner::new(false, false);
    assert_eq!(s.frame, 0);
    let mut seen = Vec::new();
    for _ in 0..5 {
        s.advance();
        seen.push(s.glyph());
    }
    assert_eq!(seen, vec!['-', '\\', '|', '/', '-']);
}

#[test]
fn emoji_cycle_has_twelve_frames() {
    let mut s = Spinner::new(false, true);
    for _ in 0..12 {
        s.advance();
    }
    assert_eq!(s.frame, 0);
    assert_eq!(s.glyph(), '\u{1F55B}');
    s.advance();
    assert_eq!(s.frame, 1);
    assert_eq!(s.glyph(), '\u{1F550}');
}

#[test]
fn pipable_spinner_draws_nothing() {
    let s = Spinner::new(true, false);
    assert!(!s.draws());
    let t = Spinner::new(false, true);
    assert!(t.draws());
}
