use tol::error::{CompilerError, ErrorKind};

#[test]
fn a_new_diagnostic_has_neither_notes_nor_helps() {
    let e = CompilerError::new("mali", ErrorKind::Warning, 4, 9);
    assert_eq!(e.message(), "mali");
    assert_eq!(e.kind(), ErrorKind::Warning);
    assert_eq!(e.line(), 4);
    assert_eq!(e.column(), 9);
    assert!(e.notes().is_empty());
    assert!(e.helps().is_empty());
}

#[test]
fn notes_and_helps_keep_their_order() {
    let e = CompilerError::new("mali", ErrorKind::Error, 1, 1)
        .add_note("una")
        .add_help("a")
        .add_note("ikalawa")
        .add_help("b");
    assert_eq!(e.notes(), &vec!["una".to_string(), "ikalawa".to_string()]);
    assert_eq!(e.helps(), &vec!["a".to_string(), "b".to_string()]);
}

#[test]
fn tags_of_the_kinds() {
    assert_eq!(CompilerError::new("", ErrorKind::Error, 1, 1).tag(), "ERROR");
    assert_eq!(CompilerError::new("", ErrorKind::Warning, 1, 1).tag(), "BABALA");
    assert_eq!(CompilerError::new("", ErrorKind::Info, 1, 1).tag(), "INPORMASYON");
}

#[test]
fn rendered_lines_show_helps_before_notes() {
    let e = CompilerError::new("may mali", ErrorKind::Error, 12, 340)
        .add_note("tala isa")
        .add_help("tulong isa")
        .add_help("tulong dalawa");
    assert_eq!(
        e.render("a.tol", "/tmp/a.tol"),
        vec![
            "  [ a.tol || /tmp/a.tol ]".to_string(),
            "  ERROR[12:340]: may mali".to_string(),
            "  tulong: tulong isa".to_string(),
            "  tulong: tulong dalawa".to_string(),
            "  tala: tala isa".to_string(),
        ]
    );
}

#[test]
fn rendered_lines_of_a_bare_information() {
    let e = CompilerError::new("", ErrorKind::Info, 0, 0);
    assert_eq!(
        e.render("", ""),
        vec!["  [  ||  ]".to_string(), "  INPORMASYON[0:0]: ".to_string()]
    );
}

#[test]
fn duplicate_is_equal_in_every_part() {
    let e = CompilerError::new("x", ErrorKind::Warning, 2, 3).add_note("n").add_help("h");
    let d = e.duplicate();
    assert_eq!(d.message(), e.message());
    assert_eq!(d.kind(), e.kind());
    assert_eq!(d.line(), e.line());
    assert_eq!(d.column(), e.column());
    assert_eq!(d.notes(), e.notes());
    assert_eq!(d.helps(), e.helps());
}
