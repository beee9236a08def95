use smol_os::smol_script::error::{Error, ErrorType, Position};

#[test]
fn position_new_keeps_its_fields() {
    let p = Position::new(3, 9, String::from("demo"));
    assert_eq!(p.start, 3);
    assert_eq!(p.end, 9);
    assert_eq!(p.file, "demo");
}

#[test]
fn merge_spans_the_smallest_covering_range() {
    let a = Position::new(5, 8, String::from("demo"));
    let b = Position::new(2, 6, String::from("demo"));
    let m = a.merge(&b);
    assert_eq!(m.start, 2);
    assert_eq!(m.end, 8);
    assert_eq!(m.file, "demo");
    let n = b.merge(&a);
    assert_eq!(n.start, 2);
    assert_eq!(n.end, 8);
}

#[test]
fn error_new_keeps_its_fields() {
    let p = Position::new(0, 4, String::from("demo"));
    let e = Error::new(ErrorType::SyntaxError, String::from("unexpected token"), p);
    assert_eq!(e.error, ErrorType::SyntaxError);
    assert_eq!(e.details, "unexpected token");
    assert_eq!(e.position.start, 0);
    assert_eq!(e.position.end, 4);
}
