use wimesh::payload::{put_field, put_fields};

fn f(k: &str, v: &str) -> (String, String) {
    (k.to_string(), v.to_string())
}

#[test]
fn put_replaces_in_place_or_appends() {
    let mut fields = vec![f("a", "1"), f("b", "2")];
    put_field(&mut fields, "b".to_string(), "3".to_string());
    assert_eq!(fields, vec![f("a", "1"), f("b", "3")]);
    put_field(&mut fields, "c".to_string(), "4".to_string());
    assert_eq!(fields, vec![f("a", "1"), f("b", "3"), f("c", "4")]);
}

#[test]
fn put_all_later_fields_win() {
    let mut fields = vec![f("x", "0")];
    put_fields(&mut fields, &vec![f("y", "1"), f("x", "2"), f("y", "3")]);
    assert_eq!(fields, vec![f("x", "2"), f("y", "3")]);
}
