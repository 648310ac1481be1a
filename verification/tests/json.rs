use driver::json;
use driver::json::{Json, Members};

fn sample() -> Json {
    Members::new()
        .with("a", json::string("x"))
        .with("n", Json::Uint(7))
        .with("neg", Json::Int(-3))
        .with("b", Json::Bool(true))
        .with("list", json::string_array(&vec!["p".to_string(), "q".to_string()]))
        .object()
}

#[test]
fn members_are_found() {
    let v = sample();
    assert_eq!(v.str_at("a"), Some("x"));
    assert_eq!(v.str_at("n"), None);
    assert_eq!(v.u64_at("n"), Some(7));
    assert_eq!(v.u64_at("neg"), None);
    assert_eq!(v.bool_at("b"), Some(true));
    assert_eq!(v.str_or("zz", "d"), "d");
    assert_eq!(v.u64_or("zz", 5), 5);
    assert!(v.flag("b"));
    assert!(!v.flag("a"));
    assert_eq!(v.strings_at("list"), vec!["p".to_string(), "q".to_string()]);
    assert!(v.get("zz").is_none());
    assert!(Json::Null.get("a").is_none());
    assert!(json::array(vec![Json::Null]).get("a").is_none());
}

#[test]
fn the_later_of_two_members_counts() {
    let v = Members::new().with("k", Json::Uint(1)).with("k", Json::Uint(2)).object();
    assert_eq!(v.u64_at("k"), Some(2));
}

#[test]
fn only_strings_are_taken_from_a_list() {
    let v = Members::new()
        .with("l", json::array(vec![json::string("a"), Json::Null, json::string("b"), Json::Uint(1)]))
        .object();
    assert_eq!(v.strings_at("l"), vec!["a".to_string(), "b".to_string()]);
    assert!(v.strings_at("none").is_empty());
}

#[test]
fn a_copy_is_the_value_itself() {
    let v = Members::new()
        .with("f", Json::Other(serde_json::Number::from_f64(0.5).unwrap()))
        .with("o", sample())
        .with("nothing", json::opt_string(&None))
        .with("some", json::opt_string(&Some("s".to_string())))
        .object();
    assert_eq!(v.copy(), v);
    assert_eq!(v.clone(), v);
}
