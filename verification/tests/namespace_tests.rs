use hepta::namespace::{AbsoluteSymbolPath, Namespace, RelativeSymbolPath, SymbolPath};
use hepta::value::Value;

fn rel(segs: &[&str]) -> RelativeSymbolPath {
    RelativeSymbolPath(segs.iter().map(|s| s.to_string()).collect())
}

fn abs(segs: &[&str]) -> AbsoluteSymbolPath {
    AbsoluteSymbolPath(segs.iter().map(|s| s.to_string()).collect())
}

#[test]
fn parse_leading_separator_is_absolute() {
    assert!(SymbolPath::from_str(".a.b").is_absolute());
    assert!(!SymbolPath::from_str("a.b").is_absolute());
    assert!(!SymbolPath::from_str("a").is_absolute());
}

#[test]
fn parse_drops_the_empty_leading_segment() {
    let p = SymbolPath::from_str(".a.b").realize(&abs(&["zzz"]));
    assert_eq!(p, abs(&["a", "b"]));
}

#[test]
fn realize_relative_appends_to_cursor() {
    let p = SymbolPath::from_str("x.y").realize(&abs(&["a"]));
    assert_eq!(p, abs(&["a", "x", "y"]));
}

#[test]
fn realize_absolute_ignores_cursor() {
    let against_root = SymbolPath::from_str(".a.b").realize(&AbsoluteSymbolPath::root());
    let against_deep = SymbolPath::from_str(".a.b").realize(&abs(&["p", "q", "r"]));
    assert_eq!(against_root, against_deep);
}

#[test]
fn realizing_twice_is_realizing_once() {
    let once = SymbolPath::from_str("x").realize(&abs(&["a"]));
    let twice = SymbolPath::Absolute(once.clone()).realize(&abs(&["other", "cursor"]));
    assert_eq!(twice, once);
}

#[test]
fn root_join_and_parent() {
    let root = AbsoluteSymbolPath::root();
    let joined = root.join(&rel(&["a", "b"]));
    assert_eq!(joined, abs(&["a", "b"]));
    assert_eq!(joined.parent(), Some(abs(&["a"])));
    assert_eq!(abs(&["a"]).parent(), Some(AbsoluteSymbolPath::root()));
    assert_eq!(AbsoluteSymbolPath::root().parent(), None);
}

#[test]
fn namespace_resolve_finds_inserted_binding() {
    let mut ns = Namespace::new();
    ns.insert(abs(&["k"]), Value::Integer(1));
    assert!(matches!(ns.resolve(&abs(&["k"])), Some(Value::Integer(1))));
    assert!(ns.resolve(&abs(&["missing"])).is_none());
}

#[test]
fn namespace_insert_overwrites_same_key() {
    let mut ns = Namespace::new();
    ns.insert(abs(&["k"]), Value::Integer(1));
    ns.insert(abs(&["k"]), Value::Integer(2));
    assert!(matches!(ns.resolve(&abs(&["k"])), Some(Value::Integer(2))));
}

#[test]
fn namespace_remove_unbinds_and_returns_the_value() {
    let mut ns = Namespace::new();
    ns.insert(abs(&["k"]), Value::Boolean(true));
    assert!(matches!(ns.remove(&abs(&["k"])), Some(Value::Boolean(true))));
    assert!(ns.resolve(&abs(&["k"])).is_none());
    assert!(ns.remove(&abs(&["k"])).is_none());
}

#[test]
fn namespace_keys_are_whole_paths_not_suffixes() {
    let mut ns = Namespace::new();
    ns.insert(abs(&["a", "k"]), Value::Integer(5));
    assert!(ns.resolve(&abs(&["k"])).is_none());
    assert!(matches!(ns.resolve(&abs(&["a", "k"])), Some(Value::Integer(5))));
}
