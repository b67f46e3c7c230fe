use monkey_front::ast::Identifier;
use monkey_front::builtins::{get, Builtin};
use monkey_front::object::Object;

fn new_id(s: &str) -> Identifier {
    Identifier(s.to_string())
}

fn new_string(s: &str) -> Object {
    Object::String(s.to_string())
}

fn new_integer(n: i64) -> Object {
    Object::Integer(n)
}

fn new_array(a: Vec<Object>) -> Object {
    Object::Array(a)
}

fn new_null() -> Object {
    Object::Null
}

fn test_get(id: &str) -> Builtin {
    let f = get(&new_id(id));
    assert!(f.is_some());
    f.unwrap()
}

#[test]
fn len() {
    let len = test_get("len");
    // args, expected
    let tests = vec![
        (vec![new_string("")], new_integer(0)),
        (vec![new_string("abc")], new_integer(3)),
        (vec![new_string("abc def")], new_integer(7)),
        (vec![new_array(Vec::new())], new_integer(0)),
        (vec![new_array(vec![new_integer(1)])], new_integer(1)),
        (
            vec![new_array(vec![new_integer(1), new_integer(2)])],
            new_integer(2),
        ),
    ];
    for (args, expected) in tests {
        assert_eq!(len.call(args), expected);
    }
}

#[test]
fn first() {
    let first = test_get("first");

    // args, expected
    let tests = vec![
        (vec![new_array(Vec::new())], new_null()),
        (vec![new_array(vec![new_string("a")])], new_string("a")),
        (
            vec![new_array(vec![new_integer(2), new_integer(4)])],
            new_integer(2),
        ),
    ];
    for (args, expected) in tests {
        assert_eq!(first.call(args), expected);
    }
}

#[test]
fn last() {
    let last = test_get("last");
    // args, expected
    let tests = vec![
        (vec![new_array(Vec::new())], new_null()),
        (vec![new_array(vec![new_string("a")])], new_string("a")),
        (
            vec![new_array(vec![new_integer(2), new_integer(4)])],
            new_integer(4),
        ),
    ];
    for (args, expected) in tests {
        assert_eq!(last.call(args), expected);
    }
}

#[test]
fn get_unknown_name() {
    assert_eq!(get(&new_id("push")), None);
    assert_eq!(get(&new_id("")), None);
}

#[test]
fn len_counts_bytes() {
    assert_eq!(test_get("len").call(vec![new_string("é")]), new_integer(2));
}

#[test]
fn builtin_wrong_number_of_arguments() {
    assert_eq!(
        test_get("len").call(Vec::new()),
        Object::Error("wrong number of arguments. got=0, want=1".to_string())
    );
    assert_eq!(
        test_get("first").call(vec![new_null(), new_null()]),
        Object::Error("wrong number of arguments. got=2, want=1".to_string())
    );
}

#[test]
fn builtin_argument_not_supported() {
    assert_eq!(
        test_get("len").call(vec![new_integer(-12)]),
        Object::Error("argument to `len` not supported, got `-12`".to_string())
    );
    assert_eq!(
        test_get("first").call(vec![new_string("ab")]),
        Object::Error("argument to `first` not supported, got `ab`".to_string())
    );
    assert_eq!(
        test_get("last").call(vec![Object::Boolean(true)]),
        Object::Error("argument to `last` not supported, got `true`".to_string())
    );
}

#[test]
fn inspect_values() {
    let v = new_array(vec![
        new_integer(1),
        new_null(),
        new_array(vec![Object::Boolean(false)]),
        Object::Error("bad".to_string()),
    ]);
    assert_eq!(v.inspect(), "[1, null, [false], ERROR: bad]");
    assert_eq!(new_integer(i64::MIN).inspect(), "-9223372036854775808");
}
