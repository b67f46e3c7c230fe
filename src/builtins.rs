use vstd::prelude::*;
use vstd::utf8::encode_utf8;
use crate::ast::Identifier;
use crate::object::{Object, object_text};
use crate::render::{nat_string, nat_text};

verus! {

/// A function that the language provides by name.
#[derive(Debug, PartialEq, Eq, Structural, Clone, Copy)]
pub enum Builtin {
    Len,
    First,
    Last,
}

/// The built-in function with this name, if there is one.
pub open spec fn builtin_named(name: Seq<char>) -> Option<Builtin> {
    if name == "len"@ {
        Some(Builtin::Len)
    } else if name == "first"@ {
        Some(Builtin::First)
    } else if name == "last"@ {
        Some(Builtin::Last)
    } else {
        None
    }
}

/// The length of a string's UTF-8 encoding.
pub open spec fn byte_len(s: Seq<char>) -> usize {
    encode_utf8(s).len() as usize
}

pub open spec fn builtin_name(b: Builtin) -> Seq<char> {
    match b {
        Builtin::Len => "len"@,
        Builtin::First => "first"@,
        Builtin::Last => "last"@,
    }
}

pub open spec fn wrong_count_text(n: nat, expected: nat) -> Seq<char> {
    "wrong number of arguments. got="@ + nat_text(n) + ", want="@ + nat_text(expected)
}

pub open spec fn not_supported_text(name: Seq<char>, o: Object) -> Seq<char> {
    "argument to `"@ + name + "` not supported, got `"@ + object_text(o) + "`"@
}

/// `r` is what calling `b` with `args` gives: an error unless there is
/// exactly one argument; `len` gives the length of a string in bytes or of
/// an array; `first` and `last` give that element of an array, or null
/// for an empty one; any other argument is an error.
pub open spec fn builtin_result(b: Builtin, args: Seq<Object>, r: Object) -> bool {
    if args.len() != 1 {
        r matches Object::Error(m) && m@ == wrong_count_text(args.len(), 1)
    } else {
        match (b, args[0]) {
            (Builtin::Len, Object::String(s)) => r == Object::Integer(byte_len(s@) as i64),
            (Builtin::Len, Object::Array(xs)) => r == Object::Integer(xs.len() as i64),
            (Builtin::First, Object::Array(xs)) => if xs.len() == 0 {
                r == Object::Null
            } else {
                r == xs@[0]
            },
            (Builtin::Last, Object::Array(xs)) => if xs.len() == 0 {
                r == Object::Null
            } else {
                r == xs@.last()
            },
            (_, o) => r matches Object::Error(m) && m@ == not_supported_text(builtin_name(b), o),
        }
    }
}

/// The built-in function named by `id`.
pub fn get(id: &Identifier) -> (r: Option<Builtin>)
    ensures
        r == builtin_named(id.0@),
{
    let name = &id.0;
    if *name == String::from_str("len") {
        Some(Builtin::Len)
    } else if *name == String::from_str("first") {
        Some(Builtin::First)
    } else if *name == String::from_str("last") {
        Some(Builtin::Last)
    } else {
        None
    }
}

impl Builtin {
    /// Calls the function with `args`.
    pub fn call(self, args: Vec<Object>) -> (r: Object)
        ensures
            builtin_result(self, args@, r),
    {
        match self {
            Builtin::Len => len(args),
            Builtin::First => first(args),
            Builtin::Last => last(args),
        }
    }
}

fn len(args: Vec<Object>) -> (r: Object)
    ensures
        builtin_result(Builtin::Len, args@, r),
{
    if args.len() != 1 {
        return new_wrong_number_arguments_error(args.len(), 1);
    }
    match &args[0] {
        Object::String(s) => {
            let n = s.as_str().len();
            Object::Integer(#[verifier::truncate] (n as i64))
        },
        Object::Array(array) => Object::Integer(#[verifier::truncate] (array.len() as i64)),
        o => new_not_supported_error("len", o),
    }
}

fn first(args: Vec<Object>) -> (r: Object)
    ensures
        builtin_result(Builtin::First, args@, r),
{
    if args.len() != 1 {
        return new_wrong_number_arguments_error(args.len(), 1);
    }
    let mut args = args;
    let arg = args.remove(0);
    match arg {
        Object::Array(mut array) => if array.len() == 0 {
            Object::Null
        } else {
            array.remove(0)
        },
        o => new_not_supported_error("first", &o),
    }
}

fn last(args: Vec<Object>) -> (r: Object)
    ensures
        builtin_result(Builtin::Last, args@, r),
{
    if args.len() != 1 {
        return new_wrong_number_arguments_error(args.len(), 1);
    }
    let mut args = args;
    let arg = args.remove(0);
    match arg {
        Object::Array(mut array) => match array.pop() {
            Some(x) => x,
            None => Object::Null,
        },
        o => new_not_supported_error("last", &o),
    }
}

fn new_wrong_number_arguments_error(n: usize, expected: usize) -> (r: Object)
    ensures
        r matches Object::Error(m) && m@ == wrong_count_text(n as nat, expected as nat),
{
    let mut m = String::from_str("wrong number of arguments. got=");
    let got = nat_string(n as u64);
    m.append(got.as_str());
    m.append(", want=");
    let want = nat_string(expected as u64);
    m.append(want.as_str());
    Object::Error(m)
}

fn new_not_supported_error(fname: &str, o: &Object) -> (r: Object)
    ensures
        r matches Object::Error(m) && m@ == not_supported_text(fname@, *o),
{
    let mut m = String::from_str("argument to `");
    m.append(fname);
    m.append("` not supported, got `");
    let shown = o.inspect();
    m.append(shown.as_str());
    m.append("`");
    Object::Error(m)
}

} // verus!
