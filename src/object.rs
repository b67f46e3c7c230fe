use vstd::prelude::*;
use crate::render::{int_string, int_text};

verus! {

broadcast use vstd::std_specs::vec::group_vec_axioms, vstd::seq::group_seq_axioms;

/// A runtime value.
#[derive(Debug, PartialEq, Eq)]
pub enum Object {
    Integer(i64),
    Boolean(bool),
    String(String),
    Array(Vec<Object>),
    Null,
    Error(String),
}

/// How a value is shown to users.
pub open spec fn object_text(o: Object) -> Seq<char>
    decreases o,
{
    match o {
        Object::Integer(n) => int_text(n as int),
        Object::Boolean(b) => if b {
            "true"@
        } else {
            "false"@
        },
        Object::String(s) => s@,
        Object::Array(xs) => "["@ + objects_text(xs@) + "]"@,
        Object::Null => "null"@,
        Object::Error(m) => "ERROR: "@ + m@,
    }
}

/// Values shown one after another, separated by `, `.
pub open spec fn objects_text(xs: Seq<Object>) -> Seq<char>
    decreases xs,
{
    if xs.len() == 0 {
        Seq::empty()
    } else if xs.len() == 1 {
        object_text(xs[0])
    } else {
        objects_text(xs.drop_last()) + ", "@ + object_text(xs.last())
    }
}

impl Object {
    /// The value as it is shown to users, as `object_text` gives it.
    pub fn inspect(&self) -> (r: String)
        ensures
            r@ == object_text(*self),
        decreases self,
    {
        match self {
            Object::Integer(n) => int_string(*n),
            Object::Boolean(b) => if *b {
                String::from_str("true")
            } else {
                String::from_str("false")
            },
            Object::String(s) => s.clone(),
            Object::Array(xs) => {
                let mut r = String::from_str("[");
                let inner = objects_string(xs);
                r.append(inner.as_str());
                r.append("]");
                r
            },
            Object::Null => String::from_str("null"),
            Object::Error(m) => {
                let mut r = String::from_str("ERROR: ");
                r.append(m.as_str());
                r
            },
        }
    }
}

fn objects_string(xs: &Vec<Object>) -> (r: String)
    ensures
        r@ == objects_text(xs@),
    decreases xs,
{
    let mut r = String::new();
    let mut i: usize = 0;
    while i < xs.len()
        invariant
            i <= xs.len(),
            r@ == objects_text(xs@.subrange(0, i as int)),
        decreases xs.len() - i,
    {
        assert(xs@.subrange(0, i as int + 1).drop_last() =~= xs@.subrange(0, i as int));
        if i > 0 {
            r.append(", ");
        }
        let x = xs[i].inspect();
        r.append(x.as_str());
        i = i + 1;
    }
    assert(xs@.subrange(0, i as int) =~= xs@);
    r
}

} // verus!
