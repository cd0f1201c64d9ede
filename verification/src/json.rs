//! A structured JSON value, the wire model every persisted or remote payload
//! is read from and written to. Readers are key-based and tolerant: a missing
//! or ill-typed field falls back to its documented default instead of failing
//! the whole document.

use vstd::prelude::*;

verus! {

/// A JSON document. Objects keep their fields in order; a lookup takes the
/// first occurrence of a key.
#[derive(Debug, PartialEq)]
pub enum JsonValue {
    Null,
    Bool(bool),
    Int(i64),
    Str(String),
    Arr(Vec<JsonValue>),
    Obj(Vec<(String, JsonValue)>),
}

/// First value bound to `key` in an ordered field list, if any.
pub open spec fn lookup(pairs: Seq<(String, JsonValue)>, key: Seq<char>) -> Option<JsonValue>
    decreases pairs.len(),
{
    if pairs.len() == 0 {
        None
    } else if pairs[0].0@ == key {
        Some(pairs[0].1)
    } else {
        lookup(pairs.drop_first(), key)
    }
}

/// The field `key` of `v`, when `v` is an object that carries it.
pub open spec fn jfield(v: JsonValue, key: Seq<char>) -> Option<JsonValue> {
    match v {
        JsonValue::Obj(pairs) => lookup(pairs@, key),
        _ => None,
    }
}

/// A key bound at position `i`, with no earlier binding of the same key, is
/// what `lookup` finds.
pub proof fn lemma_lookup_at(pairs: Seq<(String, JsonValue)>, i: int)
    requires
        0 <= i < pairs.len(),
        forall|j: int| 0 <= j < i ==> (#[trigger] pairs[j]).0@ != pairs[i].0@,
    ensures
        lookup(pairs, pairs[i].0@) == Some(pairs[i].1),
    decreases i,
{
    if i > 0 {
        assert(pairs.drop_first()[i - 1] == pairs[i]);
        assert(forall|j: int| 0 <= j < i - 1 ==> (#[trigger] pairs.drop_first()[j]).0@ != pairs
            .drop_first()[i - 1].0@);
        lemma_lookup_at(pairs.drop_first(), i - 1);
    }
}

/// Compares two string slices by their character sequences.
pub fn str_eq(a: &str, b: &str) -> (r: bool)
    ensures
        r == (a@ == b@),
{
    let sa: String = a.to_owned();
    let sb: String = b.to_owned();
    sa == sb
}

/// Key-based field access on a JSON value; `None` when `v` is not an object
/// or the key is absent.
pub fn obj_get<'a>(v: &'a JsonValue, key: &str) -> (r: Option<&'a JsonValue>)
    ensures
        match r {
            Some(f) => jfield(*v, key@) == Some(*f),
            None => jfield(*v, key@) is None,
        },
{
    match v {
        JsonValue::Obj(pairs) => {
            let n = pairs.len();
            let mut i: usize = 0;
            proof {
                assert(pairs@.skip(0) =~= pairs@);
            }
            while i < n
                invariant
                    n == pairs@.len(),
                    i <= n,
                    jfield(*v, key@) == lookup(pairs@, key@),
                    lookup(pairs@, key@) == lookup(pairs@.skip(i as int), key@),
                decreases n - i,
            {
                proof {
                    assert(pairs@.skip(i as int)[0] == pairs@[i as int]);
                    assert(pairs@.skip(i as int).drop_first() =~= pairs@.skip(i as int + 1));
                }
                if str_eq(pairs[i].0.as_str(), key) {
                    proof {
                        assert(lookup(pairs@.skip(i as int), key@) == Some(pairs@[i as int].1));
                    }
                    return Some(&pairs[i].1);
                }
                i = i + 1;
            }
            proof {
                assert(pairs@.skip(n as int) =~= Seq::<(String, JsonValue)>::empty());
            }
            None
        },
        _ => None,
    }
}

} // verus!
