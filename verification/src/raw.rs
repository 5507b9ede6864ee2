//! The raw telemetry document: a hierarchical tree of string-keyed
//! sections, arrays and leaf values, as the diagnostic tool emits it.
//!
//! Leaves keep their display text. A `Text` leaf was a string in the
//! source document; a `Scalar` leaf was a number, boolean or null, held
//! as its printed form, exactly the text a numeric field is parsed from.

use vstd::prelude::*;

use crate::text::str_eq;

verus! {

#[derive(Debug)]
pub enum RawDoc {
    /// A string leaf: exact character content.
    Text(String),
    /// A non-string scalar leaf: its display text.
    Scalar(String),
    /// An ordered array of child documents.
    List(Vec<RawDoc>),
    /// An ordered mapping from keys to child documents.
    Object(Vec<(String, RawDoc)>),
}

/// The first entry with the given key, searched front to back.
pub open spec fn spec_lookup(entries: Seq<(String, RawDoc)>, key: Seq<char>) -> Option<RawDoc>
    decreases entries.len(),
{
    if entries.len() == 0 {
        None
    } else if entries[0].0@ == key {
        Some(entries[0].1)
    } else {
        spec_lookup(entries.drop_first(), key)
    }
}

/// The child of an object `d` under `key`; `None` on non-objects and
/// missing keys.
pub open spec fn spec_get(d: RawDoc, key: Seq<char>) -> Option<RawDoc> {
    match d {
        RawDoc::Object(entries) => spec_lookup(entries@, key),
        _ => None,
    }
}

/// The `i`-th element of an array `d`; `None` on non-arrays and
/// out-of-range indexes.
pub open spec fn spec_elem(d: RawDoc, i: int) -> Option<RawDoc> {
    match d {
        RawDoc::List(items) => if 0 <= i < items@.len() {
            Some(items@[i])
        } else {
            None
        },
        _ => None,
    }
}

/// The character content of a string leaf; `None` on anything else.
pub open spec fn spec_as_text(d: RawDoc) -> Option<Seq<char>> {
    match d {
        RawDoc::Text(t) => Some(t@),
        _ => None,
    }
}

/// The display text a numeric field is read from: the content of either
/// leaf kind. Arrays and objects have none; a numeric read of them fails,
/// as their printed forms are never plain digit strings.
pub open spec fn spec_display_text(d: RawDoc) -> Option<Seq<char>> {
    match d {
        RawDoc::Text(t) => Some(t@),
        RawDoc::Scalar(t) => Some(t@),
        _ => None,
    }
}

/// Object lookup by key, front to back.
pub fn get<'a>(d: &'a RawDoc, key: &str) -> (r: Option<&'a RawDoc>)
    ensures
        match r {
            Some(v) => spec_get(*d, key@) == Some(*v),
            None => spec_get(*d, key@) is None,
        },
{
    match d {
        RawDoc::Object(entries) => {
            let n = entries.len();
            proof {
                assert(entries@.subrange(0, n as int) =~= entries@);
            }
            let mut i: usize = 0;
            while i < n
                invariant
                    0 <= i <= n,
                    n == entries@.len(),
                    (*d == RawDoc::Object(*entries)),
                    spec_lookup(entries@, key@) == spec_lookup(
                        entries@.subrange(i as int, n as int), key@),
                decreases n - i,
            {
                proof {
                    assert(entries@.subrange(i as int, n as int).drop_first() =~= entries@
                        .subrange((i + 1) as int, n as int));
                    assert(entries@.subrange(i as int, n as int)[0] == entries@[i as int]);
                }
                if str_eq(entries[i].0.as_str(), key) {
                    proof {
                        let sub = entries@.subrange(i as int, n as int);
                        assert(sub[0] == entries@[i as int]);
                        assert(spec_lookup(sub, key@) == Some(entries@[i as int].1));
                        assert(*d == RawDoc::Object(*entries));
                        assert(spec_get(*d, key@) == spec_lookup(entries@, key@));
                    }
                    let r = &entries[i].1;
                    assert(*r == entries@[i as int].1);
                    return Some(r);
                }
                i += 1;
            }
            assert(entries@.subrange(n as int, n as int).len() == 0);
            None
        },
        _ => None,
    }
}

/// Array element access.
pub fn elem<'a>(d: &'a RawDoc, i: usize) -> (r: Option<&'a RawDoc>)
    ensures
        match r {
            Some(v) => spec_elem(*d, i as int) == Some(*v),
            None => spec_elem(*d, i as int) is None,
        },
{
    match d {
        RawDoc::List(items) => {
            if i < items.len() {
                Some(&items[i])
            } else {
                None
            }
        },
        _ => None,
    }
}

/// The content of a string leaf.
pub fn as_text<'a>(d: &'a RawDoc) -> (r: Option<&'a String>)
    ensures
        match r {
            Some(t) => spec_as_text(*d) == Some(t@),
            None => spec_as_text(*d) is None,
        },
{
    match d {
        RawDoc::Text(t) => Some(t),
        _ => None,
    }
}

/// The display text of a leaf.
pub fn display_text<'a>(d: &'a RawDoc) -> (r: Option<&'a String>)
    ensures
        match r {
            Some(t) => spec_display_text(*d) == Some(t@),
            None => spec_display_text(*d) is None,
        },
{
    match d {
        RawDoc::Text(t) => Some(t),
        RawDoc::Scalar(t) => Some(t),
        _ => None,
    }
}

} // verus!
