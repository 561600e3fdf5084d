//! The text in a JSON value of a language model's reply.

use crate::text::{
    eq_str, from_chars, join, join_str, lemma_views_push, to_chars, trim, trim_of, views,
};
use vstd::prelude::*;

verus! {

/// What the text extraction reads of a JSON value.
pub enum ReplyValue {
    /// A string.
    Text(String),
    /// An array, its elements in order.
    List(Vec<ReplyValue>),
    /// An object, its members (key and value) in the map's order; the keys
    /// are distinct.
    Object(Vec<(String, ReplyValue)>),
    /// A number, a boolean or null.
    Other,
}

/// The parts joined by newlines, or None when there are none.
pub open spec fn joined_parts(parts: Seq<Seq<char>>) -> Option<Seq<char>> {
    if parts.len() == 0 {
        None
    } else {
        Some(join(parts, "\n"@))
    }
}

/// The text of a value: a string trimmed, when not empty; for an array, the
/// texts of its elements joined by newlines; for an object, the text of the
/// first of the members `text`, `content`, `output` and `reasoning` that has
/// one, else the texts of all its members joined by newlines; nothing for
/// other values or when no part has text.
pub open spec fn value_text(v: ReplyValue) -> Option<Seq<char>>
    decreases v,
{
    match v {
        ReplyValue::Text(s) => if trim(s@).len() == 0 {
            None
        } else {
            Some(trim(s@))
        },
        ReplyValue::List(items) => joined_parts(list_texts(items@)),
        ReplyValue::Object(ms) => match member_text(ms@, "text"@) {
            Some(t) => Some(t),
            None => match member_text(ms@, "content"@) {
                Some(t) => Some(t),
                None => match member_text(ms@, "output"@) {
                    Some(t) => Some(t),
                    None => match member_text(ms@, "reasoning"@) {
                        Some(t) => Some(t),
                        None => joined_parts(member_texts(ms@)),
                    },
                },
            },
        },
        ReplyValue::Other => None,
    }
}

/// The texts of the values that have one, in order.
pub open spec fn list_texts(s: Seq<ReplyValue>) -> Seq<Seq<char>>
    decreases s,
{
    if s.len() == 0 {
        Seq::empty()
    } else {
        let rest = list_texts(s.subrange(0, s.len() - 1));
        match value_text(s[s.len() - 1]) {
            Some(t) => rest.push(t),
            None => rest,
        }
    }
}

/// The texts of the member values that have one, in order.
pub open spec fn member_texts(ms: Seq<(String, ReplyValue)>) -> Seq<Seq<char>>
    decreases ms,
{
    if ms.len() == 0 {
        Seq::empty()
    } else {
        let rest = member_texts(ms.subrange(0, ms.len() - 1));
        match value_text(ms[ms.len() - 1].1) {
            Some(t) => rest.push(t),
            None => rest,
        }
    }
}

/// The text of the first member named `key`, if it has one.
pub open spec fn member_text(ms: Seq<(String, ReplyValue)>, key: Seq<char>) -> Option<Seq<char>>
    decreases ms,
{
    if ms.len() == 0 {
        None
    } else if ms[0].0@ == key {
        value_text(ms[0].1)
    } else {
        member_text(ms.subrange(1, ms.len() as int), key)
    }
}

fn joined_exec(parts: &Vec<Vec<char>>) -> (r: Option<String>)
    ensures
        match r {
            Some(s) => joined_parts(views(parts@)) == Some(s@),
            None => joined_parts(views(parts@)) is None,
        },
{
    if parts.len() == 0 {
        None
    } else {
        let j = join_str(parts, "\n");
        Some(from_chars(&j))
    }
}

fn member_text_exec(ms: &Vec<(String, ReplyValue)>, key: &str) -> (r: Option<String>)
    ensures
        match r {
            Some(s) => member_text(ms@, key@) == Some(s@),
            None => member_text(ms@, key@) is None,
        },
    decreases ms@, 1nat,
{
    let mut i: usize = 0;
    assert(ms@.subrange(0, ms.len() as int) =~= ms@);
    while i < ms.len()
        invariant
            i <= ms.len(),
            member_text(ms@, key@) == member_text(ms@.subrange(i as int, ms.len() as int), key@),
        decreases ms.len() - i,
    {
        let ghost rest = ms@.subrange(i as int, ms.len() as int);
        assert(rest.subrange(1, rest.len() as int) =~= ms@.subrange(i + 1, ms.len() as int));
        assert(rest[0] == ms@[i as int]);
        if eq_str(&to_chars(ms[i].0.as_str()), key) {
            assert(decreases_to!(ms@ => ms@[i as int].1));
            return extract_text(&ms[i].1);
        }
        i += 1;
    }
    None
}

/// The text of a JSON value in a model's reply (see `value_text`).
pub fn extract_text(value: &ReplyValue) -> (r: Option<String>)
    ensures
        match r {
            Some(s) => value_text(*value) == Some(s@),
            None => value_text(*value) is None,
        },
    decreases *value, 0nat,
{
    match value {
        ReplyValue::Text(s) => {
            let t = trim_of(&to_chars(s.as_str()));
            if t.len() == 0 {
                None
            } else {
                Some(from_chars(&t))
            }
        },
        ReplyValue::List(items) => {
            let mut parts: Vec<Vec<char>> = Vec::new();
            let mut i: usize = 0;
            while i < items.len()
                invariant
                    i <= items.len(),
                    *value == ReplyValue::List(*items),
                    views(parts@) == list_texts(items@.subrange(0, i as int)),
                decreases items.len() - i,
            {
                let ghost pre = items@.subrange(0, i + 1);
                assert(pre.subrange(0, i as int) =~= items@.subrange(0, i as int));
                assert(pre[i as int] == items@[i as int]);
                assert(value->List_0 == *items);
                assert(decreases_to!(*value => value->List_0));
                assert(decreases_to!(*items => items@));
                assert(decreases_to!(items@ => items@[i as int]));
                match extract_text(&items[i]) {
                    Some(t) => {
                        let tv = to_chars(t.as_str());
                        proof {
                            lemma_views_push(parts@, tv);
                        }
                        parts.push(tv);
                    },
                    None => {},
                }
                i += 1;
            }
            assert(items@.subrange(0, items.len() as int) =~= items@);
            joined_exec(&parts)
        },
        ReplyValue::Object(ms) => {
            assert(decreases_to!(*value => *ms));
            assert(decreases_to!(*ms => ms@));
            match member_text_exec(ms, "text") {
                Some(t) => {
                    return Some(t);
                },
                None => {},
            }
            match member_text_exec(ms, "content") {
                Some(t) => {
                    return Some(t);
                },
                None => {},
            }
            match member_text_exec(ms, "output") {
                Some(t) => {
                    return Some(t);
                },
                None => {},
            }
            match member_text_exec(ms, "reasoning") {
                Some(t) => {
                    return Some(t);
                },
                None => {},
            }
            let mut parts: Vec<Vec<char>> = Vec::new();
            let mut i: usize = 0;
            while i < ms.len()
                invariant
                    i <= ms.len(),
                    *value == ReplyValue::Object(*ms),
                    views(parts@) == member_texts(ms@.subrange(0, i as int)),
                decreases ms.len() - i,
            {
                let ghost pre = ms@.subrange(0, i + 1);
                assert(pre.subrange(0, i as int) =~= ms@.subrange(0, i as int));
                assert(pre[i as int] == ms@[i as int]);
                assert(value->Object_0 == *ms);
                assert(decreases_to!(*value => value->Object_0));
                assert(decreases_to!(*ms => ms@));
                assert(decreases_to!(ms@ => ms@[i as int]));
                assert(decreases_to!(ms@[i as int] => ms@[i as int].1));
                match extract_text(&ms[i].1) {
                    Some(t) => {
                        let tv = to_chars(t.as_str());
                        proof {
                            lemma_views_push(parts@, tv);
                        }
                        parts.push(tv);
                    },
                    None => {},
                }
                i += 1;
            }
            assert(ms@.subrange(0, ms.len() as int) =~= ms@);
            joined_exec(&parts)
        },
        ReplyValue::Other => None,
    }
}

} // verus!
