//! JSON documents as plain values, and the dotted paths that select a value
//! inside one.

use vstd::prelude::*;
use crate::text::{
    find_char, find_from, lemma_position, lookup, parse_index_chars, position_chars, slice_chars,
    spec_lookup, spec_parse_nat, to_chars,
};

verus! {

/// A JSON number, held as what the director reads of it.
pub struct JsonNumber {
    /// The number as an unsigned 64-bit integer, where it is one.
    pub as_u64: Option<u64>,
    /// The number as JSON text writes it.
    pub text: String,
}

/// A JSON value.
pub enum JsonValue {
    Null,
    Bool(bool),
    Number(JsonNumber),
    Text(String),
    Array(Vec<JsonValue>),
    /// The members of an object, in order. A name is looked up as its first
    /// member of that name.
    Object(Vec<(String, JsonValue)>),
}

/// The member `name` of an object; nothing for any other value.
pub open spec fn spec_field(v: JsonValue, name: Seq<char>) -> Option<JsonValue> {
    match v {
        JsonValue::Object(entries) => spec_lookup(entries@, name),
        _ => None,
    }
}

/// The element at `idx` of an array; nothing for any other value.
pub open spec fn spec_item(v: JsonValue, idx: nat) -> Option<JsonValue> {
    match v {
        JsonValue::Array(items) => if idx < items@.len() {
            Some(items@[idx as int])
        } else {
            None
        },
        _ => None,
    }
}

/// One step of a path. A part without `[` names a member. A part with `[`
/// names the member before it and then the element whose index stands between
/// the `[` and the part's last character.
pub open spec fn spec_step(v: JsonValue, part: Seq<char>) -> Option<JsonValue> {
    let b = find_char(part, '[');
    if b < part.len() {
        if b + 1 > part.len() - 1 {
            None
        } else {
            match spec_field(v, part.take(b)) {
                Some(inner) => match spec_parse_nat(part.subrange(b + 1, part.len() - 1)) {
                    Some(i) => spec_item(inner, i),
                    None => None,
                },
                None => None,
            }
        }
    } else {
        spec_field(v, part)
    }
}

/// The parts of a path: the text between its dots.
pub open spec fn split_dots(s: Seq<char>) -> Seq<Seq<char>>
    decreases s.len(),
{
    let d = find_char(s, '.');
    if 0 <= d < s.len() {
        seq![s.take(d)] + split_dots(s.skip(d + 1))
    } else {
        seq![s]
    }
}

/// Follows the parts of a path from `v`.
pub open spec fn spec_walk(v: JsonValue, parts: Seq<Seq<char>>) -> Option<JsonValue>
    decreases parts.len(),
{
    if parts.len() == 0 {
        Some(v)
    } else {
        match spec_step(v, parts[0]) {
            Some(next) => spec_walk(next, parts.skip(1)),
            None => None,
        }
    }
}

/// The value that the dotted path `path` selects in `v`.
pub open spec fn spec_extract(v: JsonValue, path: Seq<char>) -> Option<JsonValue> {
    spec_walk(v, split_dots(path))
}

impl JsonValue {
    /// The member `name` of an object.
    pub fn get<'a>(&'a self, name: &str) -> (r: Option<&'a JsonValue>)
        ensures
            match r {
                Some(v) => spec_field(*self, name@) == Some(*v),
                None => spec_field(*self, name@) is None,
            },
    {
        match self {
            JsonValue::Object(entries) => lookup(entries, name),
            _ => None,
        }
    }

    /// The member of an object whose name consists of the characters `name`.
    pub fn get_chars<'a>(&'a self, name: &Vec<char>) -> (r: Option<&'a JsonValue>)
        ensures
            match r {
                Some(v) => spec_field(*self, name@) == Some(*v),
                None => spec_field(*self, name@) is None,
            },
    {
        match self {
            JsonValue::Object(entries) => {
                proof {
                    lemma_position(entries@, name@);
                }
                match position_chars(entries, name) {
                    Some(i) => Some(&entries[i].1),
                    None => None,
                }
            },
            _ => None,
        }
    }

    /// The element at `idx` of an array.
    pub fn get_index<'a>(&'a self, idx: usize) -> (r: Option<&'a JsonValue>)
        ensures
            match r {
                Some(v) => spec_item(*self, idx as nat) == Some(*v),
                None => spec_item(*self, idx as nat) is None,
            },
    {
        match self {
            JsonValue::Array(items) => if idx < items.len() {
                Some(&items[idx])
            } else {
                None
            },
            _ => None,
        }
    }

    /// One step of a path from this value.
    fn step<'a>(&'a self, part: &Vec<char>) -> (r: Option<&'a JsonValue>)
        ensures
            match r {
                Some(v) => spec_step(*self, part@) == Some(*v),
                None => spec_step(*self, part@) is None,
            },
    {
        let b = find_from(part, 0, '[');
        assert(part@.skip(0) =~= part@);
        if b < part.len() {
            if b + 1 > part.len() - 1 {
                return None;
            }
            let name = slice_chars(part, 0, b);
            assert(part@.subrange(0, b as int) =~= part@.take(b as int));
            let index_text = slice_chars(part, b + 1, part.len() - 1);
            match self.get_chars(&name) {
                Some(inner) => match parse_index_chars(&index_text) {
                    Some(i) => inner.get_index(i),
                    None => {
                        // an index beyond the machine's range is beyond every array
                        if let JsonValue::Array(items) = inner {
                            let n = items.len();
                            assert(n == items@.len());
                        }
                        None
                    },
                },
                None => None,
            }
        } else {
            self.get_chars(part)
        }
    }

    /// Selects the value at a dotted path such as `status.state` or
    /// `spec.containers[0].ports[1].containerPort`. Indices are natural
    /// numbers; a part that does not resolve gives `None`.
    pub fn extract_json_path<'a>(&'a self, path: &str) -> (r: Option<&'a JsonValue>)
        ensures
            match r {
                Some(v) => spec_extract(*self, path@) == Some(*v),
                None => spec_extract(*self, path@) is None,
            },
    {
        let cs = to_chars(path);
        let mut current: &'a JsonValue = self;
        let mut pos: usize = 0;
        assert(cs@.skip(0) =~= cs@);
        loop
            invariant
                pos <= cs.len(),
                cs@ == path@,
                spec_extract(*self, path@) == spec_walk(*current, split_dots(cs@.skip(pos as int))),
            decreases cs.len() - pos,
        {
            let end = find_from(&cs, pos, '.');
            let part = slice_chars(&cs, pos, end);
            let ghost rest = cs@.skip(pos as int);
            let ghost parts = split_dots(rest);
            proof {
                assert(cs@.subrange(pos as int, end as int) =~= rest.take(end - pos));
                if end == cs.len() {
                    assert(rest.take(end - pos) =~= rest);
                    assert(parts =~= seq![rest]);
                } else {
                    assert(rest.skip(end - pos + 1) =~= cs@.skip(end + 1));
                    assert(parts == seq![rest.take(end - pos)] + split_dots(cs@.skip(end + 1)));
                    assert(parts.skip(1) =~= split_dots(cs@.skip(end + 1)));
                }
                assert(parts[0] == part@);
            }
            match current.step(&part) {
                Some(next) => {
                    if end == cs.len() {
                        proof {
                            assert(parts.skip(1).len() == 0);
                            assert(spec_walk(*next, parts.skip(1)) == Some(*next));
                        }
                        return Some(next);
                    }
                    current = next;
                    pos = end + 1;
                },
                None => {
                    return None;
                },
            }
        }
    }

    /// The text of a string value.
    pub fn as_text<'a>(&'a self) -> (r: Option<&'a String>)
        ensures
            match r {
                Some(s) => *self == JsonValue::Text(*s),
                None => !(*self is Text),
            },
    {
        match self {
            JsonValue::Text(s) => Some(s),
            _ => None,
        }
    }
}

} // verus!
