//! Text helpers: equality of string slices, decimal numbers read from and
//! written to text, and association lists keyed by strings.

use vstd::prelude::*;
use vstd::string::StringExecFns;

verus! {

/// `str`'s `==` compares the two slices character by character: it holds
/// exactly when both have the same sequence of characters.
pub assume_specification[ <str as PartialEq>::eq ](a: &str, b: &str) -> (r: bool)
    ensures
        r == (a@ == b@),
;

/// Whether `c` is one of the ten ASCII digits.
pub open spec fn is_digit(c: char) -> bool {
    '0' <= c && c <= '9'
}

/// The digit that stands for `d`, for `d` below ten.
pub open spec fn digit_char(d: nat) -> char {
    (('0' as u8) + (d as u8)) as char
}

/// The number a digit character stands for.
pub open spec fn digit_value(c: char) -> nat {
    (c as u32 - '0' as u32) as nat
}

/// Whether every character of `s` is an ASCII digit.
pub open spec fn all_digits(s: Seq<char>) -> bool {
    forall|i: int| 0 <= i < s.len() ==> is_digit(#[trigger] s[i])
}

/// The number that a run of digits denotes in base ten; the empty run denotes zero.
pub open spec fn decimal_value(s: Seq<char>) -> nat
    decreases s.len(),
{
    if s.len() == 0 {
        0
    } else {
        decimal_value(s.drop_last()) * 10 + digit_value(s.last())
    }
}

/// The shortest base-ten text of `n`.
pub open spec fn decimal_text(n: nat) -> Seq<char>
    decreases n,
{
    if n < 10 {
        seq![digit_char(n)]
    } else {
        decimal_text(n / 10).push(digit_char(n % 10))
    }
}

/// The digits of an unsigned number in text: an optional `+`, then at least one digit.
pub open spec fn unsigned_digits(s: Seq<char>) -> Option<Seq<char>> {
    let body = if s.len() > 0 && s[0] == '+' {
        s.skip(1)
    } else {
        s
    };
    if body.len() > 0 && all_digits(body) {
        Some(body)
    } else {
        None
    }
}

/// The natural number that `s` denotes, if `s` is an optional `+` followed by digits.
pub open spec fn spec_parse_nat(s: Seq<char>) -> Option<nat> {
    match unsigned_digits(s) {
        Some(body) => Some(decimal_value(body)),
        None => None,
    }
}

/// The signed 64-bit number that `s` denotes: an optional `+` or `-`, then at
/// least one digit, and a value that fits.
pub open spec fn spec_parse_i64(s: Seq<char>) -> Option<i64> {
    if s.len() > 0 && s[0] == '-' {
        let body = s.skip(1);
        if body.len() > 0 && all_digits(body) && decimal_value(body) <= 0x8000_0000_0000_0000 {
            Some((-(decimal_value(body) as int)) as i64)
        } else {
            None
        }
    } else {
        match spec_parse_nat(s) {
            Some(v) => if v <= 0x7fff_ffff_ffff_ffff {
                Some(v as i64)
            } else {
                None
            },
            None => None,
        }
    }
}

/// A prefix of a run of digits denotes no more than the whole run.
pub proof fn lemma_prefix_value_le(s: Seq<char>, k: int)
    requires
        0 <= k <= s.len(),
    ensures
        decimal_value(s.take(k)) <= decimal_value(s),
    decreases s.len() - k,
{
    if k == s.len() {
        assert(s.take(k) =~= s);
    } else {
        lemma_prefix_value_le(s, k + 1);
        assert(s.take(k + 1).drop_last() =~= s.take(k));
    }
}

/// The characters of `s`, in order.
pub fn to_chars(s: &str) -> (r: Vec<char>)
    ensures
        r@ == s@,
{
    let mut out: Vec<char> = Vec::new();
    for c in it: s.chars()
        invariant
            out@ == it.seq().take(it.index() as int),
            it.seq() == s@,
    {
        out.push(c);
    }
    out
}

/// Reads the digits of `cs` from `start` on, as long as the number stays
/// within `limit`.
fn parse_digits(cs: &Vec<char>, start: usize, limit: u64) -> (r: Option<u64>)
    requires
        start <= cs.len(),
    ensures
        match r {
            Some(v) => {
                &&& start < cs.len()
                &&& all_digits(cs@.skip(start as int))
                &&& v == decimal_value(cs@.skip(start as int))
                &&& v <= limit
            },
            None => {
                ||| start == cs.len()
                ||| !all_digits(cs@.skip(start as int))
                ||| decimal_value(cs@.skip(start as int)) > limit
            },
        },
{
    let ghost body = cs@.skip(start as int);
    if start == cs.len() {
        return None;
    }
    let mut acc: u64 = 0;
    let mut i: usize = start;
    while i < cs.len()
        invariant
            start <= i <= cs.len(),
            body == cs@.skip(start as int),
            all_digits(body.take(i - start)),
            acc == decimal_value(body.take(i - start)),
            acc <= limit,
        decreases cs.len() - i,
    {
        let c = cs[i];
        assert(c == body[i - start]);
        if !('0' <= c && c <= '9') {
            return None;
        }
        let d: u64 = (c as u32 - '0' as u32) as u64;
        proof {
            assert(body.take(i - start + 1).drop_last() =~= body.take(i - start));
            assert(body.take(i - start + 1).last() == c);
            if all_digits(body) {
                lemma_prefix_value_le(body, i - start + 1);
            }
        }
        assert(decimal_value(body.take(i - start + 1)) == acc * 10 + d);
        if d > limit {
            return None;
        }
        if acc > (limit - d) / 10 {
            assert(acc * 10 + d > limit) by (nonlinear_arith)
                requires
                    acc > (limit - d) / 10,
                    d <= limit,
                    0 <= d < 10,
            ;
            return None;
        }
        assert(acc * 10 + d <= limit) by (nonlinear_arith)
            requires
                acc <= (limit - d) / 10,
                d <= limit,
        ;
        acc = acc * 10 + d;
        assert forall|k: int| 0 <= k < body.take(i - start + 1).len() implies is_digit(
            #[trigger] body.take(i - start + 1)[k],
        ) by {
            if k < i - start {
                assert(body.take(i - start)[k] == body.take(i - start + 1)[k]);
            }
        }
        i += 1;
    }
    assert(body.take(i - start) =~= body);
    Some(acc)
}

/// Reads a natural number from characters: an optional `+`, then digits.
/// Numbers beyond the machine's `usize` are reported as too large.
pub fn parse_index_chars(cs: &Vec<char>) -> (r: Option<usize>)
    ensures
        match r {
            Some(v) => spec_parse_nat(cs@) == Some(v as nat),
            None => spec_parse_nat(cs@) matches Some(v) ==> v > usize::MAX,
        },
{
    let start: usize = if cs.len() > 0 && cs[0] == '+' {
        1
    } else {
        0
    };
    proof {
        if start == 0 {
            assert(cs@.skip(0) =~= cs@);
        }
    }
    match parse_digits(cs, start, usize::MAX as u64) {
        Some(v) => Some(v as usize),
        None => None,
    }
}

/// Reads a natural number: an optional `+`, then digits. Numbers beyond the
/// machine's `usize` are reported as too large.
pub fn parse_index(s: &str) -> (r: Option<usize>)
    ensures
        match r {
            Some(v) => spec_parse_nat(s@) == Some(v as nat),
            None => spec_parse_nat(s@) matches Some(v) ==> v > usize::MAX,
        },
{
    let cs = to_chars(s);
    parse_index_chars(&cs)
}

/// Reads a signed 64-bit number as `str::parse::<i64>` does: an optional
/// sign, then digits; anything else, or a value that does not fit, is `None`.
pub fn parse_i64(s: &str) -> (r: Option<i64>)
    ensures
        r == spec_parse_i64(s@),
{
    let cs = to_chars(s);
    if cs.len() > 0 && cs[0] == '-' {
        match parse_digits(&cs, 1, 0x8000_0000_0000_0000) {
            Some(v) => {
                if v == 0x8000_0000_0000_0000 {
                    Some(i64::MIN)
                } else {
                    Some(-(v as i64))
                }
            },
            None => None,
        }
    } else {
        let start: usize = if cs.len() > 0 && cs[0] == '+' {
            1
        } else {
            0
        };
        proof {
            if start == 0 {
                assert(cs@.skip(0) =~= cs@);
            }
        }
        match parse_digits(&cs, start, 0x7fff_ffff_ffff_ffff) {
            Some(v) => Some(v as i64),
            None => None,
        }
    }
}

/// The one-character text of a digit.
fn digit_str(d: u8) -> (r: &'static str)
    requires
        d < 10,
    ensures
        r@ == seq![digit_char(d as nat)],
{
    proof {
        reveal_strlit("0");
        reveal_strlit("1");
        reveal_strlit("2");
        reveal_strlit("3");
        reveal_strlit("4");
        reveal_strlit("5");
        reveal_strlit("6");
        reveal_strlit("7");
        reveal_strlit("8");
        reveal_strlit("9");
    }
    if d == 0 {
        "0"
    } else if d == 1 {
        "1"
    } else if d == 2 {
        "2"
    } else if d == 3 {
        "3"
    } else if d == 4 {
        "4"
    } else if d == 5 {
        "5"
    } else if d == 6 {
        "6"
    } else if d == 7 {
        "7"
    } else if d == 8 {
        "8"
    } else {
        "9"
    }
}

/// Writes `n` in base ten, without sign or leading zeros.
pub fn u64_to_decimal(n: u64) -> (r: String)
    ensures
        r@ == decimal_text(n as nat),
    decreases n,
{
    if n < 10 {
        String::from_str(digit_str(n as u8))
    } else {
        let mut s = u64_to_decimal(n / 10);
        s.append(digit_str((n % 10) as u8));
        s
    }
}

/// Whether the text `key` consists of exactly the characters `cs`.
pub fn chars_eq_str(key: &str, cs: &Vec<char>) -> (r: bool)
    ensures
        r == (key@ == cs@),
{
    let ks = to_chars(key);
    if ks.len() != cs.len() {
        return false;
    }
    let mut i: usize = 0;
    while i < ks.len()
        invariant
            i <= ks.len(),
            ks.len() == cs.len(),
            ks@ == key@,
            forall|j: int| 0 <= j < i ==> ks@[j] == cs@[j],
        decreases ks.len() - i,
    {
        if ks[i] != cs[i] {
            return false;
        }
        i += 1;
    }
    assert(ks@ =~= cs@);
    true
}

/// A copy of the characters of `cs` from `from` up to `to`.
pub fn slice_chars(cs: &Vec<char>, from: usize, to: usize) -> (r: Vec<char>)
    requires
        from <= to <= cs.len(),
    ensures
        r@ == cs@.subrange(from as int, to as int),
{
    let mut out: Vec<char> = Vec::new();
    let mut i: usize = from;
    while i < to
        invariant
            from <= i <= to <= cs.len(),
            out@ == cs@.subrange(from as int, i as int),
        decreases to - i,
    {
        out.push(cs[i]);
        assert(cs@.subrange(from as int, i + 1) =~= cs@.subrange(from as int, i as int).push(
            cs@[i as int],
        ));
        i += 1;
    }
    out
}

/// The position of the first `c` in `s`, or the length of `s` where there is none.
pub open spec fn find_char(s: Seq<char>, c: char) -> int
    decreases s.len(),
{
    if s.len() == 0 {
        0
    } else if s[0] == c {
        0
    } else {
        1 + find_char(s.skip(1), c)
    }
}

/// `find_char` gives the first position of the character, within the text or at its end.
pub proof fn lemma_find_char(s: Seq<char>, c: char)
    ensures
        0 <= find_char(s, c) <= s.len(),
        find_char(s, c) < s.len() ==> s[find_char(s, c)] == c,
        forall|j: int| 0 <= j < find_char(s, c) ==> s[j] != c,
    decreases s.len(),
{
    if s.len() == 0 {
    } else if s[0] == c {
    } else {
        let rest = s.skip(1);
        lemma_find_char(rest, c);
        assert forall|j: int| 0 <= j < find_char(s, c) implies s[j] != c by {
            if j > 0 {
                assert(rest[j - 1] == s[j]);
            }
        }
    }
}

/// A position `k` that holds `c`, with no `c` before it, is the first one.
pub proof fn lemma_find_char_is(s: Seq<char>, c: char, k: int)
    requires
        0 <= k <= s.len(),
        k < s.len() ==> s[k] == c,
        forall|j: int| 0 <= j < k ==> s[j] != c,
    ensures
        find_char(s, c) == k,
{
    lemma_find_char(s, c);
    let f = find_char(s, c);
    if f < k {
        assert(s[f] != c);
    }
}

/// Finds the first `c` among the characters of `cs` from `from` on.
pub fn find_from(cs: &Vec<char>, from: usize, c: char) -> (r: usize)
    requires
        from <= cs.len(),
    ensures
        from <= r <= cs.len(),
        r - from == find_char(cs@.skip(from as int), c),
{
    let mut i: usize = from;
    while i < cs.len()
        invariant
            from <= i <= cs.len(),
            forall|j: int| from <= j < i ==> cs@[j] != c,
        decreases cs.len() - i,
    {
        if cs[i] == c {
            proof {
                lemma_find_char_is(cs@.skip(from as int), c, i - from);
            }
            return i;
        }
        i += 1;
    }
    proof {
        lemma_find_char_is(cs@.skip(from as int), c, i - from);
    }
    i
}

/// The value under the first entry of `entries` whose key is `key`.
pub open spec fn spec_lookup<V>(entries: Seq<(String, V)>, key: Seq<char>) -> Option<V>
    decreases entries.len(),
{
    if entries.len() == 0 {
        None
    } else if entries[0].0@ == key {
        Some(entries[0].1)
    } else {
        spec_lookup(entries.skip(1), key)
    }
}

/// The position of the first entry of `entries` whose key is `key`.
pub open spec fn spec_position<V>(entries: Seq<(String, V)>, key: Seq<char>) -> Option<int>
    decreases entries.len(),
{
    if entries.len() == 0 {
        None
    } else if entries[0].0@ == key {
        Some(0)
    } else {
        match spec_position(entries.skip(1), key) {
            Some(i) => Some(i + 1),
            None => None,
        }
    }
}

/// `spec_position` finds the first entry with the key, and `spec_lookup` reads
/// the value there.
pub proof fn lemma_position<V>(entries: Seq<(String, V)>, key: Seq<char>)
    ensures
        match spec_position(entries, key) {
            Some(i) => {
                &&& 0 <= i < entries.len()
                &&& entries[i].0@ == key
                &&& forall|j: int| 0 <= j < i ==> (#[trigger] entries[j]).0@ != key
                &&& spec_lookup(entries, key) == Some(entries[i].1)
            },
            None => {
                &&& forall|j: int| 0 <= j < entries.len() ==> (#[trigger] entries[j]).0@ != key
                &&& spec_lookup(entries, key) is None
            },
        },
    decreases entries.len(),
{
    if entries.len() == 0 {
    } else if entries[0].0@ == key {
    } else {
        let rest = entries.skip(1);
        lemma_position(rest, key);
        match spec_position(rest, key) {
            Some(i) => {
                assert forall|j: int| 0 <= j < i + 1 implies (#[trigger] entries[j]).0@ != key by {
                    if j > 0 {
                        assert(rest[j - 1] == entries[j]);
                    }
                }
                assert(rest[i] == entries[i + 1]);
            },
            None => {
                assert forall|j: int| 0 <= j < entries.len() implies (#[trigger] entries[j]).0@
                    != key by {
                    if j > 0 {
                        assert(rest[j - 1] == entries[j]);
                    }
                }
            },
        }
    }
}

/// Finds the first entry of `entries` whose key is `key`.
pub fn position<V>(entries: &Vec<(String, V)>, key: &str) -> (r: Option<usize>)
    ensures
        match r {
            Some(i) => spec_position(entries@, key@) == Some(i as int),
            None => spec_position(entries@, key@) is None,
        },
{
    let mut i: usize = 0;
    while i < entries.len()
        invariant
            i <= entries.len(),
            forall|j: int| 0 <= j < i ==> (#[trigger] entries@[j]).0@ != key@,
        decreases entries.len() - i,
    {
        if *entries[i].0.as_str() == *key {
            proof {
                lemma_position(entries@, key@);
            }
            return Some(i);
        }
        i += 1;
    }
    proof {
        lemma_position(entries@, key@);
    }
    None
}

/// Finds the first entry of `entries` whose key consists of the characters `key`.
pub fn position_chars<V>(entries: &Vec<(String, V)>, key: &Vec<char>) -> (r: Option<usize>)
    ensures
        match r {
            Some(i) => spec_position(entries@, key@) == Some(i as int),
            None => spec_position(entries@, key@) is None,
        },
{
    let mut i: usize = 0;
    while i < entries.len()
        invariant
            i <= entries.len(),
            forall|j: int| 0 <= j < i ==> (#[trigger] entries@[j]).0@ != key@,
        decreases entries.len() - i,
    {
        if chars_eq_str(entries[i].0.as_str(), key) {
            proof {
                lemma_position(entries@, key@);
            }
            return Some(i);
        }
        i += 1;
    }
    proof {
        lemma_position(entries@, key@);
    }
    None
}

/// The value under the last entry of `entries` whose key is `key`.
pub open spec fn spec_lookup_last<V>(entries: Seq<(String, V)>, key: Seq<char>) -> Option<V>
    decreases entries.len(),
{
    if entries.len() == 0 {
        None
    } else if entries.last().0@ == key {
        Some(entries.last().1)
    } else {
        spec_lookup_last(entries.drop_last(), key)
    }
}

/// Looks `key` up in an association list where later entries replace
/// earlier ones: the value of the last entry with that key.
pub fn lookup_last<'a, V>(entries: &'a Vec<(String, V)>, key: &str) -> (r: Option<&'a V>)
    ensures
        match r {
            Some(v) => spec_lookup_last(entries@, key@) == Some(*v),
            None => spec_lookup_last(entries@, key@) is None,
        },
{
    let mut i: usize = entries.len();
    assert(entries@.take(i as int) =~= entries@);
    while i > 0
        invariant
            i <= entries.len(),
            spec_lookup_last(entries@, key@) == spec_lookup_last(entries@.take(i as int), key@),
        decreases i,
    {
        i -= 1;
        assert(entries@.take(i + 1).drop_last() =~= entries@.take(i as int));
        if *entries[i].0.as_str() == *key {
            return Some(&entries[i].1);
        }
    }
    None
}

/// The view of an optional string slice.
pub open spec fn opt_str_view(o: Option<&str>) -> Option<Seq<char>> {
    match o {
        Some(s) => Some(s@),
        None => None,
    }
}

/// The view of an optional string.
pub open spec fn opt_string_view(o: Option<String>) -> Option<Seq<char>> {
    match o {
        Some(s) => Some(s@),
        None => None,
    }
}

/// Borrows an optional string as an optional slice.
pub fn opt_as_str(o: &Option<String>) -> (r: Option<&str>)
    ensures
        opt_str_view(r) == opt_string_view(*o),
{
    match o {
        Some(s) => Some(s.as_str()),
        None => None,
    }
}

/// Whether one of `values` is the text `s`.
pub open spec fn spec_contains_text(values: Seq<String>, s: Seq<char>) -> bool {
    exists|i: int| 0 <= i < values.len() && (#[trigger] values[i])@ == s
}

/// Whether one of `values` is the text `s`.
pub fn contains_text(values: &Vec<String>, s: &str) -> (r: bool)
    ensures
        r == spec_contains_text(values@, s@),
{
    let mut i: usize = 0;
    while i < values.len()
        invariant
            i <= values.len(),
            forall|j: int| 0 <= j < i ==> (#[trigger] values@[j])@ != s@,
        decreases values.len() - i,
    {
        if *values[i].as_str() == *s {
            return true;
        }
        i += 1;
    }
    false
}

/// Looks `key` up in an association list: the value of the first entry with that key.
pub fn lookup<'a, V>(entries: &'a Vec<(String, V)>, key: &str) -> (r: Option<&'a V>)
    ensures
        match r {
            Some(v) => spec_lookup(entries@, key@) == Some(*v),
            None => spec_lookup(entries@, key@) is None,
        },
{
    proof {
        lemma_position(entries@, key@);
    }
    match position(entries, key) {
        Some(i) => Some(&entries[i].1),
        None => None,
    }
}

} // verus!
