//! A JSON value tree held as plain values, with the lookups that the wire
//! format needs. serde_json turns text into a tree and a tree into text.

use vstd::prelude::*;
use vstd::string::*;
use crate::primitives::json_text;
use crate::primitives::write_json;
use crate::primitives::json_parse;
use crate::primitives::parse_json;

verus! {

/// A JSON value. A number is held as the decimal text that serde_json
/// prints for it. An object keeps its members in the order in which they
/// were built; one parsed by serde_json has them sorted by name, each name
/// once (the last occurrence in the text wins).
#[derive(Debug)]
pub enum Json {
    Null,
    Bool(bool),
    Number(String),
    Str(String),
    Array(Vec<Json>),
    Object(Vec<(String, Json)>),
}

/// `t` is an object whose member names are `names`, in this order.
pub open spec fn names_are(t: Json, names: Seq<Seq<char>>) -> bool {
    &&& t is Object
    &&& t->Object_0@.len() == names.len()
    &&& forall|i: int| 0 <= i < names.len() ==> (#[trigger] t->Object_0@[i]).0@ == names[i]
}

/// The value of the member at position `i` of an object.
pub open spec fn member_at(t: Json, i: int) -> Json {
    t->Object_0@[i].1
}

/// `t` is the string value `s`.
pub open spec fn is_text(t: Json, s: Seq<char>) -> bool {
    t is Str && t->Str_0@ == s
}

/// `t` is the number value `n`, written in decimal.
pub open spec fn is_number(t: Json, n: nat) -> bool {
    t is Number && t->Number_0@ == decimal(n)
}

/// In an object with known member names, looking up the first member of a
/// name finds it at its position.
pub proof fn lemma_field_at(t: Json, names: Seq<Seq<char>>, i: int)
    requires
        names_are(t, names),
        0 <= i < names.len(),
        forall|j: int| 0 <= j < i ==> #[trigger] names[j] != names[i],
    ensures
        field(t, names[i]) == Some(member_at(t, i)),
{
    lemma_member_at(t->Object_0@, names, i);
}

proof fn lemma_member_at(entries: Seq<(String, Json)>, names: Seq<Seq<char>>, i: int)
    requires
        entries.len() == names.len(),
        forall|k: int| 0 <= k < names.len() ==> (#[trigger] entries[k]).0@ == names[k],
        0 <= i < names.len(),
        forall|j: int| 0 <= j < i ==> #[trigger] names[j] != names[i],
    ensures
        member(entries, names[i]) == Some(entries[i].1),
    decreases i,
{
    if i > 0 {
        let rest = entries.drop_first();
        let rest_names = names.drop_first();
        assert forall|k: int| 0 <= k < rest_names.len() implies (#[trigger] rest[k]).0@ == rest_names[k] by {
            assert(rest[k] == entries[k + 1]);
        }
        assert forall|j: int| 0 <= j < i - 1 implies #[trigger] rest_names[j] != rest_names[i - 1] by {
            assert(rest_names[j] == names[j + 1]);
        }
        assert(entries[0].0@ == names[0]);
        lemma_member_at(rest, rest_names, i - 1);
        assert(rest[i - 1] == entries[i]);
    } else {
        assert(entries[0].0@ == names[0]);
    }
}

/// In an object with known member names, a name that is not among them is
/// not found.
pub proof fn lemma_field_absent(t: Json, names: Seq<Seq<char>>, key: Seq<char>)
    requires
        names_are(t, names),
        !names.contains(key),
    ensures
        field(t, key) is None,
{
    lemma_member_absent(t->Object_0@, names, key);
}

proof fn lemma_member_absent(entries: Seq<(String, Json)>, names: Seq<Seq<char>>, key: Seq<char>)
    requires
        entries.len() == names.len(),
        forall|k: int| 0 <= k < names.len() ==> (#[trigger] entries[k]).0@ == names[k],
        !names.contains(key),
    ensures
        member(entries, key) is None,
    decreases entries.len(),
{
    if entries.len() > 0 {
        let rest = entries.drop_first();
        let rest_names = names.drop_first();
        assert forall|k: int| 0 <= k < rest_names.len() implies (#[trigger] rest[k]).0@ == rest_names[k] by {
            assert(rest[k] == entries[k + 1]);
        }
        assert(entries[0].0@ == names[0]);
        assert(names[0] != key);
        assert forall|k: int| 0 <= k < rest_names.len() implies rest_names[k] != key by {
            assert(rest_names[k] == names[k + 1]);
        }
        lemma_member_absent(rest, rest_names, key);
    }
}

/// The value of the first member named `key`, if any.
pub open spec fn member(entries: Seq<(String, Json)>, key: Seq<char>) -> Option<Json>
    decreases entries.len(),
{
    if entries.len() == 0 {
        None
    } else if entries[0].0@ == key {
        Some(entries[0].1)
    } else {
        member(entries.drop_first(), key)
    }
}

/// What looking `key` up in `j` gives: `None` unless `j` is an object
/// with such a member.
pub open spec fn field(j: Json, key: Seq<char>) -> Option<Json> {
    match j {
        Json::Object(entries) => member(entries@, key),
        _ => None,
    }
}

/// Looks `key` up in an optional value.
pub open spec fn field_of(o: Option<Json>, key: Seq<char>) -> Option<Json> {
    match o {
        Some(j) => field(j, key),
        None => None,
    }
}

/// The text of a string value.
pub open spec fn text_of(o: Option<Json>) -> Option<Seq<char>> {
    match o {
        Some(Json::Str(s)) => Some(s@),
        _ => None,
    }
}

/// The decimal text of a number value.
pub open spec fn number_text_of(o: Option<Json>) -> Option<Seq<char>> {
    match o {
        Some(Json::Number(t)) => Some(t@),
        _ => None,
    }
}

pub open spec fn is_digit(c: char) -> bool {
    '0' <= c && c <= '9'
}

pub open spec fn digit_value(c: char) -> nat {
    (c as u32 - '0' as u32) as nat
}

/// The number that a string of decimal digits denotes.
pub open spec fn digits_value(s: Seq<char>) -> nat
    decreases s.len(),
{
    if s.len() == 0 {
        0
    } else {
        digits_value(s.drop_last()) * 10 + digit_value(s.last())
    }
}

pub open spec fn all_digits(s: Seq<char>) -> bool {
    forall|i: int| 0 <= i < s.len() ==> is_digit(#[trigger] s[i])
}

/// A non-negative integer number whose value fits in a `u64`.
pub open spec fn u64_of_text(t: Seq<char>) -> Option<u64> {
    if t.len() > 0 && all_digits(t) && digits_value(t) <= u64::MAX {
        Some(digits_value(t) as u64)
    } else {
        None
    }
}

/// The unsigned integer held by a number value.
pub open spec fn u64_of(o: Option<Json>) -> Option<u64> {
    match o {
        Some(Json::Number(t)) => u64_of_text(t@),
        _ => None,
    }
}

/// The decimal digits of `n`, without leading zeros.
pub open spec fn decimal(n: nat) -> Seq<char>
    decreases n,
{
    if n < 10 {
        seq![digit_char(n)]
    } else {
        decimal(n / 10).push(digit_char(n % 10))
    }
}

pub open spec fn digit_char(d: nat) -> char {
    if d == 0 { '0' }
    else if d == 1 { '1' }
    else if d == 2 { '2' }
    else if d == 3 { '3' }
    else if d == 4 { '4' }
    else if d == 5 { '5' }
    else if d == 6 { '6' }
    else if d == 7 { '7' }
    else if d == 8 { '8' }
    else { '9' }
}

/// Reading the decimal text of `n` back gives `n`.
pub proof fn lemma_decimal_round_trip(n: nat)
    ensures
        all_digits(decimal(n)),
        decimal(n).len() > 0,
        digits_value(decimal(n)) == n,
    decreases n,
{
    lemma_digit_char(n % 10);
    if n < 10 {
        let s = decimal(n);
        assert(s.drop_last() =~= Seq::<char>::empty());
        assert(n % 10 == n);
        assert(s.last() == digit_char(n));
        assert(digits_value(s) == digits_value(s.drop_last()) * 10 + digit_value(s.last()));
    } else {
        lemma_digit_char(n % 10);
        lemma_decimal_round_trip(n / 10);
        let s = decimal(n);
        assert(s.drop_last() =~= decimal(n / 10));
        assert(n == (n / 10) * 10 + n % 10);
        assert(s.last() == digit_char(n % 10));
        assert(digits_value(s) == digits_value(s.drop_last()) * 10 + digit_value(s.last()));
        assert forall|i: int| 0 <= i < s.len() implies is_digit(#[trigger] s[i]) by {
            if i < s.len() - 1 {
                assert(s[i] == decimal(n / 10)[i]);
            }
        }
    }
}

proof fn lemma_digit_char(d: nat)
    requires
        d < 10,
    ensures
        is_digit(digit_char(d)),
        digit_value(digit_char(d)) == d,
{
}

/// Every digit prefix of a digit string denotes at most what the whole does.
proof fn lemma_digits_prefix(s: Seq<char>, k: int)
    requires
        all_digits(s),
        0 <= k <= s.len(),
    ensures
        digits_value(s.subrange(0, k)) <= digits_value(s),
    decreases s.len(),
{
    if k < s.len() {
        let t = s.drop_last();
        assert(all_digits(t)) by {
            assert forall|i: int| 0 <= i < t.len() implies is_digit(#[trigger] t[i]) by {
                assert(t[i] == s[i]);
            }
        }
        lemma_digits_prefix(t, k);
        assert(t.subrange(0, k) =~= s.subrange(0, k));
    } else {
        assert(s.subrange(0, k) =~= s);
    }
}

/// `u64_of_text` computed: reads a number's text as an unsigned integer.
pub fn u64_of_number_text(t: &str) -> (r: Option<u64>)
    ensures
        r == u64_of_text(t@),
{
    let n = t.unicode_len();
    if n == 0 {
        return None;
    }
    let mut acc: u64 = 0;
    let mut i: usize = 0;
    while i < n
        invariant
            n == t@.len(),
            i <= n,
            all_digits(t@.subrange(0, i as int)),
            acc as nat == digits_value(t@.subrange(0, i as int)),
        decreases n - i,
    {
        let c = t.get_char(i);
        let ghost pre = t@.subrange(0, i as int);
        let ghost next = t@.subrange(0, i + 1);
        proof {
            assert(next.drop_last() =~= pre);
            assert(next.last() == c);
        }
        if !('0' <= c && c <= '9') {
            assert(!all_digits(t@)) by {
                assert(t@[i as int] == c);
            }
            return None;
        }
        let d = (c as u32 - '0' as u32) as u64;
        if acc > (u64::MAX - d) / 10 {
            proof {
                assert(acc * 10 + d > u64::MAX) by (nonlinear_arith)
                    requires acc > (u64::MAX - d) / 10, d <= 9;
                if all_digits(t@) {
                    lemma_digits_prefix(t@, i + 1);
                }
            }
            return None;
        }
        proof {
            assert(acc * 10 + d <= u64::MAX) by (nonlinear_arith)
                requires acc <= (u64::MAX - d) / 10, d <= 9;
            assert(all_digits(next)) by {
                assert forall|k: int| 0 <= k < next.len() implies is_digit(#[trigger] next[k]) by {
                    if k < i {
                        assert(next[k] == pre[k]);
                    }
                }
            }
        }
        acc = acc * 10 + d;
        i = i + 1;
    }
    assert(t@.subrange(0, n as int) =~= t@);
    Some(acc)
}

/// The decimal digits of `n`, without leading zeros.
pub fn decimal_text(n: u64) -> (r: String)
    ensures
        r@ == decimal(n as nat),
    decreases n,
{
    let d = (n % 10) as usize;
    proof {
        reveal_strlit("0123456789");
    }
    let digit = "0123456789".substring_char(d, d + 1);
    proof {
        assert(digit@ =~= seq!["0123456789"@[d as int]]);
        assert("0123456789"@[d as int] == digit_char(d as nat)) by {
            assert(d < 10);
            if d == 0 {} else if d == 1 {} else if d == 2 {} else if d == 3 {} else if d == 4 {}
            else if d == 5 {} else if d == 6 {} else if d == 7 {} else if d == 8 {} else {}
        }
    }
    if n < 10 {
        String::from_str(digit)
    } else {
        let mut s = decimal_text(n / 10);
        s.append(digit);
        s
    }
}

/// Compares two texts character by character.
pub fn text_eq(a: &str, b: &str) -> (r: bool)
    ensures
        r == (a@ == b@),
{
    let n = a.unicode_len();
    if n != b.unicode_len() {
        return false;
    }
    let mut i: usize = 0;
    while i < n
        invariant
            n == a@.len(),
            n == b@.len(),
            i <= n,
            forall|k: int| 0 <= k < i ==> a@[k] == b@[k],
        decreases n - i,
    {
        if a.get_char(i) != b.get_char(i) {
            return false;
        }
        i = i + 1;
    }
    assert(a@ =~= b@);
    true
}

impl Json {
    /// The member named `key`, where `self` is an object.
    pub fn get(&self, key: &str) -> (r: Option<&Json>)
        ensures
            match r {
                Some(v) => field(*self, key@) == Some(*v),
                None => field(*self, key@) is None,
            },
    {
        match self {
            Json::Object(entries) => {
                let mut i: usize = 0;
                assert(entries@.subrange(0, entries@.len() as int) =~= entries@);
                while i < entries.len()
                    invariant
                        i <= entries@.len(),
                        field(*self, key@) == member(entries@, key@),
                        member(entries@, key@) == member(entries@.subrange(i as int, entries@.len() as int), key@),
                    decreases entries@.len() - i,
                {
                    let ghost rest = entries@.subrange(i as int, entries@.len() as int);
                    assert(rest.drop_first() =~= entries@.subrange(i + 1, entries@.len() as int));
                    assert(rest[0] == entries@[i as int]);
                    if text_eq(entries[i].0.as_str(), key) {
                        assert(member(rest, key@) == Some(entries@[i as int].1));
                        return Some(&entries[i].1);
                    }
                    i = i + 1;
                }
                assert(entries@.subrange(i as int, entries@.len() as int) =~= Seq::<(String, Json)>::empty());
                None
            },
            _ => None,
        }
    }

    /// The compact JSON text of the tree, as serde_json writes it.
    pub fn to_text(&self) -> (r: String)
        ensures
            r@ == json_text(*self),
    {
        write_json(self)
    }

    /// Parses JSON text; `None` where it is not JSON.
    pub fn parse(text: &str) -> (r: Option<Json>)
        ensures
            r == json_parse(text@),
    {
        parse_json(text)
    }

    /// A string value.
    pub fn text(s: &str) -> (r: Json)
        ensures
            is_text(r, s@),
    {
        Json::Str(String::from_str(s))
    }

    /// A number value holding an unsigned integer.
    pub fn number(n: u64) -> (r: Json)
        ensures
            is_number(r, n as nat),
    {
        Json::Number(decimal_text(n))
    }

    /// The unsigned integer held by a number value.
    pub fn as_u64(&self) -> (r: Option<u64>)
        ensures
            r == u64_of(Some(*self)),
    {
        match self {
            Json::Number(t) => u64_of_number_text(t.as_str()),
            _ => None,
        }
    }

    /// The decimal text of a number value.
    pub fn as_number_text(&self) -> (r: Option<&String>)
        ensures
            match r {
                Some(s) => number_text_of(Some(*self)) == Some(s@),
                None => number_text_of(Some(*self)) is None,
            },
    {
        match self {
            Json::Number(t) => Some(t),
            _ => None,
        }
    }

    /// The text of a string value.
    pub fn as_text(&self) -> (r: Option<&String>)
        ensures
            match r {
                Some(s) => text_of(Some(*self)) == Some(s@),
                None => text_of(Some(*self)) is None,
            },
    {
        match self {
            Json::Str(s) => Some(s),
            _ => None,
        }
    }
}

} // verus!
