use vstd::prelude::*;

use crate::error::AttendanceError;

verus! {

/// An attendee identifier after classification: frosh are keyed by number,
/// members by handle. Every caller, on writes and on reads, goes through
/// [`classify`], so a key always lands in the same population.
#[derive(Clone, Debug)]
pub enum Attendee {
    Frosh(i32),
    Member(String),
}

/// What an [`Attendee`] denotes.
pub enum AttendeeKey {
    Frosh(i32),
    Member(Seq<char>),
}

impl View for Attendee {
    type V = AttendeeKey;

    open spec fn view(&self) -> AttendeeKey {
        match self {
            Attendee::Frosh(n) => AttendeeKey::Frosh(*n),
            Attendee::Member(h) => AttendeeKey::Member(h@),
        }
    }
}

pub open spec fn is_digit(c: char) -> bool {
    '0' <= c && c <= '9'
}

pub open spec fn all_digits(s: Seq<char>) -> bool {
    forall|i: int| 0 <= i < s.len() ==> is_digit(#[trigger] s[i])
}

pub open spec fn digit_value(c: char) -> int {
    c as int - '0' as int
}

/// The number that a string of decimal digits writes.
pub open spec fn decimal_value(s: Seq<char>) -> int
    decreases s.len(),
{
    if s.len() == 0 {
        0
    } else {
        decimal_value(s.drop_last()) * 10 + digit_value(s.last())
    }
}

/// Whether a character is numeric in Unicode's sense (general categories
/// Nd, Nl and No): the ten ASCII digits, and digits and numerals of other scripts.
pub uninterp spec fn numeric_of(c: char) -> bool;

/// Relies on `char::is_numeric`: the Unicode numeric test, of which the ASCII
/// digits pass.
#[verifier::external_body]
fn is_numeric(c: char) -> (r: bool)
    ensures
        r == numeric_of(c),
        ('0' <= c && c <= '9') ==> r,
{
    c.is_numeric()
}

/// The population an identifier routes to, or `None` where it is invalid:
/// empty, or starting with a numeric character without reading as an `i32`.
pub open spec fn classify_spec(s: Seq<char>) -> Option<AttendeeKey> {
    if s.len() == 0 {
        None
    } else if numeric_of(s[0]) {
        match int_spec(s) {
            Some(n) => Some(AttendeeKey::Frosh(n)),
            None => None,
        }
    } else {
        Some(AttendeeKey::Member(s))
    }
}

proof fn lemma_decimal_value_nonneg(s: Seq<char>)
    requires
        all_digits(s),
    ensures
        decimal_value(s) >= 0,
    decreases s.len(),
{
    if s.len() > 0 {
        lemma_decimal_value_nonneg(s.drop_last());
    }
}

/// A prefix of a digit string never writes a larger number.
proof fn lemma_prefix_value_le(s: Seq<char>, k: int)
    requires
        all_digits(s),
        0 <= k <= s.len(),
    ensures
        decimal_value(s.subrange(0, k)) <= decimal_value(s),
    decreases s.len(),
{
    if k < s.len() {
        let t = s.drop_last();
        assert(t.subrange(0, k) =~= s.subrange(0, k));
        lemma_prefix_value_le(t, k);
        lemma_decimal_value_nonneg(t);
    } else {
        assert(s.subrange(0, k) =~= s);
    }
}

/// The number that `s` writes, where `s` is a non-empty string of decimal
/// digits whose value is at most `limit`.
pub open spec fn magnitude_spec(s: Seq<char>, limit: int) -> Option<int> {
    if s.len() > 0 && all_digits(s) && decimal_value(s) <= limit {
        Some(decimal_value(s))
    } else {
        None
    }
}

/// The `i32` that `s` writes in decimal: an optional `+` or `-`, then at least
/// one ASCII digit, with the value in `i32`'s range.
pub open spec fn int_spec(s: Seq<char>) -> Option<i32> {
    if s.len() > 0 && s[0] == '-' {
        match magnitude_spec(s.drop_first(), i32::MAX + 1) {
            Some(m) => Some((-m) as i32),
            None => None,
        }
    } else if s.len() > 0 && s[0] == '+' {
        match magnitude_spec(s.drop_first(), i32::MAX as int) {
            Some(m) => Some(m as i32),
            None => None,
        }
    } else {
        match magnitude_spec(s, i32::MAX as int) {
            Some(m) => Some(m as i32),
            None => None,
        }
    }
}

fn parse_magnitude(s: &str, limit: i64) -> (r: Option<i64>)
    requires
        0 <= limit <= i32::MAX + 1,
    ensures
        match magnitude_spec(s@, limit as int) {
            Some(m) => r is Some && m == r->Some_0 as int,
            None => r is None,
        },
        r matches Some(x) ==> 0 <= x <= limit,
{
    let n = s.unicode_len();
    if n == 0 {
        return None;
    }
    let ghost v = s@;
    let mut acc: i64 = 0;
    let mut i: usize = 0;
    while i < n
        invariant
            n == v.len(),
            v == s@,
            v.len() > 0,
            0 <= limit <= i32::MAX + 1,
            0 <= i <= n,
            all_digits(v.subrange(0, i as int)),
            acc as int == decimal_value(v.subrange(0, i as int)),
            0 <= acc <= limit,
        decreases n - i,
    {
        let c = s.get_char(i);
        if !('0' <= c && c <= '9') {
            assert(!is_digit(v[i as int]));
            assert(!all_digits(v));
            return None;
        }
        let next = acc * 10 + (c as u32 - '0' as u32) as i64;
        proof {
            let p = v.subrange(0, i as int + 1);
            assert(p.drop_last() =~= v.subrange(0, i as int));
            assert(p.last() == c);
            assert(decimal_value(p) == next as int);
            assert(all_digits(p));
        }
        if next > limit {
            proof {
                if all_digits(v) {
                    lemma_prefix_value_le(v, i as int + 1);
                    assert(decimal_value(v) > limit);
                }
            }
            return None;
        }
        acc = next;
        i = i + 1;
    }
    assert(v.subrange(0, n as int) =~= v);
    Some(acc)
}

/// Reads an `i32` written in decimal, with an optional leading `+` or `-`.
pub fn parse_int(s: &str) -> (r: Option<i32>)
    ensures
        r == int_spec(s@),
{
    let n = s.unicode_len();
    if n > 0 {
        let first = s.get_char(0);
        if first == '-' || first == '+' {
            let rest = s.substring_char(1, n);
            assert(rest@ =~= s@.drop_first());
            if first == '-' {
                return match parse_magnitude(rest, 2147483648) {
                    Some(m) => Some((-m) as i32),
                    None => None,
                };
            } else {
                return match parse_magnitude(rest, 2147483647) {
                    Some(m) => Some(m as i32),
                    None => None,
                };
            }
        }
    }
    match parse_magnitude(s, 2147483647) {
        Some(m) => Some(m as i32),
        None => None,
    }
}

/// Classifies an attendee identifier: one that starts with a numeric character
/// names a frosh and must read as an `i32`; any other non-empty one is a member
/// handle.
pub fn classify(identifier: &str) -> (r: Result<Attendee, AttendanceError>)
    ensures
        match classify_spec(identifier@) {
            None => r == Err::<Attendee, AttendanceError>(AttendanceError::InvalidIdentifier),
            Some(key) => r is Ok && r->Ok_0@ == key,
        },
{
    if identifier.unicode_len() == 0 {
        return Err(AttendanceError::InvalidIdentifier);
    }
    let first = identifier.get_char(0);
    if !is_numeric(first) {
        return Ok(Attendee::Member(identifier.to_owned()));
    }
    match parse_int(identifier) {
        Some(n) => Ok(Attendee::Frosh(n)),
        None => Err(AttendanceError::InvalidIdentifier),
    }
}

/// The frosh ids among a list of identifiers, in list order.
pub open spec fn frosh_ids(names: Seq<Seq<char>>) -> Seq<i32>
    decreases names.len(),
{
    if names.len() == 0 {
        Seq::empty()
    } else {
        let prev = frosh_ids(names.drop_last());
        match classify_spec(names.last()) {
            Some(AttendeeKey::Frosh(n)) => prev.push(n),
            _ => prev,
        }
    }
}

/// The member handles among a list of identifiers, in list order.
pub open spec fn member_names(names: Seq<String>) -> Seq<String>
    decreases names.len(),
{
    if names.len() == 0 {
        Seq::empty()
    } else {
        let prev = member_names(names.drop_last());
        match classify_spec(names.last()@) {
            Some(AttendeeKey::Member(_)) => prev.push(names.last()),
            _ => prev,
        }
    }
}

pub open spec fn string_views(names: Seq<String>) -> Seq<Seq<char>> {
    names.map_values(|s: String| s@)
}

/// Sorts a list of identifiers into frosh ids and member handles, keeping
/// their order; the whole list is refused if one of them is invalid.
pub fn split_attendees(names: &Vec<String>) -> (r: Result<(Vec<i32>, Vec<String>), AttendanceError>)
    ensures
        r is Ok <==> forall|i: int| 0 <= i < names@.len() ==> (#[trigger] classify_spec(names@[i]@)) is Some,
        r is Err ==> r == Err::<(Vec<i32>, Vec<String>), AttendanceError>(AttendanceError::InvalidIdentifier),
        r matches Ok((fr, mem)) ==> fr@ == frosh_ids(string_views(names@)) && mem@
            == member_names(names@),
{
    let mut fr: Vec<i32> = Vec::new();
    let mut mem: Vec<String> = Vec::new();
    let mut i: usize = 0;
    while i < names.len()
        invariant
            0 <= i <= names@.len(),
            forall|k: int| 0 <= k < i ==> (#[trigger] classify_spec(names@[k]@)) is Some,
            fr@ == frosh_ids(string_views(names@.subrange(0, i as int))),
            mem@ == member_names(names@.subrange(0, i as int)),
        decreases names.len() - i,
    {
        let ghost sub = string_views(names@.subrange(0, i as int + 1));
        proof {
            assert(sub.drop_last() =~= string_views(names@.subrange(0, i as int)));
            assert(sub.last() == names@[i as int]@);
            let raw = names@.subrange(0, i as int + 1);
            assert(raw.drop_last() =~= names@.subrange(0, i as int));
        }
        match classify(names[i].as_str()) {
            Ok(Attendee::Frosh(n)) => {
                fr.push(n);
            },
            Ok(Attendee::Member(_)) => {
                mem.push(names[i].clone());
            },
            Err(e) => {
                return Err(e);
            },
        }
        i = i + 1;
    }
    assert(names@.subrange(0, i as int) =~= names@);
    Ok((fr, mem))
}

/// An identifier names a frosh exactly when it is non-empty, its first
/// character is numeric and it reads as an `i32`; one whose first character is
/// not numeric names a member; the empty one names nobody. ASCII digits are
/// numeric.
pub proof fn lemma_classification(s: Seq<char>, n: i32)
    ensures
        classify_spec(s) == Some(AttendeeKey::Frosh(n)) <==> (s.len() > 0 && numeric_of(s[0])
            && int_spec(s) == Some(n)),
        s.len() > 0 && numeric_of(s[0]) ==> !(classify_spec(s) matches Some(
            AttendeeKey::Member(_),
        )),
        s.len() > 0 && !numeric_of(s[0]) ==> classify_spec(s) == Some(AttendeeKey::Member(s)),
        s.len() == 0 ==> classify_spec(s) is None,
{
}

} // verus!
