//! The version grammar and the order on versions.
//!
//! A version is a text of one or more segments separated by `.`. A segment
//! is an optional `+` followed by one or more decimal digits whose value
//! fits in 64 bits. Versions are ordered by their segment values, position
//! by position from the left; where one version is a proper prefix of the
//! other, the shorter one is the smaller (`1.2` comes before `1.2.0`).

use std::cmp::Ordering;
use vstd::prelude::*;
use crate::text::{chars_of, find_from, first_index, lemma_first_index, same_chars};

verus! {

/// The outcome of comparing two version texts.
#[derive(Clone, Copy, Debug, PartialEq, Eq, Structural)]
pub enum VersionOrdering {
    Less,
    Equal,
    Greater,
    /// The two texts differ and at least one of them is no version.
    Incomparable,
}

/// `c` is one of the decimal digits `0` to `9`.
pub open spec fn is_digit(c: char) -> bool {
    '0' <= c && c <= '9'
}

/// The number that a decimal digit denotes.
pub open spec fn digit_value(c: char) -> nat {
    (c as u32 - '0' as u32) as nat
}

/// Every character of `s` is a decimal digit.
pub open spec fn all_digits(s: Seq<char>) -> bool {
    forall|i: int| 0 <= i < s.len() ==> is_digit(#[trigger] s[i])
}

/// The number that a run of decimal digits denotes.
pub open spec fn digits_value(s: Seq<char>) -> nat
    decreases s.len(),
{
    if s.len() == 0 {
        0
    } else {
        digits_value(s.drop_last()) * 10 + digit_value(s.last())
    }
}

/// A segment without its optional leading `+`.
pub open spec fn segment_digits(s: Seq<char>) -> Seq<char> {
    if s.len() > 0 && s[0] == '+' {
        s.skip(1)
    } else {
        s
    }
}

/// The value of a segment, or `None` where the text is no segment.
pub open spec fn segment_value(s: Seq<char>) -> Option<nat> {
    let d = segment_digits(s);
    if d.len() > 0 && all_digits(d) && digits_value(d) <= u64::MAX {
        Some(digits_value(d))
    } else {
        None
    }
}

/// The pieces of `s` between its dots. A text without a dot is one piece.
pub open spec fn dot_segments(s: Seq<char>) -> Seq<Seq<char>>
    decreases s.len(),
{
    let e = first_index(s, '.');
    if e < 0 || e >= s.len() {
        seq![s]
    } else {
        seq![s.take(e)] + dot_segments(s.skip(e + 1))
    }
}

/// `s` is a version: each of its dot-separated pieces is a segment.
pub open spec fn is_valid_version(s: Seq<char>) -> bool {
    forall|i: int|
        0 <= i < dot_segments(s).len() ==> (#[trigger] segment_value(dot_segments(s)[i])) is Some
}

/// The value that `v` holds, or 0 where it holds none.
pub open spec fn value_or_zero(v: Option<nat>) -> nat {
    match v {
        Some(n) => n,
        None => 0,
    }
}

/// The segment values of a version, from the left.
pub open spec fn version_numbers(s: Seq<char>) -> Seq<nat> {
    Seq::new(dot_segments(s).len(), |i: int| value_or_zero(segment_value(dot_segments(s)[i])))
}

/// The order on sequences of segment values: the first position where they
/// differ decides, and a proper prefix comes first.
pub open spec fn lex_order(a: Seq<nat>, b: Seq<nat>) -> VersionOrdering
    decreases a.len(),
{
    if a.len() == 0 && b.len() == 0 {
        VersionOrdering::Equal
    } else if a.len() == 0 {
        VersionOrdering::Less
    } else if b.len() == 0 {
        VersionOrdering::Greater
    } else if a[0] < b[0] {
        VersionOrdering::Less
    } else if a[0] > b[0] {
        VersionOrdering::Greater
    } else {
        lex_order(a.skip(1), b.skip(1))
    }
}

/// What `compare` returns on two texts.
pub open spec fn compare_spec(a: Seq<char>, b: Seq<char>) -> VersionOrdering {
    if is_valid_version(a) && is_valid_version(b) {
        lex_order(version_numbers(a), version_numbers(b))
    } else if a == b {
        VersionOrdering::Equal
    } else {
        VersionOrdering::Incomparable
    }
}

/// Whether moving from `current` to `latest` is an upgrade: between two
/// versions, `latest` must be the greater; otherwise any difference counts.
pub open spec fn upgrade_needed(current: Seq<char>, latest: Seq<char>) -> bool {
    compare_spec(current, latest) == VersionOrdering::Less || compare_spec(current, latest)
        == VersionOrdering::Incomparable
}

/// The same order with its two sides exchanged.
pub open spec fn reversed(o: VersionOrdering) -> VersionOrdering {
    match o {
        VersionOrdering::Less => VersionOrdering::Greater,
        VersionOrdering::Greater => VersionOrdering::Less,
        VersionOrdering::Equal => VersionOrdering::Equal,
        VersionOrdering::Incomparable => VersionOrdering::Incomparable,
    }
}

/// The numbers of a vector as mathematical values.
pub open spec fn numbers_of(v: Seq<u64>) -> Seq<nat> {
    Seq::new(v.len(), |i: int| v[i] as nat)
}



/// A longer run of digits denotes at least as much as any of its prefixes.
pub proof fn lemma_digits_value_grows(s: Seq<char>, k: int)
    requires
        0 <= k <= s.len(),
    ensures
        digits_value(s.take(k)) <= digits_value(s),
    decreases s.len() - k,
{
    if k == s.len() {
        assert(s.take(k) =~= s);
    } else {
        lemma_digits_value_grows(s, k + 1);
        assert(s.take(k + 1).drop_last() =~= s.take(k));
    }
}

/// Splitting at the first dot: the pieces of `s` are the text before that
/// dot followed by the pieces of what stands after it.
pub proof fn lemma_dot_segments_step(s: Seq<char>, e: int)
    requires
        e == first_index(s, '.'),
    ensures
        0 <= e <= s.len(),
        e == s.len() ==> dot_segments(s) == seq![s],
        e < s.len() ==> dot_segments(s) == seq![s.take(e)] + dot_segments(s.skip(e + 1)),
{
    lemma_first_index(s, '.');
}

/// Reads the run of decimal digits that stands in `v` from `from` up to
/// `to`; `None` where that text is empty, holds another character or
/// denotes more than 64 bits hold.
pub fn parse_digits(v: &Vec<char>, from: usize, to: usize) -> (r: Option<u64>)
    requires
        from <= to <= v@.len(),
    ensures
        ({
            let d = v@.subrange(from as int, to as int);
            match r {
                Some(x) => d.len() > 0 && all_digits(d) && digits_value(d) == x,
                None => !(d.len() > 0 && all_digits(d) && digits_value(d) <= u64::MAX),
            }
        }),
{
    let ghost d = v@.subrange(from as int, to as int);
    if from == to {
        return None;
    }
    let mut acc: u64 = 0;
    let mut i: usize = from;
    while i < to
        invariant
            from <= i <= to,
            to <= v@.len(),
            d == v@.subrange(from as int, to as int),
            all_digits(d.take(i - from)),
            acc == digits_value(d.take(i - from)),
        decreases to - i,
    {
        let c = v[i];
        assert(d[i - from] == c);
        if c < '0' || c > '9' {
            assert(!is_digit(d[i - from]));
            return None;
        }
        let digit: u64 = (c as u32 - '0' as u32) as u64;
        let ghost next = d.take(i - from + 1);
        assert(next.drop_last() =~= d.take(i - from));
        assert(next.last() == c);
        assert(digits_value(next) == acc * 10 + digit);
        if acc > (u64::MAX - digit) / 10 {
            proof {
                if all_digits(d) {
                    lemma_digits_value_grows(d, i - from + 1);
                }
            }
            return None;
        }
        acc = acc * 10 + digit;
        i += 1;
    }
    assert(d.take(to - from) =~= d);
    Some(acc)
}

/// Reads the segment that stands in `v` from `from` up to `to`.
fn parse_segment(v: &Vec<char>, from: usize, to: usize) -> (r: Option<u64>)
    requires
        from <= to <= v@.len(),
    ensures
        match r {
            Some(x) => segment_value(v@.subrange(from as int, to as int)) == Some(x as nat),
            None => segment_value(v@.subrange(from as int, to as int)) is None,
        },
{
    let start: usize = if from < to && v[from] == '+' {
        from + 1
    } else {
        from
    };
    assert(segment_digits(v@.subrange(from as int, to as int)) =~= v@.subrange(
        start as int,
        to as int,
    ));
    parse_digits(v, start, to)
}

/// Reads a version into its segment values; `None` where the text is no
/// version.
pub fn parse_version(v: &Vec<char>) -> (r: Option<Vec<u64>>)
    ensures
        r is Some <==> is_valid_version(v@),
        r is Some ==> numbers_of(r->0@) == version_numbers(v@),
{
    let mut out: Vec<u64> = Vec::new();
    let mut pos: usize = 0;
    let ghost mut done: Seq<Seq<char>> = Seq::empty();
    assert(v@.skip(0) =~= v@);
    loop
        invariant
            pos <= v@.len(),
            dot_segments(v@) == done + dot_segments(v@.skip(pos as int)),
            out@.len() == done.len(),
            forall|i: int| 0 <= i < done.len() ==> segment_value(done[i]) == Some(out@[i] as nat),
        decreases v@.len() - pos,
    {
        let e = find_from(v, pos, '.');
        let ghost rest = v@.skip(pos as int);
        proof {
            lemma_dot_segments_step(rest, e - pos);
            assert(rest.take(e - pos) =~= v@.subrange(pos as int, e as int));
            if e == v@.len() {
                assert(rest =~= v@.subrange(pos as int, e as int));
            } else {
                assert(rest.skip(e - pos + 1) =~= v@.skip(e + 1));
            }
        }
        let ghost seg = v@.subrange(pos as int, e as int);
        assert(dot_segments(rest)[0] == seg);
        assert(dot_segments(v@)[done.len() as int] == seg);
        match parse_segment(v, pos, e) {
            None => {
                return None;
            },
            Some(x) => {
                out.push(x);
                proof {
                    done = done.push(seg);
                }
            },
        }
        if e == v.len() {
            proof {
                assert(dot_segments(v@) =~= done);
                assert forall|i: int| 0 <= i < dot_segments(v@).len() implies (
                #[trigger] segment_value(dot_segments(v@)[i])) is Some by {}
                assert(numbers_of(out@) =~= version_numbers(v@));
            }
            return Some(out);
        }
        assert(dot_segments(v@) =~= done + dot_segments(v@.skip(e + 1)));
        pos = e + 1;
    }
}

/// Whether `version` is a version: dot-separated segments, each an
/// optional `+` and decimal digits with a value that fits in 64 bits.
pub fn is_semver(version: &str) -> (r: bool)
    ensures
        r == is_valid_version(version@),
{
    let v = chars_of(version);
    parse_version(&v).is_some()
}


/// Exchanging the two sides reverses the order.
pub proof fn lemma_lex_order_reversed(a: Seq<nat>, b: Seq<nat>)
    ensures
        lex_order(b, a) == reversed(lex_order(a, b)),
        lex_order(a, b) != VersionOrdering::Incomparable,
    decreases a.len(),
{
    if a.len() > 0 && b.len() > 0 && a[0] == b[0] {
        lemma_lex_order_reversed(a.skip(1), b.skip(1));
    }
}

/// Two sequences compare as equal exactly when they are the same sequence.
pub proof fn lemma_lex_order_equal(a: Seq<nat>, b: Seq<nat>)
    ensures
        lex_order(a, b) == VersionOrdering::Equal <==> a == b,
    decreases a.len(),
{
    if a.len() > 0 && b.len() > 0 && a[0] == b[0] {
        lemma_lex_order_equal(a.skip(1), b.skip(1));
        if a.skip(1) == b.skip(1) {
            assert forall|i: int| 0 <= i < a.len() implies a[i] == b[i] by {
                if i > 0 {
                    assert(a[i] == a.skip(1)[i - 1]);
                    assert(b[i] == b.skip(1)[i - 1]);
                }
            }
            assert(a.len() == a.skip(1).len() + 1);
            assert(b.len() == b.skip(1).len() + 1);
            assert(a =~= b);
        }
    } else if a.len() == 0 && b.len() == 0 {
        assert(a =~= b);
    }
}

/// The order is transitive: from `a` not above `b` and `b` not above `c`
/// follows `a` not above `c`, and `a` is below `c` as soon as one of the two
/// steps is strict.
pub proof fn lemma_lex_order_transitive(a: Seq<nat>, b: Seq<nat>, c: Seq<nat>)
    requires
        lex_order(a, b) != VersionOrdering::Greater,
        lex_order(b, c) != VersionOrdering::Greater,
    ensures
        lex_order(a, c) != VersionOrdering::Greater,
        lex_order(a, c) != VersionOrdering::Incomparable,
        lex_order(a, b) == VersionOrdering::Less || lex_order(b, c) == VersionOrdering::Less
            ==> lex_order(a, c) == VersionOrdering::Less,
        lex_order(a, b) == VersionOrdering::Equal && lex_order(b, c) == VersionOrdering::Equal
            ==> lex_order(a, c) == VersionOrdering::Equal,
    decreases a.len(),
{
    lemma_lex_order_reversed(a, b);
    lemma_lex_order_reversed(b, c);
    lemma_lex_order_reversed(a, c);
    if a.len() > 0 && b.len() > 0 && c.len() > 0 && a[0] == b[0] && b[0] == c[0] {
        lemma_lex_order_transitive(a.skip(1), b.skip(1), c.skip(1));
    }
}

/// Compares two vectors of segment values.
pub fn compare_numbers(a: &Vec<u64>, b: &Vec<u64>) -> (r: VersionOrdering)
    ensures
        r == lex_order(numbers_of(a@), numbers_of(b@)),
{
    let ghost x = numbers_of(a@);
    let ghost y = numbers_of(b@);
    let mut i: usize = 0;
    assert(x.skip(0) =~= x);
    assert(y.skip(0) =~= y);
    loop
        invariant
            i <= a@.len(),
            i <= b@.len(),
            x == numbers_of(a@),
            y == numbers_of(b@),
            lex_order(x, y) == lex_order(x.skip(i as int), y.skip(i as int)),
        decreases a@.len() - i,
    {
        if i == a.len() && i == b.len() {
            return VersionOrdering::Equal;
        } else if i == a.len() {
            return VersionOrdering::Less;
        } else if i == b.len() {
            return VersionOrdering::Greater;
        }
        assert(x.skip(i as int)[0] == a@[i as int]);
        assert(y.skip(i as int)[0] == b@[i as int]);
        if a[i] < b[i] {
            return VersionOrdering::Less;
        } else if a[i] > b[i] {
            return VersionOrdering::Greater;
        }
        assert(x.skip(i as int).skip(1) =~= x.skip(i + 1));
        assert(y.skip(i as int).skip(1) =~= y.skip(i + 1));
        i += 1;
    }
}

/// Orders two versions by their segment values.
pub fn compare_semver(a: &str, b: &str) -> (r: Ordering)
    requires
        is_valid_version(a@),
        is_valid_version(b@),
    ensures
        match r {
            Ordering::Less => compare_spec(a@, b@) == VersionOrdering::Less,
            Ordering::Equal => compare_spec(a@, b@) == VersionOrdering::Equal,
            Ordering::Greater => compare_spec(a@, b@) == VersionOrdering::Greater,
        },
{
    match compare(a, b) {
        VersionOrdering::Less => Ordering::Less,
        VersionOrdering::Greater => Ordering::Greater,
        _ => {
            proof {
                lemma_lex_order_reversed(version_numbers(a@), version_numbers(b@));
            }
            Ordering::Equal
        },
    }
}

/// Compares two texts: as versions where both are versions, and otherwise
/// only for being the same text.
pub fn compare(a: &str, b: &str) -> (r: VersionOrdering)
    ensures
        r == compare_spec(a@, b@),
{
    let x = chars_of(a);
    let y = chars_of(b);
    let p = parse_version(&x);
    let q = parse_version(&y);
    match (p, q) {
        (Some(m), Some(n)) => {
            compare_numbers(&m, &n)
        },
        _ => {
            if same_chars(&x, &y) {
                VersionOrdering::Equal
            } else {
                VersionOrdering::Incomparable
            }
        },
    }
}

/// Whether `latest_version` calls for an upgrade from `current_version`.
pub fn compare_versions(current_version: &str, latest_version: &str) -> (r: bool)
    ensures
        r == upgrade_needed(current_version@, latest_version@),
{
    match compare(current_version, latest_version) {
        VersionOrdering::Less => true,
        VersionOrdering::Incomparable => true,
        _ => false,
    }
}

/// Comparing `b` with `a` gives the reverse of comparing `a` with `b`.
pub proof fn law_compare_antisymmetric(a: Seq<char>, b: Seq<char>)
    ensures
        compare_spec(b, a) == reversed(compare_spec(a, b)),
{
    lemma_lex_order_reversed(version_numbers(a), version_numbers(b));
}

/// On versions the order is transitive, and no two versions are
/// incomparable.
pub proof fn law_compare_transitive(a: Seq<char>, b: Seq<char>, c: Seq<char>)
    requires
        is_valid_version(a),
        is_valid_version(b),
        is_valid_version(c),
        compare_spec(a, b) != VersionOrdering::Greater,
        compare_spec(b, c) != VersionOrdering::Greater,
    ensures
        compare_spec(a, c) != VersionOrdering::Greater,
        compare_spec(a, c) != VersionOrdering::Incomparable,
        compare_spec(a, b) == VersionOrdering::Less || compare_spec(b, c) == VersionOrdering::Less
            ==> compare_spec(a, c) == VersionOrdering::Less,
        compare_spec(a, b) == VersionOrdering::Equal && compare_spec(b, c)
            == VersionOrdering::Equal ==> compare_spec(a, c) == VersionOrdering::Equal,
{
    lemma_lex_order_transitive(version_numbers(a), version_numbers(b), version_numbers(c));
}

/// Any two versions are comparable.
pub proof fn law_compare_total(a: Seq<char>, b: Seq<char>)
    requires
        is_valid_version(a),
        is_valid_version(b),
    ensures
        compare_spec(a, b) != VersionOrdering::Incomparable,
{
    lemma_lex_order_reversed(version_numbers(a), version_numbers(b));
}

/// Two versions compare as equal exactly when they have the same segment
/// values.
pub proof fn law_compare_equal(a: Seq<char>, b: Seq<char>)
    requires
        is_valid_version(a),
        is_valid_version(b),
    ensures
        compare_spec(a, b) == VersionOrdering::Equal <==> version_numbers(a) == version_numbers(b),
{
    lemma_lex_order_equal(version_numbers(a), version_numbers(b));
}

/// No text calls for an upgrade to itself.
pub proof fn law_no_upgrade_to_same(v: Seq<char>)
    ensures
        !upgrade_needed(v, v),
{
    lemma_lex_order_equal(version_numbers(v), version_numbers(v));
}

} // verus!
