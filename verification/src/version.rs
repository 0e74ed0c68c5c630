//! Version numbers and how they compare.
use crate::text::{
    blank, characters, equals, strip_leading, stripped, trim, trimmed, white_space, without_leading,
    without_trailing,
};
use vstd::prelude::*;

verus! {

/// Whether a character is a decimal digit of ASCII.
pub open spec fn digit(c: char) -> bool {
    '0' <= c <= '9'
}

/// The value of a decimal digit.
pub open spec fn digit_value(c: char) -> nat {
    (c as nat - '0' as nat) as nat
}

/// The longest beginning of `s` that consists of digits.
pub open spec fn leading_digits(s: Seq<char>) -> Seq<char>
    decreases s.len(),
{
    if s.len() > 0 && digit(s[0]) {
        seq![s[0]] + leading_digits(s.drop_first())
    } else {
        Seq::empty()
    }
}

/// The number that a sequence of digits writes down.
pub open spec fn decimal(digits: Seq<char>) -> nat
    decreases digits.len(),
{
    if digits.len() == 0 {
        0
    } else {
        10 * decimal(digits.drop_last()) + digit_value(digits.last())
    }
}

/// The number that one part of a version begins with; zero where it begins with
/// none, or with one that is too large for 64 bits.
pub open spec fn component(part: Seq<char>) -> u64 {
    let n = decimal(leading_digits(part));
    if n <= u64::MAX {
        n as u64
    } else {
        0
    }
}

/// The position of the first dot in `s`, its length where there is none.
pub open spec fn first_dot(s: Seq<char>) -> nat
    decreases s.len(),
{
    if s.len() == 0 || s[0] == '.' {
        0
    } else {
        1 + first_dot(s.drop_first())
    }
}

/// Part number `k`, from zero, of the parts that the dots of `s` divide it into;
/// empty where there is no such part.
pub open spec fn dotted_part(s: Seq<char>, k: nat) -> Seq<char>
    decreases k,
{
    let dot = first_dot(s);
    if k == 0 {
        s.subrange(0, dot as int)
    } else if dot < s.len() {
        dotted_part(s.skip(dot as int + 1), (k - 1) as nat)
    } else {
        Seq::empty()
    }
}

/// Major, minor and patch number of a version, read as leniently as can be: white
/// space around it, any `v` before it and whatever follows the digits of a part
/// are passed over, and a part that is missing counts as zero.
pub open spec fn semver(v: Seq<char>) -> (u64, u64, u64) {
    let s = stripped(trimmed(v), 'v');
    (
        component(dotted_part(s, 0)),
        component(dotted_part(s, 1)),
        component(dotted_part(s, 2)),
    )
}

/// Whether `a` comes after `b`, comparing number by number from the left.
pub open spec fn later(a: (u64, u64, u64), b: (u64, u64, u64)) -> bool {
    ||| a.0 > b.0
    ||| a.0 == b.0 && a.1 > b.1
    ||| a.0 == b.0 && a.1 == b.1 && a.2 > b.2
}

proof fn lemma_decimal_push(digits: Seq<char>, c: char)
    ensures
        decimal(digits.push(c)) == 10 * decimal(digits) + digit_value(c),
{
    assert(digits.push(c).drop_last() == digits);
}

/// The position of the first dot of `v` at or after `start`.
fn dot_from(v: &Vec<char>, start: usize) -> (end: usize)
    requires
        start <= v@.len(),
    ensures
        start <= end <= v@.len(),
        end == start + first_dot(v@.skip(start as int)),
{
    let mut end: usize = start;
    while end < v.len() && v[end] != '.'
        invariant
            start <= end <= v@.len(),
            start + first_dot(v@.skip(start as int)) == end + first_dot(v@.skip(end as int)),
        decreases v@.len() - end,
    {
        assert(v@.skip(end as int).drop_first() == v@.skip(end + 1));
        end += 1;
    }
    end
}

/// The number that the characters from `start` to `end` begin with.
fn component_in(v: &Vec<char>, start: usize, end: usize) -> (n: u64)
    requires
        start <= end <= v@.len(),
    ensures
        n == component(v@.subrange(start as int, end as int)),
{
    let ghost part = v@.subrange(start as int, end as int);
    let mut read: Option<u64> = Some(0);
    let mut i: usize = start;
    assert(part.skip(0) == part);
    assert(v@.subrange(start as int, start as int) + leading_digits(part) == leading_digits(part));
    while i < end && '0' <= v[i] && v[i] <= '9'
        invariant
            start <= i <= end <= v@.len(),
            part == v@.subrange(start as int, end as int),
            leading_digits(part) == v@.subrange(start as int, i as int) + leading_digits(
                part.skip(i - start),
            ),
            read matches Some(n) ==> n == decimal(v@.subrange(start as int, i as int)),
            read is None ==> decimal(v@.subrange(start as int, i as int)) > u64::MAX,
        decreases end - i,
    {
        let ghost before = v@.subrange(start as int, i as int);
        let c = v[i];
        let d: u64 = (c as u64) - 48;
        proof {
            let rest = part.skip(i - start);
            assert(rest[0] == c);
            assert(rest.drop_first() == part.skip(i + 1 - start));
            assert(v@.subrange(start as int, i + 1) == before.push(c));
            assert(before + leading_digits(rest) == before.push(c) + leading_digits(
                rest.drop_first(),
            ));
            lemma_decimal_push(before, c);
        }
        read = match read {
            Some(n) => match n.checked_mul(10) {
                Some(m) => m.checked_add(d),
                None => None,
            },
            None => None,
        };
        i += 1;
    }
    assert(leading_digits(part.skip(i - start)) == Seq::<char>::empty());
    assert(leading_digits(part) == v@.subrange(start as int, i as int));
    match read {
        Some(n) => n,
        None => 0,
    }
}

/// Major, minor and patch number of a version.
pub fn parse_semver(v: &str) -> (r: (u64, u64, u64))
    ensures
        r == semver(v@),
{
    let s = strip_leading(trim(v), 'v');
    let c = characters(s);
    assert(c@.skip(0) == c@);
    let end0 = dot_from(&c, 0);
    let major = component_in(&c, 0, end0);
    if end0 == c.len() {
        return (major, 0, 0);
    }
    let start1: usize = end0 + 1;
    let end1 = dot_from(&c, start1);
    let minor = component_in(&c, start1, end1);
    assert(c@.skip(start1 as int).subrange(0, end1 - start1) == c@.subrange(
        start1 as int,
        end1 as int,
    ));
    if end1 == c.len() {
        proof {
            reveal_with_fuel(dotted_part, 3);
        }
        return (major, minor, 0);
    }
    let start2: usize = end1 + 1;
    let end2 = dot_from(&c, start2);
    let patch = component_in(&c, start2, end2);
    proof {
        reveal_with_fuel(dotted_part, 3);
        assert(c@.skip(start1 as int).skip(end1 - start1 + 1) == c@.skip(start2 as int));
        assert(c@.skip(start2 as int).subrange(0, end2 - start2) == c@.subrange(
            start2 as int,
            end2 as int,
        ));
    }
    (major, minor, patch)
}

/// Whether the version `latest` comes after the version `current`.
pub fn is_newer(latest: &str, current: &str) -> (r: bool)
    ensures
        r == later(semver(latest@), semver(current@)),
{
    let a = parse_semver(latest);
    let b = parse_semver(current);
    if a.0 != b.0 {
        a.0 > b.0
    } else if a.1 != b.1 {
        a.1 > b.1
    } else {
        a.2 > b.2
    }
}

/// Versions are strictly ordered: none comes after itself, of two at most one
/// comes after the other, whatever comes after a later one comes after the
/// earlier one, and two that are not ordered have the same three numbers.
pub proof fn law_later_is_a_strict_order(
    a: (u64, u64, u64),
    b: (u64, u64, u64),
    c: (u64, u64, u64),
)
    ensures
        !later(a, a),
        later(a, b) ==> !later(b, a),
        later(a, b) && later(b, c) ==> later(a, c),
        !later(a, b) && !later(b, a) ==> a == b,
{
}

/// The digits at the beginning of a text are all of `digits` where that is what
/// the text begins with and no digit follows.
proof fn lemma_leading_digits(digits: Seq<char>, rest: Seq<char>)
    requires
        forall|i: int| 0 <= i < digits.len() ==> digit(#[trigger] digits[i]),
        rest.len() > 0 ==> !digit(rest[0]),
    ensures
        leading_digits(digits + rest) == digits,
    decreases digits.len(),
{
    let s = digits + rest;
    if digits.len() == 0 {
        assert(s == rest);
    } else {
        assert(s.drop_first() == digits.drop_first() + rest);
        assert(s[0] == digits[0]);
        lemma_leading_digits(digits.drop_first(), rest);
        assert(seq![s[0]] + digits.drop_first() == digits);
    }
}

/// The first dot comes after a beginning without dots.
proof fn lemma_first_dot(head: Seq<char>, rest: Seq<char>)
    requires
        forall|i: int| 0 <= i < head.len() ==> #[trigger] head[i] != '.',
    ensures
        first_dot(head + rest) == head.len() + first_dot(rest),
    decreases head.len(),
{
    let s = head + rest;
    if head.len() == 0 {
        assert(s == rest);
    } else {
        assert(s.drop_first() == head.drop_first() + rest);
        assert(s[0] == head[0]);
        lemma_first_dot(head.drop_first(), rest);
    }
}

/// Three numbers with dots between them are read as those numbers.
pub proof fn law_plain_version_is_read(a: Seq<char>, b: Seq<char>, c: Seq<char>)
    requires
        forall|i: int| 0 <= i < a.len() ==> digit(#[trigger] a[i]),
        forall|i: int| 0 <= i < b.len() ==> digit(#[trigger] b[i]),
        forall|i: int| 0 <= i < c.len() ==> digit(#[trigger] c[i]),
        decimal(a) <= u64::MAX,
        decimal(b) <= u64::MAX,
        decimal(c) <= u64::MAX,
    ensures
        semver(a + seq!['.'] + b + seq!['.'] + c) == (
            decimal(a) as u64,
            decimal(b) as u64,
            decimal(c) as u64,
        ),
{
    let none = Seq::<char>::empty();
    let s2 = c;
    let s1 = b + seq!['.'] + c;
    let s = a + seq!['.'] + b + seq!['.'] + c;
    assert(s[0] == if a.len() > 0 { a[0] } else { '.' });
    assert(s.last() == if c.len() > 0 { c.last() } else { '.' });
    assert(stripped(trimmed(s), 'v') == s);
    assert(s == a + (seq!['.'] + s1));
    lemma_first_dot(a, seq!['.'] + s1);
    assert(s.subrange(0, a.len() as int) == a);
    assert(s.skip(a.len() as int + 1) == s1);
    assert(s1 == b + (seq!['.'] + s2));
    lemma_first_dot(b, seq!['.'] + s2);
    assert(s1.subrange(0, b.len() as int) == b);
    assert(s1.skip(b.len() as int + 1) == s2);
    assert(c + none == c);
    lemma_first_dot(c, none);
    assert(s2.subrange(0, c.len() as int) == c);
    reveal_with_fuel(dotted_part, 3);
    assert(a + none == a && b + none == b);
    lemma_leading_digits(a, none);
    lemma_leading_digits(b, none);
    lemma_leading_digits(c, none);
}

/// Removing trailing characters does not see what is before a character that
/// stays.
proof fn lemma_without_trailing_after(head: Seq<char>, s: Seq<char>, drop: spec_fn(char) -> bool)
    requires
        head.len() > 0,
        !drop(head.last()),
    ensures
        without_trailing(head + s, drop) == head + without_trailing(s, drop),
    decreases s.len(),
{
    if s.len() == 0 {
        assert(head + s == head);
    } else {
        assert((head + s).last() == s.last());
        assert((head + s).drop_last() == head + s.drop_last());
        if drop(s.last()) {
            lemma_without_trailing_after(head, s.drop_last(), drop);
        }
    }
}

/// A `v` before a version makes no difference.
pub proof fn law_leading_v_is_passed_over(s: Seq<char>)
    requires
        s.len() > 0 ==> !white_space(s[0]),
    ensures
        semver(seq!['v'] + s) == semver(s),
{
    let v = seq!['v'];
    assert((v + s)[0] == 'v');
    lemma_without_trailing_after(v, s, blank());
    let t = without_trailing(s, blank());
    assert((v + t).drop_first() == t);
    assert((v + t)[0] == 'v');
}

/// Without its leading `v` a tag still reads as the same version.
pub proof fn law_tag_without_v_is_the_same_version(tag: Seq<char>)
    requires
        stripped(tag, 'v').len() > 0 ==> !white_space(stripped(tag, 'v')[0]),
    ensures
        semver(stripped(tag, 'v')) == semver(tag),
    decreases tag.len(),
{
    if tag.len() > 0 && tag[0] == 'v' {
        let rest = tag.drop_first();
        law_tag_without_v_is_the_same_version(rest);
        assert(seq!['v'] + rest == tag);
        law_leading_v_is_passed_over(rest);
    }
}

/// Where the characters that are removed at the beginning end.
pub proof fn lemma_leading_split(s: Seq<char>, drop: spec_fn(char) -> bool) -> (n: int)
    ensures
        0 <= n <= s.len(),
        without_leading(s, drop) == s.skip(n),
        forall|i: int| 0 <= i < n ==> drop(#[trigger] s[i]),
        n < s.len() ==> !drop(s[n]),
    decreases s.len(),
{
    if s.len() > 0 && drop(s[0]) {
        let m = lemma_leading_split(s.drop_first(), drop);
        assert(s.drop_first().skip(m) == s.skip(m + 1));
        assert forall|i: int| 0 <= i < m + 1 implies drop(#[trigger] s[i]) by {
            if i > 0 {
                assert(s[i] == s.drop_first()[i - 1]);
            }
        }
        m + 1
    } else {
        assert(s.skip(0) == s);
        0
    }
}

/// What stays when trailing characters are removed is a beginning that ends in
/// none of them.
proof fn lemma_without_trailing_is_prefix(s: Seq<char>, drop: spec_fn(char) -> bool)
    ensures
        without_trailing(s, drop).is_prefix_of(s),
        without_trailing(s, drop).len() > 0 ==> !drop(without_trailing(s, drop).last()),
    decreases s.len(),
{
    if s.len() > 0 && drop(s.last()) {
        lemma_without_trailing_is_prefix(s.drop_last(), drop);
    }
}

/// The second and the third part do not see what is before the first dot.
proof fn lemma_later_parts(head: Seq<char>, rest: Seq<char>)
    requires
        forall|i: int| 0 <= i < head.len() ==> #[trigger] head[i] != '.',
    ensures
        dotted_part(head + rest, 1) == dotted_part(rest, 1),
        dotted_part(head + rest, 2) == dotted_part(rest, 2),
{
    lemma_first_dot(head, rest);
    let dot = first_dot(rest) as int;
    reveal_with_fuel(dotted_part, 2);
    if dot < rest.len() {
        assert((head + rest).skip(head.len() + dot + 1) == rest.skip(dot + 1));
    }
}

proof fn lemma_first_dot_is_in(s: Seq<char>)
    ensures
        first_dot(s) <= s.len(),
    decreases s.len(),
{
    if s.len() > 0 && s[0] != '.' {
        lemma_first_dot_is_in(s.drop_first());
    }
}

/// Where a tag begins with `v`, what is read of it is the rest without trailing
/// white space.
proof fn lemma_tag_is_read(tag: Seq<char>)
    requires
        tag.len() > 0,
        tag[0] == 'v',
    ensures
        stripped(trimmed(tag), 'v') == without_trailing(stripped(tag, 'v'), blank()),
{
    let r = stripped(tag, 'v');
    let n = lemma_leading_split(tag, equals('v'));
    let vs = tag.take(n);
    assert(tag == vs + r);
    lemma_without_trailing_after(vs, r, blank());
    lemma_without_trailing_is_prefix(r, blank());
    let t = without_trailing(r, blank());
    let k = lemma_leading_split(vs + t, equals('v'));
    if k < n {
        assert((vs + t)[k] == vs[k]);
    } else if k > n {
        assert((vs + t)[n] == t[0]);
        assert(t[0] == r[0]);
    }
    assert((vs + t).skip(n) == t);
}

/// Leading white space and then leading `v` are found at the beginning of what
/// stays when trailing white space alone is removed.
proof fn lemma_version_is_read(r: Seq<char>) -> (head: Seq<char>)
    ensures
        without_trailing(r, blank()) == head + stripped(trimmed(r), 'v'),
        forall|i: int| 0 <= i < head.len() ==> white_space(#[trigger] head[i]) || head[i] == 'v',
{
    let t = without_trailing(r, blank());
    lemma_without_trailing_is_prefix(r, blank());
    let m = lemma_leading_split(r, blank());
    let q = r.skip(m);
    if q.len() == 0 {
        assert(t.len() == 0);
        assert(t == Seq::<char>::empty() + q);
        Seq::empty()
    } else {
        let rest = r.skip(m + 1);
        assert(r == r.take(m + 1) + rest);
        lemma_without_trailing_after(r.take(m + 1), rest, blank());
        assert(q == q.take(1) + rest);
        lemma_without_trailing_after(q.take(1), rest, blank());
        let u = without_trailing(q, blank());
        assert(t == r.take(m) + u);
        let l = lemma_leading_split(u, equals('v'));
        let head = t.take(m + l);
        assert(t == head + u.skip(l));
        assert forall|i: int| 0 <= i < head.len() implies white_space(#[trigger] head[i])
            || head[i] == 'v' by {
            if i < m {
                assert(blank()(r[i]));
                assert(head[i] == r[i]);
            } else {
                assert(head[i] == u[i - m]);
                assert(equals('v')(u[i - m]));
            }
        }
        head
    }
}

/// The leading `v` of a tag aside, only its first number can change, and it does
/// not become smaller.
proof fn lemma_tag_without_v(tag: Seq<char>)
    ensures
        semver(tag).0 <= semver(stripped(tag, 'v')).0,
        semver(tag).1 == semver(stripped(tag, 'v')).1,
        semver(tag).2 == semver(stripped(tag, 'v')).2,
{
    if tag.len() > 0 && tag[0] == 'v' {
        let r = stripped(tag, 'v');
        lemma_tag_is_read(tag);
        let head = lemma_version_is_read(r);
        let rest = stripped(trimmed(r), 'v');
        let t = head + rest;
        lemma_later_parts(head, rest);
        if head.len() == 0 {
            assert(t == rest);
        } else {
            assert(white_space(head[0]) || head[0] == 'v');
            assert(t[0] == head[0]);
            lemma_first_dot_is_in(t);
            lemma_first_dot(head, rest);
            let part = dotted_part(t, 0);
            assert(part.len() > 0 && part[0] == t[0]);
            assert(leading_digits(part) == Seq::<char>::empty());
        }
    }
}

/// A build that took its version from a tag finds no newer one in that tag.
pub proof fn law_tag_is_not_newer_than_its_version(tag: Seq<char>)
    ensures
        !later(semver(tag), semver(stripped(tag, 'v'))),
{
    lemma_tag_without_v(tag);
}

/// Whatever a tag is newer than, its version is newer than.
pub proof fn law_version_is_as_new_as_its_tag(tag: Seq<char>, current: (u64, u64, u64))
    ensures
        later(semver(tag), current) ==> later(semver(stripped(tag, 'v')), current),
{
    lemma_tag_without_v(tag);
}

/// White space before or after a version makes no difference.
pub proof fn law_white_space_is_passed_over(s: Seq<char>, c: char)
    requires
        white_space(c),
    ensures
        semver(seq![c] + s) == semver(s),
        semver(s.push(c)) == semver(s),
{
    assert((seq![c] + s).drop_first() == s);
    assert((seq![c] + s)[0] == c);
    lemma_trimmed_push(s, c);
}

proof fn lemma_trimmed_push(s: Seq<char>, c: char)
    requires
        white_space(c),
    ensures
        trimmed(s.push(c)) == trimmed(s),
    decreases s.len(),
{
    if s.len() > 0 && white_space(s[0]) {
        assert(s.push(c).drop_first() == s.drop_first().push(c));
        lemma_trimmed_push(s.drop_first(), c);
    } else if s.len() == 0 {
        assert(s.push(c).drop_first() == s);
    } else {
        assert(s.push(c).drop_last() == s);
    }
}

/// The digits of a number count tenfold with each digit that follows, and a digit
/// counts as much as it lies after `0`.
pub proof fn law_digits_are_decimal(digits: Seq<char>, c: char)
    requires
        '0' <= c <= '9',
    ensures
        decimal(Seq::empty()) == 0,
        decimal(digits.push(c)) == 10 * decimal(digits) + (c as int - 48),
{
    lemma_decimal_push(digits, c);
}

/// Whether a text consists of digits.
pub open spec fn all_digits(s: Seq<char>) -> bool {
    forall|i: int| 0 <= i < s.len() ==> '0' <= #[trigger] s[i] <= '9'
}

/// Whether a text can follow the digits of a part as something that is passed over:
/// it has no dot and does not begin with a digit.
pub open spec fn passed_over(s: Seq<char>) -> bool {
    &&& forall|i: int| 0 <= i < s.len() ==> #[trigger] s[i] != '.'
    &&& s.len() > 0 ==> !('0' <= s[0] <= '9')
}

/// A number if it fits into 64 bits, else zero.
pub open spec fn fitting(n: nat) -> nat {
    if n < 0x1_0000_0000_0000_0000 {
        n
    } else {
        0
    }
}

proof fn lemma_part_is_read(digits: Seq<char>, rest: Seq<char>, after: Seq<char>)
    requires
        all_digits(digits),
        passed_over(rest),
        after.len() > 0 ==> after[0] == '.',
    ensures
        first_dot(digits + rest + after) == digits.len() + rest.len(),
        component(dotted_part(digits + rest + after, 0)) == fitting(decimal(digits)),
{
    let part = digits + rest;
    assert forall|i: int| 0 <= i < part.len() implies #[trigger] part[i] != '.' by {
        if i < digits.len() {
            assert('0' <= digits[i] <= '9');
        } else {
            assert(rest[i - digits.len()] != '.');
        }
    }
    lemma_first_dot(part, after);
    assert((part + after).subrange(0, part.len() as int) == part);
    assert forall|i: int| 0 <= i < digits.len() implies digit(#[trigger] digits[i]) by {
        assert('0' <= digits[i] <= '9');
    }
    lemma_leading_digits(digits, rest);
}

/// Of a version, white space and any leading `v` aside, the digits that each of the
/// first three parts begins with are its numbers. Whatever else stands in a part,
/// and further parts, are passed over. A number that is too large counts as zero.
pub proof fn law_version_is_read_part_by_part(
    s: Seq<char>,
    d0: Seq<char>,
    r0: Seq<char>,
    d1: Seq<char>,
    r1: Seq<char>,
    d2: Seq<char>,
    r2: Seq<char>,
    more: Seq<char>,
)
    requires
        all_digits(d0) && all_digits(d1) && all_digits(d2),
        passed_over(r0) && passed_over(r1) && passed_over(r2),
        more.len() > 0 ==> more[0] == '.',
        stripped(trimmed(s), 'v') == d0 + r0 + seq!['.'] + d1 + r1 + seq!['.'] + d2 + r2 + more,
    ensures
        semver(s).0 == fitting(decimal(d0)),
        semver(s).1 == fitting(decimal(d1)),
        semver(s).2 == fitting(decimal(d2)),
{
    let s2 = d2 + r2 + more;
    let s1 = d1 + r1 + (seq!['.'] + s2);
    let s0 = d0 + r0 + (seq!['.'] + s1);
    assert(stripped(trimmed(s), 'v') == s0);
    lemma_part_is_read(d0, r0, seq!['.'] + s1);
    lemma_part_is_read(d1, r1, seq!['.'] + s2);
    lemma_part_is_read(d2, r2, more);
    assert(s0.skip((d0.len() + r0.len() + 1) as int) == s1);
    assert(s1.skip((d1.len() + r1.len() + 1) as int) == s2);
    reveal_with_fuel(dotted_part, 3);
}

/// Numbers that a version does not have count as zero.
pub proof fn law_missing_numbers_count_as_zero(
    s: Seq<char>,
    d0: Seq<char>,
    r0: Seq<char>,
    d1: Seq<char>,
    r1: Seq<char>,
)
    requires
        all_digits(d0) && all_digits(d1),
        passed_over(r0) && passed_over(r1),
    ensures
        stripped(trimmed(s), 'v') == d0 + r0 ==> semver(s).0 == fitting(decimal(d0)) && semver(s).1
            == 0 && semver(s).2 == 0,
        stripped(trimmed(s), 'v') == d0 + r0 + seq!['.'] + d1 + r1 ==> semver(s).0 == fitting(
            decimal(d0),
        ) && semver(s).1 == fitting(decimal(d1)) && semver(s).2 == 0,
{
    let none = Seq::<char>::empty();
    assert(leading_digits(none) == none);
    reveal_with_fuel(dotted_part, 3);
    assert(d0 + r0 + none == d0 + r0);
    lemma_part_is_read(d0, r0, none);
    let s1 = d1 + r1 + none;
    let s0 = d0 + r0 + (seq!['.'] + s1);
    assert(s0 == d0 + r0 + seq!['.'] + d1 + r1);
    lemma_part_is_read(d0, r0, seq!['.'] + s1);
    lemma_part_is_read(d1, r1, none);
    assert(s0.skip((d0.len() + r0.len() + 1) as int) == s1);
}

/// Of two versions the later one is the greater when the three numbers are taken as
/// the digits of one.
pub proof fn law_numbers_count_from_the_left(a: (u64, u64, u64), b: (u64, u64, u64))
    ensures
        later(a, b) <==> 0x1_0000_0000_0000_0000_0000_0000_0000_0000 * a.0
            + 0x1_0000_0000_0000_0000 * a.1 + a.2
            > 0x1_0000_0000_0000_0000_0000_0000_0000_0000 * b.0 + 0x1_0000_0000_0000_0000 * b.1
            + b.2,
{
}

} // verus!
