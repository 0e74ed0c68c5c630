//! Plain operations on text: comparing, trimming and replacing.
//!
//! The models are sequences of characters. Lengths in bytes are lengths of the
//! UTF-8 encoding.
use crate::version::lemma_leading_split;
use vstd::prelude::*;
use vstd::string::*;
use vstd::utf8::*;

verus! {

/// Whether a character has the Unicode property `White_Space`.
pub open spec fn white_space(c: char) -> bool {
    ||| '\u{9}' <= c <= '\u{d}'
    ||| c == '\u{20}'
    ||| c == '\u{85}'
    ||| c == '\u{a0}'
    ||| c == '\u{1680}'
    ||| '\u{2000}' <= c <= '\u{200a}'
    ||| c == '\u{2028}'
    ||| c == '\u{2029}'
    ||| c == '\u{202f}'
    ||| c == '\u{205f}'
    ||| c == '\u{3000}'
}

/// `s` without the leading characters for which `drop` holds.
pub open spec fn without_leading(s: Seq<char>, drop: spec_fn(char) -> bool) -> Seq<char>
    decreases s.len(),
{
    if s.len() > 0 && drop(s[0]) {
        without_leading(s.drop_first(), drop)
    } else {
        s
    }
}

/// `s` without the trailing characters for which `drop` holds.
pub open spec fn without_trailing(s: Seq<char>, drop: spec_fn(char) -> bool) -> Seq<char>
    decreases s.len(),
{
    if s.len() > 0 && drop(s.last()) {
        without_trailing(s.drop_last(), drop)
    } else {
        s
    }
}

/// The predicate of being white space.
pub open spec fn blank() -> spec_fn(char) -> bool {
    |c: char| white_space(c)
}

/// `s` without leading and trailing white space.
pub open spec fn trimmed(s: Seq<char>) -> Seq<char> {
    without_trailing(without_leading(s, blank()), blank())
}

/// The predicate of being the character `c`.
pub open spec fn equals(c: char) -> spec_fn(char) -> bool {
    |x: char| x == c
}

/// `s` without the leading characters that equal `c`.
pub open spec fn stripped(s: Seq<char>, c: char) -> Seq<char> {
    without_leading(s, equals(c))
}

/// The lower-case form of an ASCII letter; any other character as it is.
pub open spec fn ascii_lower(c: char) -> char {
    if 'A' <= c <= 'Z' {
        ((c as u32) + 32) as char
    } else {
        c
    }
}

/// `s` with its ASCII letters in lower case.
pub open spec fn lower_case(s: Seq<char>) -> Seq<char> {
    s.map_values(|c: char| ascii_lower(c))
}

/// Whether `pat` stands in `s` at position `i`.
pub open spec fn stands_at(s: Seq<char>, pat: Seq<char>, i: int) -> bool {
    0 <= i && i + pat.len() <= s.len() && s.subrange(i, i + pat.len()) == pat
}

/// Whether `i` is the first position at which `pat` stands in `s`.
pub open spec fn first_at(s: Seq<char>, pat: Seq<char>, i: int) -> bool {
    stands_at(s, pat, i) && forall|k: int| 0 <= k < i ==> !stands_at(s, pat, k)
}

/// `s` with the first occurrence of `pat`, if there is one, replaced by `to`.
pub open spec fn replaced_first(s: Seq<char>, pat: Seq<char>, to: Seq<char>) -> Seq<char> {
    if exists|i: int| first_at(s, pat, i) {
        let i = choose|i: int| first_at(s, pat, i);
        s.subrange(0, i) + to + s.subrange(i + pat.len(), s.len() as int)
    } else {
        s
    }
}

/// The length of `s` in bytes, encoded as UTF-8.
pub open spec fn byte_length(s: Seq<char>) -> nat {
    encode_utf8(s).len()
}

/// The model of a list of texts.
pub open spec fn texts(v: Seq<String>) -> Seq<Seq<char>> {
    v.map_values(|s: String| s@)
}

/// Whether a character is white space.
pub fn is_white_space(c: char) -> (r: bool)
    ensures
        r == white_space(c),
{
    ('\u{9}' <= c && c <= '\u{d}') || c == '\u{20}' || c == '\u{85}' || c == '\u{a0}'
        || c == '\u{1680}' || ('\u{2000}' <= c && c <= '\u{200a}') || c == '\u{2028}'
        || c == '\u{2029}' || c == '\u{202f}' || c == '\u{205f}' || c == '\u{3000}'
}

/// The characters of a text.
pub fn characters(s: &str) -> (v: Vec<char>)
    ensures
        v@ == s@,
{
    let mut v: Vec<char> = Vec::new();
    for c in it: s.chars()
        invariant
            it.seq() == s@,
            v@ == s@.take(it.index() as int),
    {
        v.push(c);
    }
    assert(s@.take(s@.len() as int) == s@);
    v
}

/// Whether two texts are the same.
pub fn same(a: &str, b: &str) -> (r: bool)
    ensures
        r == (a@ == b@),
{
    let x = a.as_bytes();
    let y = b.as_bytes();
    proof {
        encode_utf8_decode_utf8(a@);
        encode_utf8_decode_utf8(b@);
    }
    if x.len() != y.len() {
        return false;
    }
    let mut i: usize = 0;
    while i < x.len()
        invariant
            i <= x@.len(),
            x@.len() == y@.len(),
            x@ == encode_utf8(a@),
            y@ == encode_utf8(b@),
            forall|k: int| 0 <= k < i ==> x@[k] == y@[k],
        decreases x@.len() - i,
    {
        if x[i] != y[i] {
            return false;
        }
        i += 1;
    }
    assert(x@ =~= y@);
    true
}

/// `s` without leading and trailing white space.
pub fn trim(s: &str) -> (r: &str)
    ensures
        r@ == trimmed(s@),
{
    let v = characters(s);
    let ghost drop = blank();
    let mut start: usize = 0;
    assert(s@.skip(0) == s@);
    while start < v.len() && is_white_space(v[start])
        invariant
            v@ == s@,
            start <= v@.len(),
            drop == blank(),
            without_leading(s@, drop) == without_leading(s@.skip(start as int), drop),
        decreases v@.len() - start,
    {
        assert(s@.skip(start as int).drop_first() == s@.skip(start + 1));
        start += 1;
    }
    let ghost rest = s@.skip(start as int);
    assert(without_leading(s@, drop) == rest);
    let mut end: usize = v.len();
    assert(s@.subrange(start as int, end as int) == rest);
    while start < end && is_white_space(v[end - 1])
        invariant
            v@ == s@,
            start <= end <= v@.len(),
            drop == blank(),
            without_trailing(rest, drop) == without_trailing(
                s@.subrange(start as int, end as int),
                drop,
            ),
        decreases end,
    {
        assert(s@.subrange(start as int, end as int).drop_last() == s@.subrange(
            start as int,
            end - 1,
        ));
        end -= 1;
    }
    s.substring_char(start, end)
}

/// `s` without the leading characters that equal `c`.
pub fn strip_leading(s: &str, c: char) -> (r: &str)
    ensures
        r@ == stripped(s@, c),
{
    let v = characters(s);
    let ghost drop = equals(c);
    let mut start: usize = 0;
    assert(s@.skip(0) == s@);
    while start < v.len() && v[start] == c
        invariant
            v@ == s@,
            start <= v@.len(),
            drop == equals(c),
            without_leading(s@, drop) == without_leading(s@.skip(start as int), drop),
        decreases v@.len() - start,
    {
        assert(s@.skip(start as int).drop_first() == s@.skip(start + 1));
        start += 1;
    }
    assert(s@.subrange(start as int, v@.len() as int) == s@.skip(start as int));
    s.substring_char(start, v.len())
}

/// The lower-case form of an ASCII letter; any other character as it is.
pub fn lower(c: char) -> (r: char)
    ensures
        r == ascii_lower(c),
{
    if 'A' <= c && c <= 'Z' {
        ((c as u8) + 32) as char
    } else {
        c
    }
}

/// Whether two texts are the same but for the case of ASCII letters.
pub fn same_ignoring_case(a: &str, b: &str) -> (r: bool)
    ensures
        r == (lower_case(a@) == lower_case(b@)),
{
    let x = characters(a);
    let y = characters(b);
    if x.len() != y.len() {
        assert(lower_case(a@).len() != lower_case(b@).len());
        return false;
    }
    let mut i: usize = 0;
    while i < x.len()
        invariant
            x@ == a@,
            y@ == b@,
            x@.len() == y@.len(),
            i <= x@.len(),
            forall|k: int| 0 <= k < i ==> ascii_lower(#[trigger] a@[k]) == ascii_lower(b@[k]),
        decreases x@.len() - i,
    {
        if lower(x[i]) != lower(y[i]) {
            assert(lower_case(a@)[i as int] != lower_case(b@)[i as int]);
            return false;
        }
        i += 1;
    }
    assert(lower_case(a@) =~= lower_case(b@));
    true
}

/// The length of a text in bytes.
pub fn byte_len(s: &str) -> (n: usize)
    ensures
        n == byte_length(s@),
{
    s.as_bytes().len()
}

/// There is at most one first position.
pub proof fn lemma_first_at_unique(s: Seq<char>, pat: Seq<char>, i: int, j: int)
    requires
        first_at(s, pat, i),
        first_at(s, pat, j),
    ensures
        i == j,
{
    if i < j {
        assert(!stands_at(s, pat, i));
    } else if j < i {
        assert(!stands_at(s, pat, j));
    }
}

/// `s` with the first occurrence of `pat`, if there is one, replaced by `to`.
pub fn replace_first(s: &str, pat: &str, to: &str) -> (r: String)
    ensures
        r@ == replaced_first(s@, pat@, to@),
{
    let v = characters(s);
    let p = characters(pat);
    let n: usize = v.len();
    let m: usize = p.len();
    if m > n {
        assert(forall|k: int| !first_at(s@, pat@, k));
        return s.to_owned();
    }
    let mut i: usize = 0;
    while i <= n - m
        invariant
            v@ == s@,
            p@ == pat@,
            n == v@.len(),
            m == p@.len(),
            m <= n,
            i <= n - m + 1,
            forall|k: int| 0 <= k < i ==> !stands_at(s@, pat@, k),
        decreases n - m + 1 - i,
    {
        let mut k: usize = 0;
        while k < m && v[i + k] == p[k]
            invariant
                v@ == s@,
                p@ == pat@,
                n == v@.len(),
                m == p@.len(),
                m <= n,
                i <= n - m,
                k <= m,
                forall|l: int| 0 <= l < k ==> s@[i + l] == pat@[l],
            decreases m - k,
        {
            k += 1;
        }
        if k == m {
            proof {
                assert(s@.subrange(i as int, i + m) =~= pat@);
                assert(first_at(s@, pat@, i as int));
                let j = choose|j: int| first_at(s@, pat@, j);
                lemma_first_at_unique(s@, pat@, i as int, j);
            }
            let mut r = s.substring_char(0, i).to_owned();
            r.append(to);
            r.append(s.substring_char(i + m, n));
            return r;
        }
        proof {
            if stands_at(s@, pat@, i as int) {
                assert(s@.subrange(i as int, i + m)[k as int] == pat@[k as int]);
            }
        }
        i += 1;
    }
    proof {
        assert forall|k: int| !first_at(s@, pat@, k) by {
            if stands_at(s@, pat@, k) {
                assert(0 <= k < i);
            }
        }
    }
    s.to_owned()
}

/// Where the characters that are removed at the end begin.
pub proof fn lemma_trailing_split(s: Seq<char>, drop: spec_fn(char) -> bool) -> (n: int)
    ensures
        0 <= n <= s.len(),
        without_trailing(s, drop) == s.take(n),
        forall|i: int| n <= i < s.len() ==> drop(#[trigger] s[i]),
        n > 0 ==> !drop(s[n - 1]),
    decreases s.len(),
{
    if s.len() > 0 && drop(s.last()) {
        let m = lemma_trailing_split(s.drop_last(), drop);
        assert(s.drop_last().take(m) == s.take(m));
        assert forall|i: int| m <= i < s.len() implies drop(#[trigger] s[i]) by {
            if i < s.len() - 1 {
                assert(s[i] == s.drop_last()[i]);
            }
        }
        if m > 0 {
            assert(s[m - 1] == s.drop_last()[m - 1]);
        }
        m
    } else {
        assert(s.take(s.len() as int) == s);
        s.len() as int
    }
}

/// Trimming takes all white space from both ends and nothing else: what stays is
/// the stretch from `a` to `b`, all before it and all after it is white space, and
/// it neither begins nor ends with white space.
pub proof fn law_trimming_takes_white_space_from_both_ends(s: Seq<char>) -> (r: (int, int))
    ensures
        0 <= r.0 <= r.1 <= s.len(),
        trimmed(s) == s.subrange(r.0, r.1),
        forall|i: int| 0 <= i < r.0 ==> white_space(#[trigger] s[i]),
        forall|i: int| r.1 <= i < s.len() ==> white_space(#[trigger] s[i]),
        r.0 < r.1 ==> !white_space(s[r.0]) && !white_space(s[r.1 - 1]),
{
    let a = lemma_leading_split(s, blank());
    let rest = s.skip(a);
    let n = lemma_trailing_split(rest, blank());
    assert(rest.take(n) == s.subrange(a, a + n));
    assert forall|i: int| 0 <= i < a implies white_space(#[trigger] s[i]) by {
        assert(blank()(s[i]));
    }
    assert forall|i: int| a + n <= i < s.len() implies white_space(#[trigger] s[i]) by {
        assert(blank()(rest[i - a]));
    }
    if n > 0 {
        assert(rest[n - 1] == s[a + n - 1]);
    }
    (a, a + n)
}

/// Stripping takes all of the leading characters that equal `c` and nothing else.
pub proof fn law_stripping_takes_leading_characters(s: Seq<char>, c: char) -> (n: int)
    ensures
        0 <= n <= s.len(),
        stripped(s, c) == s.skip(n),
        forall|i: int| 0 <= i < n ==> #[trigger] s[i] == c,
        n < s.len() ==> s[n] != c,
{
    let n = lemma_leading_split(s, equals(c));
    assert forall|i: int| 0 <= i < n implies #[trigger] s[i] == c by {
        assert(equals(c)(s[i]));
    }
    n
}

/// Whether two characters are the upper-case and the lower-case form of one letter
/// of ASCII.
pub open spec fn two_cases(upper: char, lower: char) -> bool {
    'A' <= upper <= 'Z' && lower as int == upper as int + 32
}

/// Two texts are the same but for case if and only if they are equally long and,
/// position by position, hold the same character or the two cases of one letter.
pub proof fn law_case_is_all_that_is_ignored(a: Seq<char>, b: Seq<char>)
    ensures
        lower_case(a) == lower_case(b) <==> a.len() == b.len() && forall|i: int|
            0 <= i < a.len() ==> #[trigger] a[i] == b[i] || two_cases(a[i], b[i]) || two_cases(
                b[i],
                a[i],
            ),
{
    let la = lower_case(a);
    let lb = lower_case(b);
    assert(la.len() == a.len() && lb.len() == b.len());
    if la == lb {
        assert forall|i: int| 0 <= i < a.len() implies #[trigger] a[i] == b[i] || two_cases(
            a[i],
            b[i],
        ) || two_cases(b[i], a[i]) by {
            assert(la[i] == lb[i]);
        }
    }
    if a.len() == b.len() && forall|i: int|
        0 <= i < a.len() ==> #[trigger] a[i] == b[i] || two_cases(a[i], b[i]) || two_cases(
            b[i],
            a[i],
        ) {
        assert forall|i: int| 0 <= i < a.len() implies la[i] == lb[i] by {
            assert(a[i] == b[i] || two_cases(a[i], b[i]) || two_cases(b[i], a[i]));
        }
        assert(la =~= lb);
    }
}

/// Where a text is found, what stands before and after its first occurrence stays,
/// and the new text comes between them.
pub proof fn law_first_occurrence_is_replaced(
    head: Seq<char>,
    pat: Seq<char>,
    tail: Seq<char>,
    to: Seq<char>,
)
    requires
        forall|k: int|
            0 <= k < head.len() ==> #[trigger] (head + pat + tail).subrange(k, k + pat.len())
                != pat,
    ensures
        replaced_first(head + pat + tail, pat, to) == head + to + tail,
{
    let s = head + pat + tail;
    let n = head.len() as int;
    assert(s.subrange(n, n + pat.len()) == pat);
    assert forall|k: int| 0 <= k < n implies !stands_at(s, pat, k) by {
        assert(s.subrange(k, k + pat.len()) != pat);
    }
    assert(first_at(s, pat, n));
    let i = choose|i: int| first_at(s, pat, i);
    lemma_first_at_unique(s, pat, n, i);
    assert(s.subrange(0, n) == head);
    assert(s.subrange(n + pat.len(), s.len() as int) == tail);
}

/// Where a text is not found, nothing is replaced.
pub proof fn law_without_an_occurrence_nothing_is_replaced(
    s: Seq<char>,
    pat: Seq<char>,
    to: Seq<char>,
)
    requires
        forall|k: int|
            0 <= k <= s.len() - pat.len() ==> #[trigger] s.subrange(k, k + pat.len()) != pat,
    ensures
        replaced_first(s, pat, to) == s,
{
    assert forall|k: int| !first_at(s, pat, k) by {
        if stands_at(s, pat, k) {
            assert(s.subrange(k, k + pat.len()) == pat);
        }
    }
}

/// How many bytes a character takes.
pub open spec fn width(c: char) -> nat {
    if c as int <= 0x7f {
        1
    } else if c as int <= 0x7ff {
        2
    } else if c as int <= 0xffff {
        3
    } else {
        4
    }
}

/// The bytes of a text are those of its characters: one to four for each.
pub proof fn law_bytes_are_counted_by_character(s: Seq<char>, c: char)
    ensures
        byte_length(Seq::empty()) == 0,
        byte_length(s.push(c)) == byte_length(s) + width(c),
    decreases s.len(),
{
    reveal_with_fuel(encode_utf8, 2);
    let t = s.push(c);
    if s.len() == 0 {
        assert(t.drop_first() == Seq::<char>::empty());
    } else {
        assert(t.drop_first() == s.drop_first().push(c));
        assert(t[0] == s[0]);
        law_bytes_are_counted_by_character(s.drop_first(), c);
    }
}

/// A list of texts is seen text by text.
pub proof fn law_lists_are_seen_text_by_text(v: Seq<String>)
    ensures
        texts(v).len() == v.len(),
        forall|i: int| 0 <= i < v.len() ==> #[trigger] texts(v)[i] == v[i]@,
{
}

} // verus!
