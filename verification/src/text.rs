//! Character-level helpers on strings: white space trimming, prefix tests and
//! case folding, each specified over `Seq<char>`.

use vstd::prelude::*;

verus! {

/// Whether `c` has the Unicode `White_Space` property.
pub uninterp spec fn whitespace(c: char) -> bool;

/// The lowercase form of `s`, as Unicode's `Lowercase` property defines it.
pub uninterp spec fn lowercase(s: Seq<char>) -> Seq<char>;

/// Calls `char::is_whitespace`. Trusted: the result is the `White_Space`
/// property of `c`, which `whitespace` names.
#[verifier::external_body]
fn is_whitespace(c: char) -> (r: bool)
    ensures
        r == whitespace(c),
{
    c.is_whitespace()
}

/// Calls `str::to_lowercase`. Trusted: the result depends on the characters of
/// `s` alone, and `lowercase` names it.
#[verifier::external_body]
fn to_lowercase(s: &str) -> (r: String)
    ensures
        r@ == lowercase(s@),
{
    s.to_lowercase()
}

/// How many white space characters `s` begins with.
pub open spec fn leading_whitespace(s: Seq<char>) -> nat
    decreases s.len(),
{
    if s.len() > 0 && whitespace(s[0]) {
        1 + leading_whitespace(s.skip(1))
    } else {
        0
    }
}

/// How many white space characters `s` ends with.
pub open spec fn trailing_whitespace(s: Seq<char>) -> nat
    decreases s.len(),
{
    if s.len() > 0 && whitespace(s.last()) {
        1 + trailing_whitespace(s.drop_last())
    } else {
        0
    }
}

/// `s` without its leading white space.
pub open spec fn trimmed_start(s: Seq<char>) -> Seq<char> {
    s.skip(leading_whitespace(s) as int)
}

/// `s` without its trailing white space.
pub open spec fn trimmed_end(s: Seq<char>) -> Seq<char> {
    s.take(s.len() - trailing_whitespace(s))
}

/// `s` without the white space at either end.
pub open spec fn trimmed(s: Seq<char>) -> Seq<char> {
    trimmed_end(trimmed_start(s))
}

/// Whether `text` begins with `prefix` once both are put in lower case.
pub open spec fn begins_ignoring_case(text: Seq<char>, prefix: Seq<char>) -> bool {
    lowercase(prefix).is_prefix_of(lowercase(text))
}

/// `leading_whitespace(s)` is the one `n` such that the first `n` characters
/// are white space and the character after them, if any, is not.
pub proof fn lemma_leading_whitespace(s: Seq<char>, n: nat)
    requires
        n <= s.len(),
        forall|i: int| 0 <= i < n ==> whitespace(#[trigger] s[i]),
        n < s.len() ==> !whitespace(s[n as int]),
    ensures
        leading_whitespace(s) == n,
    decreases n,
{
    if n > 0 {
        let rest = s.skip(1);
        assert forall|i: int| 0 <= i < n - 1 implies whitespace(#[trigger] rest[i]) by {
            assert(rest[i] == s[i + 1]);
        }
        lemma_leading_whitespace(rest, (n - 1) as nat);
    }
}

/// `trailing_whitespace(s)` is the one `n` such that the last `n` characters
/// are white space and the character before them, if any, is not.
pub proof fn lemma_trailing_whitespace(s: Seq<char>, n: nat)
    requires
        n <= s.len(),
        forall|i: int| s.len() - n <= i < s.len() ==> whitespace(#[trigger] s[i]),
        n < s.len() ==> !whitespace(s[s.len() - n - 1]),
    ensures
        trailing_whitespace(s) == n,
    decreases n,
{
    if n > 0 {
        let rest = s.drop_last();
        assert forall|i: int| rest.len() - (n - 1) <= i < rest.len() implies whitespace(
            #[trigger] rest[i],
        ) by {
            assert(rest[i] == s[i]);
        }
        lemma_trailing_whitespace(rest, (n - 1) as nat);
    }
}

/// Trimming at the start leaves a suffix that does not begin with white space.
pub proof fn lemma_trimmed_start(s: Seq<char>)
    ensures
        leading_whitespace(s) <= s.len(),
        forall|i: int| 0 <= i < leading_whitespace(s) ==> whitespace(#[trigger] s[i]),
        trimmed_start(s).len() > 0 ==> !whitespace(trimmed_start(s)[0]),
        leading_whitespace(trimmed_start(s)) == 0,
    decreases s.len(),
{
    if s.len() > 0 && whitespace(s[0]) {
        let rest = s.skip(1);
        lemma_trimmed_start(rest);
        assert(trimmed_start(rest) =~= trimmed_start(s));
        assert forall|i: int| 0 <= i < leading_whitespace(s) implies whitespace(
            #[trigger] s[i],
        ) by {
            if i > 0 {
                assert(s[i] == rest[i - 1]);
            }
        }
    } else {
        assert(trimmed_start(s) =~= s);
    }
}

/// Trimming at the end leaves a prefix that does not end with white space.
pub proof fn lemma_trimmed_end(s: Seq<char>)
    ensures
        trailing_whitespace(s) <= s.len(),
        forall|i: int|
            s.len() - trailing_whitespace(s) <= i < s.len() ==> whitespace(#[trigger] s[i]),
        trimmed_end(s).len() > 0 ==> !whitespace(trimmed_end(s).last()),
        trailing_whitespace(trimmed_end(s)) == 0,
    decreases s.len(),
{
    if s.len() > 0 && whitespace(s.last()) {
        let rest = s.drop_last();
        lemma_trimmed_end(rest);
        assert(trimmed_end(rest) =~= trimmed_end(s));
        assert forall|i: int| s.len() - trailing_whitespace(s) <= i < s.len() implies whitespace(
            #[trigger] s[i],
        ) by {
            if i < s.len() - 1 {
                assert(s[i] == rest[i]);
            }
        }
    } else {
        assert(trimmed_end(s) =~= s);
    }
}

/// Trimming a trimmed text changes nothing.
pub proof fn lemma_trimmed_twice(s: Seq<char>)
    ensures
        trimmed(trimmed(s)) == trimmed(s),
{
    let start = trimmed_start(s);
    let both = trimmed(s);
    lemma_trimmed_start(s);
    lemma_trimmed_end(start);
    if both.len() > 0 {
        assert(both[0] == start[0]);
    }
    assert(trimmed_start(both) =~= both);
    assert(trimmed_end(both) =~= both);
}

/// The characters of `s`, in order.
pub fn chars_of(s: &str) -> (v: Vec<char>)
    ensures
        v@ == s@,
{
    let mut v: Vec<char> = Vec::new();
    for c in it: s.chars()
        invariant
            it.seq() == s@,
            v@ == s@.take(it.index() as int),
    {
        v.push(c);
    }
    v
}

/// The index of the first character at or after `from` that is not white
/// space, or `to` if there is none before `to`.
pub fn skip_whitespace(chars: &Vec<char>, from: usize, to: usize) -> (at: usize)
    requires
        from <= to <= chars@.len(),
    ensures
        at == from + leading_whitespace(chars@.subrange(from as int, to as int)),
        from <= at <= to,
{
    let mut at: usize = from;
    while at < to && is_whitespace(chars[at])
        invariant
            from <= at <= to <= chars@.len(),
            forall|i: int| from <= i < at ==> whitespace(#[trigger] chars@[i]),
        decreases to - at,
    {
        at = at + 1;
    }
    proof {
        let part = chars@.subrange(from as int, to as int);
        assert forall|i: int| 0 <= i < at - from implies whitespace(#[trigger] part[i]) by {
            assert(part[i] == chars@[from + i]);
        }
        lemma_leading_whitespace(part, (at - from) as nat);
    }
    at
}

/// The index just after the last character before `to` and not before `from`
/// that is not white space, or `from` if there is none.
pub fn skip_whitespace_back(chars: &Vec<char>, from: usize, to: usize) -> (at: usize)
    requires
        from <= to <= chars@.len(),
    ensures
        at == to - trailing_whitespace(chars@.subrange(from as int, to as int)),
        from <= at <= to,
{
    let mut at: usize = to;
    while at > from && is_whitespace(chars[at - 1])
        invariant
            from <= at <= to <= chars@.len(),
            forall|i: int| at <= i < to ==> whitespace(#[trigger] chars@[i]),
        decreases at - from,
    {
        at = at - 1;
    }
    proof {
        let part = chars@.subrange(from as int, to as int);
        assert forall|i: int| part.len() - (to - at) <= i < part.len() implies whitespace(
            #[trigger] part[i],
        ) by {
            assert(part[i] == chars@[from + i]);
        }
        lemma_trailing_whitespace(part, (to - at) as nat);
    }
    at
}

/// `s` without the white space at either end.
pub fn trim(s: &str) -> (r: &str)
    ensures
        r@ == trimmed(s@),
{
    let chars = chars_of(s);
    let n = chars.len();
    let from = skip_whitespace(&chars, 0, n);
    let to = skip_whitespace_back(&chars, from, n);
    proof {
        assert(chars@.subrange(0, n as int) =~= s@);
        assert(chars@.subrange(from as int, n as int) =~= trimmed_start(s@));
        assert(s@.subrange(from as int, to as int) =~= trimmed(s@));
    }
    s.substring_char(from, to)
}

/// Whether the characters of `text` from index `at` on begin with `pattern`.
pub fn matches_at(text: &Vec<char>, at: usize, pattern: &Vec<char>) -> (r: bool)
    requires
        at <= text@.len(),
    ensures
        r == pattern@.is_prefix_of(text@.skip(at as int)),
{
    let n = pattern.len();
    if n > text.len() - at {
        return false;
    }
    let mut i: usize = 0;
    while i < n
        invariant
            i <= n,
            n == pattern@.len(),
            at + n <= text@.len() <= usize::MAX,
            forall|j: int| 0 <= j < i ==> pattern@[j] == text@[at + j],
        decreases n - i,
    {
        if pattern[i] != text[at + i] {
            proof {
                let rest = text@.skip(at as int);
                assert(rest.subrange(0, n as int)[i as int] == text@[at + i]);
            }
            return false;
        }
        i = i + 1;
    }
    proof {
        let rest = text@.skip(at as int);
        assert(pattern@ =~= rest.subrange(0, n as int));
    }
    true
}

/// Whether `s` begins with `prefix`, character for character.
pub fn starts_with(s: &str, prefix: &str) -> (r: bool)
    ensures
        r == prefix@.is_prefix_of(s@),
{
    let text = chars_of(s);
    let pattern = chars_of(prefix);
    assert(text@.skip(0) =~= s@);
    matches_at(&text, 0, &pattern)
}

/// Whether `a` and `b` hold the same characters.
pub fn same_text(a: &str, b: &str) -> (r: bool)
    ensures
        r == (a@ == b@),
{
    let a = chars_of(a);
    let b = chars_of(b);
    if a.len() != b.len() {
        return false;
    }
    assert(a@.skip(0) =~= a@);
    assert(b@ =~= a@.subrange(0, b@.len() as int) ==> b@ =~= a@);
    matches_at(&a, 0, &b)
}

/// Whether `s` begins with `prefix` when letter case is ignored.
pub fn starts_with_ignoring_case(s: &str, prefix: &str) -> (r: bool)
    ensures
        r == begins_ignoring_case(s@, prefix@),
{
    let folded = to_lowercase(s);
    let folded_prefix = to_lowercase(prefix);
    starts_with(folded.as_str(), folded_prefix.as_str())
}

} // verus!
