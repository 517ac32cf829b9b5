//! Text helpers: characters of a string, trimming, prefixes and the part before a
//! separator, and the std conversions that vstd gives no specification.
use vstd::prelude::*;
use crate::seq_search::{first_match, lemma_first_match_at, lemma_first_match_none};

verus! {

/// A string of the given characters: `Iterator::collect` into a `String`, which
/// std documents as pushing each character in order.
#[verifier::external_body]
pub(crate) fn string_from_chars(chars: &Vec<char>) -> (r: String)
    ensures
        r@ == chars@,
{
    chars.iter().collect()
}

/// The characters of a string, in order.
pub fn chars_of(s: &str) -> (r: Vec<char>)
    ensures
        r@ == s@,
{
    let mut out: Vec<char> = Vec::new();
    for c in it: s.chars()
        invariant
            it.seq() == s@,
            out@.len() == it.index(),
            forall|j: int| 0 <= j < it.index() ==> out@[j] == s@[j],
    {
        out.push(c);
    }
    assert(out@ =~= s@);
    out
}

/// Which characters a trim removes.
#[derive(Clone, Copy, PartialEq, Eq, Structural, Debug)]
pub enum TrimKind {
    /// The NUL character.
    Nul,
    /// The characters Unicode calls white space (what `char::is_whitespace` tests).
    WhiteSpace,
}

/// A character that Unicode calls white space.
pub open spec fn is_white_space(c: char) -> bool {
    let u = c as u32;
    ||| 0x9 <= u <= 0xd
    ||| u == 0x20
    ||| u == 0x85
    ||| u == 0xa0
    ||| u == 0x1680
    ||| 0x2000 <= u <= 0x200a
    ||| u == 0x2028
    ||| u == 0x2029
    ||| u == 0x202f
    ||| u == 0x205f
    ||| u == 0x3000
}

/// Whether a trim of the given kind removes the character.
pub open spec fn trims(kind: TrimKind, c: char) -> bool {
    match kind {
        TrimKind::Nul => c == '\0',
        TrimKind::WhiteSpace => is_white_space(c),
    }
}

/// The characters without those at the start that the trim removes.
pub open spec fn trim_start(kind: TrimKind, s: Seq<char>) -> Seq<char>
    decreases s.len(),
{
    if s.len() > 0 && trims(kind, s[0]) {
        trim_start(kind, s.drop_first())
    } else {
        s
    }
}

/// The characters without those at the end that the trim removes.
pub open spec fn trim_end(kind: TrimKind, s: Seq<char>) -> Seq<char>
    decreases s.len(),
{
    if s.len() > 0 && trims(kind, s.last()) {
        trim_end(kind, s.drop_last())
    } else {
        s
    }
}

/// The characters without those at both ends that the trim removes.
pub open spec fn trimmed(kind: TrimKind, s: Seq<char>) -> Seq<char> {
    trim_end(kind, trim_start(kind, s))
}

proof fn lemma_trim_start(kind: TrimKind, s: Seq<char>, i: int)
    requires
        0 <= i <= s.len(),
        forall|j: int| 0 <= j < i ==> trims(kind, #[trigger] s[j]),
    ensures
        trim_start(kind, s) == trim_start(kind, s.subrange(i, s.len() as int)),
    decreases i,
{
    if i > 0 {
        assert(s.drop_first().subrange(i - 1, s.drop_first().len() as int) =~= s.subrange(i, s.len() as int));
        assert forall|j: int| 0 <= j < i - 1 implies trims(kind, #[trigger] s.drop_first()[j]) by {
            assert(s.drop_first()[j] == s[j + 1]);
        }
        assert(trims(kind, s[0]));
        lemma_trim_start(kind, s.drop_first(), i - 1);
    } else {
        assert(s.subrange(0, s.len() as int) =~= s);
    }
}

proof fn lemma_trim_end(kind: TrimKind, s: Seq<char>, k: int)
    requires
        0 <= k <= s.len(),
        forall|j: int| k <= j < s.len() ==> trims(kind, #[trigger] s[j]),
    ensures
        trim_end(kind, s) == trim_end(kind, s.subrange(0, k)),
    decreases s.len() - k,
{
    if k < s.len() {
        assert(s.drop_last().subrange(0, k) =~= s.subrange(0, k));
        assert forall|j: int| k <= j < s.drop_last().len() implies trims(kind, #[trigger] s.drop_last()[j]) by {
            assert(s.drop_last()[j] == s[j]);
        }
        assert(trims(kind, s.last()));
        lemma_trim_end(kind, s.drop_last(), k);
    } else {
        assert(s.subrange(0, k) =~= s);
    }
}

fn is_trimmed(kind: TrimKind, c: char) -> (r: bool)
    ensures
        r == trims(kind, c),
{
    match kind {
        TrimKind::Nul => c == '\0',
        TrimKind::WhiteSpace => {
            let u = c as u32;
            (0x9 <= u && u <= 0xd) || u == 0x20 || u == 0x85 || u == 0xa0 || u == 0x1680
                || (0x2000 <= u && u <= 0x200a) || u == 0x2028 || u == 0x2029 || u == 0x202f
                || u == 0x205f || u == 0x3000
        },
    }
}

/// The characters with those at both ends that the trim removes taken away.
pub fn trim(s: &Vec<char>, kind: TrimKind) -> (r: Vec<char>)
    ensures
        r@ == trimmed(kind, s@),
{
    let ghost q = s@;
    let n = s.len();
    let mut i: usize = 0;
    while i < n && is_trimmed(kind, s[i])
        invariant
            i <= n,
            n == q.len(),
            q == s@,
            forall|j: int| 0 <= j < i ==> trims(kind, #[trigger] q[j]),
        decreases n - i,
    {
        i = i + 1;
    }
    proof {
        lemma_trim_start(kind, q, i as int);
        let t = q.subrange(i as int, n as int);
        if i < n {
            assert(t[0] == q[i as int]);
        }
        assert(trim_start(kind, t) == t);
    }
    let mut k: usize = n;
    while k > i && is_trimmed(kind, s[k - 1])
        invariant
            i <= k <= n,
            n == q.len(),
            q == s@,
            forall|j: int| k <= j < n ==> trims(kind, #[trigger] q[j]),
        decreases k,
    {
        k = k - 1;
    }
    let mut out: Vec<char> = Vec::new();
    let mut j: usize = i;
    while j < k
        invariant
            i <= j <= k,
            k <= n,
            n == q.len(),
            q == s@,
            out@ == q.subrange(i as int, j as int),
        decreases k - j,
    {
        out.push(s[j]);
        assert(q.subrange(i as int, j + 1) =~= q.subrange(i as int, j as int).push(q[j as int]));
        j = j + 1;
    }
    proof {
        let t = q.subrange(i as int, n as int);
        assert forall|m: int| (k - i) <= m < t.len() implies trims(kind, #[trigger] t[m]) by {
            assert(t[m] == q[i + m]);
        }
        lemma_trim_end(kind, t, (k - i) as int);
        let u = t.subrange(0, (k - i) as int);
        assert(u =~= q.subrange(i as int, k as int));
        if k > i {
            assert(u.last() == q[k - 1]);
        }
        assert(trim_end(kind, u) == u);
    }
    out
}

/// Whether the characters begin with the prefix.
pub open spec fn has_prefix(s: Seq<char>, prefix: Seq<char>) -> bool {
    prefix.len() <= s.len() && s.take(prefix.len() as int) == prefix
}

/// Whether the characters begin with the prefix.
pub fn starts_with(s: &Vec<char>, prefix: &Vec<char>) -> (r: bool)
    ensures
        r == has_prefix(s@, prefix@),
{
    if prefix.len() > s.len() {
        return false;
    }
    let mut i: usize = 0;
    while i < prefix.len()
        invariant
            prefix.len() <= s.len(),
            i <= prefix.len(),
            forall|j: int| 0 <= j < i ==> s@[j] == prefix@[j],
        decreases prefix.len() - i,
    {
        if s[i] != prefix[i] {
            assert(s@.take(prefix.len() as int)[i as int] != prefix@[i as int]);
            return false;
        }
        i = i + 1;
    }
    assert(s@.take(prefix.len() as int) =~= prefix@);
    true
}

/// The test for one character.
pub open spec fn is_char(c: char) -> spec_fn(char) -> bool {
    |x: char| x == c
}

/// The characters before the first occurrence of the separator, or all of them when
/// it does not occur (the first piece of a split at the separator).
pub open spec fn before_first(s: Seq<char>, sep: char) -> Seq<char> {
    match first_match(s, is_char(sep)) {
        Some(i) => s.take(i),
        None => s,
    }
}

/// The characters before the first occurrence of the separator, or all of them.
pub fn first_piece(s: &Vec<char>, sep: char) -> (r: Vec<char>)
    ensures
        r@ == before_first(s@, sep),
{
    let mut out: Vec<char> = Vec::new();
    let mut i: usize = 0;
    while i < s.len() && s[i] != sep
        invariant
            i <= s.len(),
            out@ == s@.take(i as int),
            forall|j: int| 0 <= j < i ==> s@[j] != sep,
        decreases s.len() - i,
    {
        out.push(s[i]);
        assert(s@.take(i + 1) =~= s@.take(i as int).push(s@[i as int]));
        i = i + 1;
    }
    proof {
        let p = is_char(sep);
        if i < s.len() {
            lemma_first_match_at(s@, p, i as int);
        } else {
            lemma_first_match_none(s@, p);
            assert(s@.take(i as int) =~= s@);
        }
    }
    out
}

} // verus!
