//! Finding and replacing text, by chars.

use vstd::prelude::*;

use crate::text::{chars_of, string_from_chars};

verus! {

/// Whether `p` occurs in `t` at char index `i`.
pub open spec fn occurs_at(t: Seq<char>, p: Seq<char>, i: int) -> bool {
    0 <= i && i + p.len() <= t.len() && t.subrange(i, i + p.len()) == p
}

/// Whether `p` occurs in `t` at some index at or after `from`.
pub open spec fn occurs_from(t: Seq<char>, p: Seq<char>, from: int) -> bool {
    exists|j: int| from <= j && #[trigger] occurs_at(t, p, j)
}

/// Whether `i` is the first index at or after `from` where `p` occurs.
pub open spec fn first_from(t: Seq<char>, p: Seq<char>, from: int, i: int) -> bool {
    &&& from <= i
    &&& occurs_at(t, p, i)
    &&& forall|j: int| from <= j < i ==> !#[trigger] occurs_at(t, p, j)
}

/// Whether `i` is the first index where `p` occurs within the first `end`
/// chars of `t`.
pub open spec fn first_before(t: Seq<char>, p: Seq<char>, end: int, i: int) -> bool {
    &&& i + p.len() <= end
    &&& occurs_at(t, p, i)
    &&& forall|j: int| 0 <= j < i && j + p.len() <= end ==> !#[trigger] occurs_at(t, p, j)
}

/// The char index where a search for `p` starts, from the cursor at char
/// index `from`: past the text's end it is the text's end.
pub open spec fn search_start(t: Seq<char>, from: int) -> int {
    if from < t.len() {
        from
    } else {
        t.len() as int
    }
}

fn matches_at(t: &Vec<char>, p: &Vec<char>, i: usize) -> (r: bool)
    requires
        i + p@.len() <= t@.len(),
    ensures
        r == occurs_at(t@, p@, i as int),
{
    let mut k: usize = 0;
    while k < p.len()
        invariant
            i + p@.len() <= t@.len(),
            t@.len() == t.len(),
            k <= p@.len(),
            forall|j: int| 0 <= j < k ==> t@[i + j] == p@[j],
        decreases p@.len() - k,
    {
        if t[i + k] != p[k] {
            proof {
                assert(t@.subrange(i as int, i + p@.len())[k as int] != p@[k as int]);
            }
            return false;
        }
        k = k + 1;
    }
    proof {
        assert(t@.subrange(i as int, i + p@.len()) =~= p@);
    }
    true
}

/// First index in `lo..=hi` where `p` occurs in `t`, if any.
fn first_match_in(t: &Vec<char>, p: &Vec<char>, lo: usize, hi: usize) -> (r: Option<usize>)
    requires
        lo <= hi,
        hi + p@.len() <= t@.len(),
    ensures
        r matches Some(i) ==> lo <= i <= hi && occurs_at(t@, p@, i as int) && forall|j: int|
            lo <= j < i ==> !#[trigger] occurs_at(t@, p@, j),
        r is None ==> forall|j: int| lo <= j <= hi ==> !#[trigger] occurs_at(t@, p@, j),
{
    let mut i = lo;
    loop
        invariant
            hi + p@.len() <= t@.len(),
            lo <= i <= hi,
            forall|j: int| lo <= j < i ==> !#[trigger] occurs_at(t@, p@, j),
        decreases hi - i,
    {
        if matches_at(t, p, i) {
            return Some(i);
        }
        if i == hi {
            return None;
        }
        i = i + 1;
    }
}

/// Where "Find next" moves the cursor: the char index of the first
/// occurrence of `needle` at or after the cursor `from`; where there is
/// none, the first occurrence that lies wholly before the cursor; `None`
/// where there is neither.
pub fn find_next(text: &str, needle: &str, from: usize) -> (r: Option<usize>)
    ensures
        ({
            let t = text@;
            let p = needle@;
            let f = search_start(t, from as int);
            match r {
                Some(i) => first_from(t, p, f, i as int) || (!occurs_from(t, p, f)
                    && first_before(t, p, f, i as int)),
                None => !occurs_from(t, p, f) && forall|j: int|
                    0 <= j && j + p.len() <= f ==> !#[trigger] occurs_at(t, p, j),
            }
        }),
{
    let t = chars_of(text);
    let p = chars_of(needle);
    let n = t.len();
    let m = p.len();
    let f = if from < n {
        from
    } else {
        n
    };
    if m > n {
        assert forall|j: int| f <= j implies !#[trigger] occurs_at(t@, p@, j) by {}
        return None;
    }
    let after = if f <= n - m {
        first_match_in(&t, &p, f, n - m)
    } else {
        None
    };
    if let Some(i) = after {
        return Some(i);
    }
    assert forall|j: int| f <= j implies !#[trigger] occurs_at(t@, p@, j) by {
        if f <= j && occurs_at(t@, p@, j) {
            assert(j <= n - m);
        }
    }
    if m > f {
        return None;
    }
    let before = first_match_in(&t, &p, 0, f - m);
    match before {
        Some(i) => {
            proof {
                assert forall|j: int| 0 <= j < i && j + p@.len() <= f implies !#[trigger] occurs_at(
                    t@,
                    p@,
                    j,
                ) by {}
            }
            Some(i)
        },
        None => None,
    }
}

/// `s` with each occurrence of `p`, taken left to right without overlap,
/// replaced by `r`.
pub open spec fn replaced(s: Seq<char>, p: Seq<char>, r: Seq<char>) -> Seq<char>
    decreases s.len(),
{
    if p.len() == 0 || s.len() < p.len() {
        s
    } else if s.take(p.len() as int) == p {
        r + replaced(s.skip(p.len() as int), p, r)
    } else {
        seq![s[0]] + replaced(s.skip(1), p, r)
    }
}

/// Replacing a pattern by itself leaves the text as it was.
pub proof fn lemma_replace_by_itself(s: Seq<char>, p: Seq<char>)
    ensures
        replaced(s, p, p) == s,
    decreases s.len(),
{
    if p.len() == 0 || s.len() < p.len() {
    } else if s.take(p.len() as int) == p {
        lemma_replace_by_itself(s.skip(p.len() as int), p);
        assert(p + s.skip(p.len() as int) =~= s);
    } else {
        lemma_replace_by_itself(s.skip(1), p);
        assert(seq![s[0]] + s.skip(1) =~= s);
    }
}

/// Where the pattern does not occur in the text, replacing it leaves the
/// text as it was.
pub proof fn lemma_replace_absent(s: Seq<char>, p: Seq<char>, r: Seq<char>)
    requires
        forall|j: int| !#[trigger] occurs_at(s, p, j),
    ensures
        replaced(s, p, r) == s,
    decreases s.len(),
{
    if p.len() == 0 || s.len() < p.len() {
    } else {
        assert(!occurs_at(s, p, 0));
        assert(s.take(p.len() as int) =~= s.subrange(0, p.len() as int));
        let t = s.skip(1);
        assert forall|j: int| !#[trigger] occurs_at(t, p, j) by {
            if occurs_at(t, p, j) {
                assert(t.subrange(j, j + p.len()) =~= s.subrange(j + 1, j + 1 + p.len()));
                assert(occurs_at(s, p, j + 1));
            }
        }
        lemma_replace_absent(t, p, r);
        assert(seq![s[0]] + t =~= s);
    }
}

/// A text that starts with the pattern has that occurrence replaced, and
/// the rest of the text replaced on its own after it.
pub proof fn lemma_replace_leading_occurrence(s: Seq<char>, p: Seq<char>, r: Seq<char>)
    requires
        p.len() > 0,
    ensures
        replaced(p + s, p, r) == r + replaced(s, p, r),
{
    assert((p + s).take(p.len() as int) =~= p);
    assert((p + s).skip(p.len() as int) =~= s);
}

/// Chars at which no occurrence of the pattern starts are kept as they
/// are: where no occurrence starts within `a`, the replacement of `a + s`
/// is `a` followed by the replacement of `s`.
pub proof fn lemma_replace_keeps_unmatched_prefix(a: Seq<char>, s: Seq<char>, p: Seq<char>, r: Seq<char>)
    requires
        p.len() > 0,
        forall|j: int| 0 <= j < a.len() ==> !#[trigger] occurs_at(a + s, p, j),
    ensures
        replaced(a + s, p, r) == a + replaced(s, p, r),
    decreases a.len(),
{
    if a.len() > 0 {
        let t = a + s;
        let a1 = a.drop_first();
        assert(t.drop_first() =~= a1 + s);
        assert forall|j: int| 0 <= j < a1.len() implies !#[trigger] occurs_at(a1 + s, p, j) by {
            if occurs_at(a1 + s, p, j) {
                assert((a1 + s).subrange(j, j + p.len()) =~= t.subrange(j + 1, j + 1 + p.len()));
                assert(occurs_at(t, p, j + 1));
            }
        }
        lemma_replace_keeps_unmatched_prefix(a1, s, p, r);
        assert(!occurs_at(t, p, 0));
        if t.len() >= p.len() {
            assert(t.take(p.len() as int) =~= t.subrange(0, p.len() as int));
            assert(t.skip(1) =~= a1 + s);
        } else {
            lemma_replace_absent_short(t, p, r);
            lemma_replace_absent_short(a1 + s, p, r);
        }
        assert(seq![t[0]] + (a1 + replaced(s, p, r)) =~= a + replaced(s, p, r));
    }
}

/// A text shorter than the pattern is left as it is.
proof fn lemma_replace_absent_short(s: Seq<char>, p: Seq<char>, r: Seq<char>)
    requires
        s.len() < p.len(),
    ensures
        replaced(s, p, r) == s,
{
}

/// `s` written `n` times in a row.
pub open spec fn repeated(s: Seq<char>, n: nat) -> Seq<char>
    decreases n,
{
    if n == 0 {
        Seq::empty()
    } else {
        s + repeated(s, (n - 1) as nat)
    }
}

/// Back-to-back occurrences are each replaced: the pattern written `n`
/// times becomes the replacement written `n` times.
pub proof fn lemma_replace_repeated(p: Seq<char>, r: Seq<char>, n: nat)
    requires
        p.len() > 0,
    ensures
        replaced(repeated(p, n), p, r) == repeated(r, n),
    decreases n,
{
    if n > 0 {
        lemma_replace_repeated(p, r, (n - 1) as nat);
        lemma_replace_leading_occurrence(repeated(p, (n - 1) as nat), p, r);
    }
}

fn append_chars(out: &mut Vec<char>, src: &Vec<char>)
    ensures
        final(out)@ == old(out)@ + src@,
{
    let mut k: usize = 0;
    let ghost before = out@;
    while k < src.len()
        invariant
            k <= src@.len(),
            out@ == before + src@.take(k as int),
        decreases src@.len() - k,
    {
        out.push(src[k]);
        k = k + 1;
        proof {
            assert(out@ =~= before + src@.take(k as int));
        }
    }
    proof {
        assert(src@.take(src@.len() as int) =~= src@);
    }
}

/// "Replace all": `text` with each occurrence of `pattern`, taken left to
/// right without overlap, replaced by `replacement`. An empty pattern
/// replaces nothing, and gives `None`.
pub fn replace_all(text: &str, pattern: &str, replacement: &str) -> (r: Option<String>)
    ensures
        pattern@.len() == 0 ==> r is None,
        pattern@.len() > 0 ==> (r matches Some(s) && s@ == replaced(text@, pattern@, replacement@)),
{
    let t = chars_of(text);
    let p = chars_of(pattern);
    let rep = chars_of(replacement);
    let n = t.len();
    let m = p.len();
    if m == 0 {
        return None;
    }
    let mut out: Vec<char> = Vec::new();
    let mut i: usize = 0;
    proof {
        assert(t@.skip(0) =~= t@);
        assert(out@ + t@ =~= t@);
    }
    while i < n
        invariant
            t@ == text@,
            p@ == pattern@,
            rep@ == replacement@,
            n == t@.len(),
            m == p@.len(),
            m > 0,
            i <= n,
            out@ + replaced(t@.skip(i as int), p@, rep@) == replaced(t@, p@, rep@),
        decreases n - i,
    {
        let ghost rest = t@.skip(i as int);
        let ghost before = out@;
        if m <= n - i && matches_at(&t, &p, i) {
            proof {
                assert(rest.take(m as int) =~= t@.subrange(i as int, i + m));
                assert(rest.skip(m as int) =~= t@.skip(i + m));
                assert(replaced(rest, p@, rep@) == rep@ + replaced(t@.skip(i + m), p@, rep@));
                assert(before + rep@ + replaced(t@.skip(i + m), p@, rep@) =~= before + replaced(
                    rest,
                    p@,
                    rep@,
                ));
            }
            append_chars(&mut out, &rep);
            i = i + m;
        } else {
            proof {
                if rest.len() >= p@.len() {
                    assert(rest.take(m as int) =~= t@.subrange(i as int, i + m));
                    assert(rest.skip(1) =~= t@.skip(i + 1));
                    assert(replaced(rest, p@, rep@) == seq![t@[i as int]] + replaced(
                        t@.skip(i + 1),
                        p@,
                        rep@,
                    ));
                } else {
                    assert(replaced(rest, p@, rep@) == rest);
                    assert(rest.skip(1) =~= t@.skip(i + 1));
                    assert(t@.skip(i + 1).len() < p@.len());
                    assert(replaced(t@.skip(i + 1), p@, rep@) == t@.skip(i + 1));
                    assert(rest =~= seq![t@[i as int]] + t@.skip(i + 1));
                }
                assert(before.push(t@[i as int]) + replaced(t@.skip(i + 1), p@, rep@) =~= before
                    + replaced(rest, p@, rep@));
            }
            out.push(t[i]);
            i = i + 1;
        }
    }
    proof {
        assert(t@.skip(n as int) =~= Seq::<char>::empty());
        assert(replaced(t@.skip(n as int), p@, rep@) == Seq::<char>::empty());
        assert(out@ =~= out@ + Seq::<char>::empty());
    }
    Some(string_from_chars(&out))
}

} // verus!
