use vstd::prelude::*;

verus! {

/// `s` with every occurrence of `pat` replaced by `rep`, scanning left to
/// right and resuming after each replaced occurrence, as `str::replace` does.
pub open spec fn replaced(s: Seq<char>, pat: Seq<char>, rep: Seq<char>) -> Seq<char>
    decreases s.len(),
{
    if pat.len() == 0 || s.len() < pat.len() {
        s
    } else if s.take(pat.len() as int) == pat {
        rep + replaced(s.skip(pat.len() as int), pat, rep)
    } else {
        seq![s[0]] + replaced(s.skip(1), pat, rep)
    }
}

/// No character of `s` is `c`.
pub open spec fn lacks(s: Seq<char>, c: char) -> bool {
    forall|i: int| 0 <= i < s.len() ==> s[i] != c
}

/// Whether `pat` occurs in `s` at position `i`.
fn occurs_at(s: &str, n: usize, i: usize, pat: &str, m: usize) -> (r: bool)
    requires
        n == s@.len(),
        m == pat@.len(),
        i + m <= n,
    ensures
        r == (s@.subrange(i as int, i + m) == pat@),
{
    let mut k: usize = 0;
    while k < m
        invariant
            n == s@.len(),
            m == pat@.len(),
            i + m <= n,
            k <= m,
            s@.subrange(i as int, i + k) == pat@.take(k as int),
        decreases m - k,
    {
        if s.get_char(i + k) != pat.get_char(k) {
            assert(s@.subrange(i as int, i + m)[k as int] != pat@[k as int]);
            return false;
        }
        assert(s@.subrange(i as int, i + k + 1) =~= pat@.take(k + 1));
        k = k + 1;
    }
    assert(pat@.take(m as int) =~= pat@);
    true
}

proof fn lemma_replaced_step(s: Seq<char>, i: int, pat: Seq<char>, rep: Seq<char>)
    requires
        pat.len() > 0,
        0 <= i,
        i + pat.len() <= s.len(),
    ensures
        s.subrange(i, i + pat.len()) == pat ==> replaced(s.subrange(i, s.len() as int), pat, rep)
            == rep + replaced(s.subrange(i + pat.len(), s.len() as int), pat, rep),
        s.subrange(i, i + pat.len()) != pat ==> replaced(s.subrange(i, s.len() as int), pat, rep)
            == seq![s[i]] + replaced(s.subrange(i + 1, s.len() as int), pat, rep),
{
    let t = s.subrange(i, s.len() as int);
    assert(t.take(pat.len() as int) =~= s.subrange(i, i + pat.len()));
    assert(t.skip(pat.len() as int) =~= s.subrange(i + pat.len(), s.len() as int));
    assert(t.skip(1) =~= s.subrange(i + 1, s.len() as int));
}

/// `s` with every occurrence of the non-empty `pat` replaced by `rep`.
pub fn replace_all(s: &str, pat: &str, rep: &str) -> (r: String)
    requires
        pat@.len() > 0,
    ensures
        r@ == replaced(s@, pat@, rep@),
{
    let n = s.unicode_len();
    let m = pat.unicode_len();
    let mut out = String::new();
    let mut start: usize = 0;
    let mut i: usize = 0;
    proof {
        assert(s@.subrange(0, n as int) =~= s@);
        assert(out@ + s@.subrange(0, 0) =~= Seq::<char>::empty());
    }
    while m <= n - i
        invariant
            n == s@.len(),
            m == pat@.len(),
            m > 0,
            start <= i <= n,
            out@ + s@.subrange(start as int, i as int) + replaced(
                s@.subrange(i as int, n as int),
                pat@,
                rep@,
            ) == replaced(s@, pat@, rep@),
        decreases n - i,
    {
        proof {
            lemma_replaced_step(s@, i as int, pat@, rep@);
        }
        if occurs_at(s, n, i, pat, m) {
            let ghost before = out@;
            out.append(s.substring_char(start, i));
            out.append(rep);
            proof {
                assert(out@ == before + s@.subrange(start as int, i as int) + rep@);
                assert(s@.subrange((i + m) as int, (i + m) as int) =~= Seq::<char>::empty());
                assert(out@ + s@.subrange((i + m) as int, (i + m) as int) =~= out@);
            }
            i = i + m;
            start = i;
        } else {
            proof {
                assert(s@.subrange(start as int, i + 1) =~= s@.subrange(start as int, i as int)
                    + seq![s@[i as int]]);
            }
            i = i + 1;
        }
    }
    proof {
        let t = s@.subrange(i as int, n as int);
        assert(replaced(t, pat@, rep@) == t);
        assert(s@.subrange(start as int, i as int) + t =~= s@.subrange(start as int, n as int));
    }
    out.append(s.substring_char(start, n));
    out
}

/// Text without the pattern's first character passes through a replacement unchanged.
pub proof fn lemma_replaced_plain_prefix(x: Seq<char>, y: Seq<char>, pat: Seq<char>, rep: Seq<char>)
    requires
        pat.len() > 0,
        lacks(x, pat[0]),
    ensures
        replaced(x + y, pat, rep) == x + replaced(y, pat, rep),
    decreases x.len(),
{
    if x.len() == 0 {
        assert(x + y =~= y);
        assert(x + replaced(y, pat, rep) =~= replaced(y, pat, rep));
    } else {
        let s = x + y;
        if s.len() >= pat.len() {
            assert(s.take(pat.len() as int)[0] == x[0]);
            assert(s.skip(1) =~= x.skip(1) + y);
            lemma_replaced_plain_prefix(x.skip(1), y, pat, rep);
            assert(x =~= seq![x[0]] + x.skip(1));
        } else {
            assert(y.len() < pat.len());
        }
    }
}

/// An occurrence at the front is replaced, and the scan resumes after it.
pub proof fn lemma_replaced_match_prefix(y: Seq<char>, pat: Seq<char>, rep: Seq<char>)
    requires
        pat.len() > 0,
    ensures
        replaced(pat + y, pat, rep) == rep + replaced(y, pat, rep),
{
    let s = pat + y;
    assert(s.take(pat.len() as int) =~= pat);
    assert(s.skip(pat.len() as int) =~= y);
}

/// A replacement brings in no character that neither the text nor the
/// replacement holds.
pub proof fn lemma_replaced_lacks(s: Seq<char>, pat: Seq<char>, rep: Seq<char>, c: char)
    requires
        lacks(s, c),
        lacks(rep, c),
    ensures
        lacks(replaced(s, pat, rep), c),
    decreases s.len(),
{
    if pat.len() == 0 || s.len() < pat.len() {
    } else if s.take(pat.len() as int) == pat {
        lemma_replaced_lacks(s.skip(pat.len() as int), pat, rep, c);
    } else {
        lemma_replaced_lacks(s.skip(1), pat, rep, c);
    }
}

} // verus!
