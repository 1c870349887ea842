//! Character-level helpers shared by the parsing and formatting code:
//! conversions between `&str` and `Vec<char>`, ASCII case folding, and
//! substring search and replacement with full functional specifications.

use vstd::prelude::*;
use vstd::string::StrSliceExecFns;
use vstd::string::StringExecFns;

verus! {

/// ASCII lower-casing of a single character; other characters are unchanged.
pub open spec fn lower_char(c: char) -> char {
    if 'A' <= c && c <= 'Z' {
        (((c as u8) + 32) as char)
    } else {
        c
    }
}

/// ASCII lower-casing of a character sequence.
pub open spec fn lower_chars(s: Seq<char>) -> Seq<char> {
    s.map(|_i: int, c: char| lower_char(c))
}

/// The characters of a string slice, as a vector.
pub fn str_to_chars(s: &str) -> (r: Vec<char>)
    ensures
        r@ == s@,
{
    let n = s.unicode_len();
    let mut r: Vec<char> = Vec::new();
    let mut i: usize = 0;
    while i < n
        invariant
            i <= n,
            n == s@.len(),
            r@ == s@.subrange(0, i as int),
        decreases n - i,
    {
        r.push(s.get_char(i));
        proof {
            assert(r@ =~= s@.subrange(0, i + 1));
        }
        i = i + 1;
    }
    proof {
        assert(r@ =~= s@);
    }
    r
}

/// Builds a `String` out of a vector of characters.
/// Relies on `core::iter::Iterator::collect`, which concatenates the
/// characters in order.
#[verifier::external_body]
pub fn chars_to_string(v: &Vec<char>) -> (r: String)
    ensures
        r@ == v@,
{
    v.iter().collect()
}

/// Whether a character vector spells the same text as a string slice.
pub fn chars_eq_str(v: &Vec<char>, s: &str) -> (r: bool)
    ensures
        r == (v@ == s@),
{
    let n = s.unicode_len();
    if v.len() != n {
        return false;
    }
    let mut i: usize = 0;
    while i < n
        invariant
            i <= n,
            n == s@.len(),
            v@.len() == n,
            forall|j: int| 0 <= j < i ==> v@[j] == s@[j],
        decreases n - i,
    {
        if v[i] != s.get_char(i) {
            return false;
        }
        i = i + 1;
    }
    proof {
        assert(v@ =~= s@);
    }
    true
}

/// Whether two string slices spell the same text.
pub fn str_eq(a: &str, b: &str) -> (r: bool)
    ensures
        r == (a@ == b@),
{
    let n = a.unicode_len();
    if b.unicode_len() != n {
        return false;
    }
    let mut i: usize = 0;
    while i < n
        invariant
            i <= n,
            n == a@.len(),
            b@.len() == n,
            forall|j: int| 0 <= j < i ==> a@[j] == b@[j],
        decreases n - i,
    {
        if a.get_char(i) != b.get_char(i) {
            return false;
        }
        i = i + 1;
    }
    proof {
        assert(a@ =~= b@);
    }
    true
}

/// ASCII lower-casing of a string slice, as a vector of characters.
pub fn lower_chars_of(s: &str) -> (r: Vec<char>)
    ensures
        r@ == lower_chars(s@),
{
    let n = s.unicode_len();
    let mut r: Vec<char> = Vec::new();
    let mut i: usize = 0;
    while i < n
        invariant
            i <= n,
            n == s@.len(),
            r@ == lower_chars(s@).subrange(0, i as int),
        decreases n - i,
    {
        let c = s.get_char(i);
        let l: char = if 'A' <= c && c <= 'Z' {
            ((c as u8) + 32) as char
        } else {
            c
        };
        assert(l == lower_char(s@[i as int]));
        r.push(l);
        proof {
            assert(r@ =~= lower_chars(s@).subrange(0, i + 1));
        }
        i = i + 1;
    }
    proof {
        assert(r@ =~= lower_chars(s@));
    }
    r
}

/// Whether the pattern occurs in the text (an empty pattern always
/// does).
pub open spec fn sp_contains(s: Seq<char>, pat: Seq<char>) -> bool {
    exists|i: int|
        0 <= i <= s.len() - pat.len() && #[trigger] s.subrange(i, i + pat.len() as int) == pat
}

/// Replacement with an empty pattern: the replacement is inserted before
/// every character and at the end, as `str::replace` does.
pub open spec fn sp_replace_empty(s: Seq<char>, rep: Seq<char>) -> Seq<char>
    decreases s.len(),
{
    if s.len() == 0 {
        rep
    } else {
        rep + seq![s[0]] + sp_replace_empty(s.drop_first(), rep)
    }
}

/// Replacement of every leftmost non-overlapping occurrence of the
/// pattern, as `str::replace` does.
pub open spec fn sp_replace(s: Seq<char>, pat: Seq<char>, rep: Seq<char>) -> Seq<char>
    decreases s.len(),
{
    if pat.len() == 0 {
        sp_replace_empty(s, rep)
    } else if s.len() == 0 {
        Seq::empty()
    } else if pat.len() <= s.len() && s.take(pat.len() as int) == pat {
        rep + sp_replace(s.skip(pat.len() as int), pat, rep)
    } else {
        seq![s[0]] + sp_replace(s.drop_first(), pat, rep)
    }
}

/// Extending the text extends the empty-pattern replacement by the new
/// character and one more copy of the replacement.
proof fn lemma_replace_empty_snoc(s: Seq<char>, c: char, rep: Seq<char>)
    ensures
        sp_replace_empty(s.push(c), rep) == sp_replace_empty(s, rep) + seq![c] + rep,
    decreases s.len(),
{
    if s.len() == 0 {
        assert(s.push(c)[0] == c);
        assert(s.push(c).drop_first() =~= Seq::<char>::empty());
        assert(sp_replace_empty(Seq::<char>::empty(), rep) == rep);
        assert(sp_replace_empty(s, rep) == rep);
        assert(sp_replace_empty(s.push(c), rep) =~= sp_replace_empty(s, rep) + seq![c] + rep);
    } else {
        lemma_replace_empty_snoc(s.drop_first(), c, rep);
        assert(s.push(c).drop_first() =~= s.drop_first().push(c));
        assert(s.push(c)[0] == s[0]);
        assert(sp_replace_empty(s.push(c), rep) =~= sp_replace_empty(s, rep) + seq![c] + rep);
    }
}

/// Appends the characters of one vector to another.
fn push_chars(out: &mut Vec<char>, src: &Vec<char>)
    ensures
        final(out)@ == old(out)@ + src@,
{
    let n = src.len();
    let mut i: usize = 0;
    while i < n
        invariant
            i <= n,
            n == src@.len(),
            out@ == old(out)@ + src@.take(i as int),
        decreases n - i,
    {
        out.push(src[i]);
        proof {
            assert(out@ =~= old(out)@ + src@.take(i + 1));
        }
        i = i + 1;
    }
    proof {
        assert(src@.take(n as int) =~= src@);
    }
}

/// Whether the pattern stands at the given position of the text.
fn match_at(sv: &Vec<char>, pv: &Vec<char>, i: usize) -> (r: bool)
    requires
        i + pv@.len() <= sv@.len(),
    ensures
        r == (sv@.subrange(i as int, i + pv@.len() as int) == pv@),
{
    let n = pv.len();
    let sn = sv.len();
    let mut k: usize = 0;
    while k < n
        invariant
            k <= n,
            n == pv@.len(),
            i + n <= sn,
            sn == sv@.len(),
            forall|q: int| 0 <= q < k ==> sv@[i + q] == pv@[q],
        decreases n - k,
    {
        if sv[i + k] != pv[k] {
            proof {
                assert(sv@.subrange(i as int, i + n as int)[k as int] == sv@[i + k]);
            }
            return false;
        }
        k = k + 1;
    }
    proof {
        assert(sv@.subrange(i as int, i + n as int) =~= pv@);
    }
    true
}

/// Whether the pattern occurs in the text.
pub fn str_contains(s: &str, pat: &str) -> (r: bool)
    ensures
        r == sp_contains(s@, pat@),
{
    let sv = str_to_chars(s);
    let pv = str_to_chars(pat);
    let sn = sv.len();
    let pn = pv.len();
    if pn > sn {
        proof {
            assert(!sp_contains(s@, pat@));
        }
        return false;
    }
    if pn == 0 {
        proof {
            assert(s@.subrange(0, 0 + pat@.len() as int) =~= pat@);
            assert(sp_contains(s@, pat@));
        }
        return true;
    }
    let mut i: usize = 0;
    while i <= sn - pn
        invariant
            0 < pn <= sn,
            i <= sn - pn + 1,
            sn == s@.len(),
            pn == pat@.len(),
            sv@ == s@,
            pv@ == pat@,
            forall|j: int| 0 <= j < i ==> #[trigger] s@.subrange(j, j + pn as int) != pat@,
        decreases sn - pn - i + 1,
    {
        if match_at(&sv, &pv, i) {
            proof {
                assert(s@.subrange(i as int, i + pn as int) == pat@);
            }
            return true;
        }
        i = i + 1;
    }
    proof {
        assert forall|j: int| 0 <= j <= s@.len() - pat@.len() implies #[trigger] s@.subrange(
            j,
            j + pat@.len() as int,
        ) != pat@ by {
            assert(j < i);
        }
    }
    false
}

/// Replaces every leftmost non-overlapping occurrence of the pattern.
pub fn str_replace(s: &str, pat: &str, rep: &str) -> (r: String)
    ensures
        r@ == sp_replace(s@, pat@, rep@),
{
    let sv = str_to_chars(s);
    let pv = str_to_chars(pat);
    let rv = str_to_chars(rep);
    let sn = sv.len();
    let pn = pv.len();
    let mut out: Vec<char> = Vec::new();
    if pn == 0 {
        push_chars(&mut out, &rv);
        proof {
            assert(s@.take(0) =~= Seq::<char>::empty());
            assert(sp_replace_empty(Seq::<char>::empty(), rep@) == rep@);
            assert(out@ =~= sp_replace_empty(s@.take(0), rep@));
        }
        let mut i: usize = 0;
        while i < sn
            invariant
                i <= sn,
                sn == s@.len(),
                sv@ == s@,
                rv@ == rep@,
                out@ == sp_replace_empty(s@.take(i as int), rep@),
            decreases sn - i,
        {
            out.push(sv[i]);
            push_chars(&mut out, &rv);
            proof {
                assert(s@.take(i + 1) =~= s@.take(i as int).push(s@[i as int]));
                lemma_replace_empty_snoc(s@.take(i as int), s@[i as int], rep@);
                assert(out@ =~= sp_replace_empty(s@.take(i + 1), rep@));
            }
            i = i + 1;
        }
        proof {
            assert(s@.take(sn as int) =~= s@);
        }
        return chars_to_string(&out);
    }
    proof {
        assert(s@.skip(0) =~= s@);
        assert(out@ + sp_replace(s@.skip(0), pat@, rep@) =~= sp_replace(s@, pat@, rep@));
    }
    let mut i: usize = 0;
    while i < sn
        invariant
            i <= sn,
            sn == s@.len(),
            pn == pat@.len(),
            pn > 0,
            sv@ == s@,
            pv@ == pat@,
            rv@ == rep@,
            sp_replace(s@, pat@, rep@) == out@ + sp_replace(s@.skip(i as int), pat@, rep@),
        decreases sn - i,
    {
        if pn <= sn && i <= sn - pn && match_at(&sv, &pv, i) {
            proof {
                let suf = s@.skip(i as int);
                assert(suf.take(pn as int) =~= s@.subrange(i as int, i + pn as int));
                assert(suf.take(pn as int) == pat@);
                assert(suf.skip(pn as int) =~= s@.skip(i + pn));
                assert(sp_replace(suf, pat@, rep@) == rep@ + sp_replace(
                    s@.skip(i + pn),
                    pat@,
                    rep@,
                ));
            }
            push_chars(&mut out, &rv);
            i = i + pn;
        } else {
            proof {
                let suf = s@.skip(i as int);
                assert(suf[0] == s@[i as int]);
                if pn <= sn && i <= sn - pn {
                    assert(suf.take(pn as int) =~= s@.subrange(i as int, i + pn as int));
                    assert(suf.take(pn as int) != pat@);
                } else {
                    assert(suf.len() < pn);
                }
                assert(suf.drop_first() =~= s@.skip(i + 1));
                assert(sp_replace(suf, pat@, rep@) == seq![s@[i as int]] + sp_replace(
                    s@.skip(i + 1),
                    pat@,
                    rep@,
                ));
            }
            out.push(sv[i]);
            i = i + 1;
        }
    }
    proof {
        assert(s@.skip(sn as int).len() == 0);
        assert(sp_replace(s@.skip(sn as int), pat@, rep@) == Seq::<char>::empty());
        assert(out@ =~= sp_replace(s@, pat@, rep@));
    }
    chars_to_string(&out)
}

} // verus!
