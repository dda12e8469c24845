use vstd::prelude::*;
use crate::model::{strs, BuildError};

verus! {

/// A source declaration is a pattern when it holds `*` or `?`.
pub open spec fn is_pattern(d: Seq<char>) -> bool {
    exists|i: int| 0 <= i < d.len() && (d[i] == '*' || d[i] == '?')
}

/// `p[i..]` matches `s[j..]`: `*` matches any run of characters, `?` any one
/// character, every other character itself.
pub open spec fn glob_at(p: Seq<char>, s: Seq<char>, i: int, j: int) -> bool
    decreases p.len() - i + s.len() - j,
{
    if i < 0 || j < 0 || i > p.len() || j > s.len() {
        false
    } else if i == p.len() {
        j == s.len()
    } else if p[i] == '*' {
        glob_at(p, s, i + 1, j) || (j < s.len() && glob_at(p, s, i, j + 1))
    } else {
        j < s.len() && (p[i] == '?' || p[i] == s[j]) && glob_at(p, s, i + 1, j + 1)
    }
}

/// The whole of `s` matches the pattern `p`.
pub open spec fn glob(p: Seq<char>, s: Seq<char>) -> bool {
    glob_at(p, s, 0, 0)
}

/// `a[k..]` comes before or equals `b[k..]` in character order.
pub open spec fn lex_at(a: Seq<char>, b: Seq<char>, k: int) -> bool
    decreases a.len() - k,
{
    if k < 0 || k >= a.len() {
        true
    } else if k >= b.len() {
        false
    } else if a[k] != b[k] {
        a[k] < b[k]
    } else {
        lex_at(a, b, k + 1)
    }
}

/// Lexicographic order on strings, by character code.
pub open spec fn lex_le(a: Seq<char>, b: Seq<char>) -> bool {
    lex_at(a, b, 0)
}

/// Inserts `x` before the first element that it precedes.
pub open spec fn insert_sorted(x: Seq<char>, s: Seq<Seq<char>>) -> Seq<Seq<char>>
    decreases s.len(),
{
    if s.len() == 0 {
        seq![x]
    } else if lex_le(x, s[0]) {
        seq![x] + s
    } else {
        seq![s[0]] + insert_sorted(x, s.drop_first())
    }
}

/// `s` in lexicographic order, equal strings kept in their original order.
pub open spec fn sorted(s: Seq<Seq<char>>) -> Seq<Seq<char>>
    decreases s.len(),
{
    if s.len() == 0 {
        s
    } else {
        insert_sorted(s.last(), sorted(s.drop_last()))
    }
}

/// The first `n` candidates that match `p`, in order.
pub open spec fn matching(l: Seq<Seq<char>>, p: Seq<char>, n: int) -> Seq<Seq<char>>
    decreases n,
{
    if n <= 0 || n > l.len() {
        Seq::empty()
    } else {
        matching(l, p, n - 1) + if glob(p, l[n - 1]) {
            seq![l[n - 1]]
        } else {
            Seq::empty()
        }
    }
}

/// What one declaration contributes: a plain path itself; a pattern, its
/// matching candidates in lexicographic order.
pub open spec fn segment(d: Seq<char>, l: Seq<Seq<char>>) -> Seq<Seq<char>> {
    if is_pattern(d) {
        sorted(matching(l, d, l.len() as int))
    } else {
        seq![d]
    }
}

/// The sources of the first `n` declarations, in declaration order.
pub open spec fn expanded(ds: Seq<String>, ls: Seq<Vec<String>>, n: int) -> Seq<Seq<char>>
    decreases n,
{
    if n <= 0 || n > ds.len() || n > ls.len() {
        Seq::empty()
    } else {
        expanded(ds, ls, n - 1) + segment(ds[n - 1]@, strs(ls[n - 1]@))
    }
}

fn glob_match_at(p: &str, s: &str, pn: usize, sn: usize, i: usize, j: usize) -> (r: bool)
    requires
        pn == p@.len(),
        sn == s@.len(),
        i <= pn,
        j <= sn,
    ensures
        r == glob_at(p@, s@, i as int, j as int),
    decreases pn - i + sn - j,
{
    if i == pn {
        return j == sn;
    }
    let c = p.get_char(i);
    if c == '*' {
        if glob_match_at(p, s, pn, sn, i + 1, j) {
            return true;
        }
        j < sn && glob_match_at(p, s, pn, sn, i, j + 1)
    } else {
        j < sn && (c == '?' || c == s.get_char(j)) && glob_match_at(p, s, pn, sn, i + 1, j + 1)
    }
}

/// Tests whether the whole of `s` matches the pattern `p`.
pub fn glob_match(p: &str, s: &str) -> (r: bool)
    ensures
        r == glob(p@, s@),
{
    glob_match_at(p, s, p.unicode_len(), s.unicode_len(), 0, 0)
}

/// Tests whether a declaration is a pattern.
pub fn is_pattern_exec(d: &str) -> (r: bool)
    ensures
        r == is_pattern(d@),
{
    let n = d.unicode_len();
    let mut i: usize = 0;
    while i < n
        invariant
            n == d@.len(),
            i <= n,
            forall|j: int| 0 <= j < i ==> d@[j] != '*' && d@[j] != '?',
        decreases n - i,
    {
        let c = d.get_char(i);
        if c == '*' || c == '?' {
            return true;
        }
        i = i + 1;
    }
    false
}

/// Compares two strings lexicographically by character code.
pub fn lex_le_exec(a: &str, b: &str) -> (r: bool)
    ensures
        r == lex_le(a@, b@),
{
    let an = a.unicode_len();
    let bn = b.unicode_len();
    let mut k: usize = 0;
    while k < an && k < bn
        invariant
            an == a@.len(),
            bn == b@.len(),
            k <= an,
            k <= bn,
            lex_at(a@, b@, 0) == lex_at(a@, b@, k as int),
            forall|q: int| 0 <= q < k ==> a@[q] == b@[q],
        decreases an - k,
    {
        let x = a.get_char(k);
        let y = b.get_char(k);
        if x != y {
            return x < y;
        }
        k = k + 1;
    }
    k >= an
}

proof fn lemma_insert_at(x: Seq<char>, s: Seq<Seq<char>>, k: int)
    requires
        0 <= k <= s.len(),
        forall|j: int| 0 <= j < k ==> !lex_le(x, #[trigger] s[j]),
        k == s.len() || lex_le(x, s[k]),
    ensures
        insert_sorted(x, s) == s.insert(k, x),
    decreases k,
{
    if k == 0 {
        assert(insert_sorted(x, s) =~= s.insert(0, x));
    } else {
        let t = s.drop_first();
        assert forall|j: int| 0 <= j < k - 1 implies !lex_le(x, #[trigger] t[j]) by {
            assert(t[j] == s[j + 1]);
        }
        lemma_insert_at(x, t, k - 1);
        assert(insert_sorted(x, s) =~= s.insert(k, x));
    }
}

/// Sorts strings lexicographically; equal strings keep their order.
pub fn sort_strings(v: &Vec<String>) -> (r: Vec<String>)
    ensures
        strs(r@) == sorted(strs(v@)),
{
    let mut out: Vec<String> = Vec::new();
    let mut i: usize = 0;
    while i < v.len()
        invariant
            i <= v@.len(),
            strs(out@) == sorted(strs(v@).subrange(0, i as int)),
        decreases v.len() - i,
    {
        let x = v[i].clone();
        let mut k: usize = 0;
        while k < out.len() && !lex_le_exec(x.as_str(), out[k].as_str())
            invariant
                k <= out@.len(),
                forall|j: int| 0 <= j < k ==> !lex_le(x@, #[trigger] strs(out@)[j]),
            decreases out.len() - k,
        {
            k = k + 1;
        }
        proof {
            lemma_insert_at(x@, strs(out@), k as int);
            assert(strs(v@).subrange(0, i + 1).drop_last() =~= strs(v@).subrange(0, i as int));
            assert(strs(v@).subrange(0, i + 1).last() == x@);
        }
        let ghost before = out@;
        out.insert(k, x);
        assert(strs(out@) =~= strs(before).insert(k as int, x@));
        i = i + 1;
    }
    assert(strs(v@).subrange(0, v@.len() as int) =~= strs(v@));
    out
}

/// The candidates that match the pattern `p`, in order.
pub fn filter_matching(l: &Vec<String>, p: &str) -> (r: Vec<String>)
    ensures
        strs(r@) == matching(strs(l@), p@, l@.len() as int),
{
    let mut out: Vec<String> = Vec::new();
    let mut i: usize = 0;
    while i < l.len()
        invariant
            i <= l@.len(),
            strs(out@) == matching(strs(l@), p@, i as int),
        decreases l.len() - i,
    {
        if glob_match(p, l[i].as_str()) {
            let ghost before = out@;
            out.push(l[i].clone());
            assert(strs(out@) =~= strs(before).push(l@[i as int]@));
        }
        assert(matching(strs(l@), p@, i + 1) =~= matching(strs(l@), p@, i as int) + if glob(
            p@,
            l@[i as int]@,
        ) {
            seq![l@[i as int]@]
        } else {
            Seq::empty()
        });
        i = i + 1;
    }
    out
}

/// Resolves source declarations against the candidate files listed for
/// each of them: a plain path stays as written; a pattern becomes its
/// matching candidates in lexicographic order. Declaration order is kept.
/// An empty result is an error.
pub fn expand_sources(decls: &Vec<String>, listings: &Vec<Vec<String>>) -> (r: Result<
    Vec<String>,
    BuildError,
>)
    requires
        decls@.len() == listings@.len(),
    ensures
        r is Ok <==> expanded(decls@, listings@, decls@.len() as int).len() > 0,
        r matches Ok(v) ==> strs(v@) == expanded(decls@, listings@, decls@.len() as int),
        r matches Err(e) ==> e == BuildError::NoSourcesFound,
{
    let mut out: Vec<String> = Vec::new();
    let mut i: usize = 0;
    while i < decls.len()
        invariant
            decls@.len() == listings@.len(),
            i <= decls@.len(),
            strs(out@) == expanded(decls@, listings@, i as int),
        decreases decls.len() - i,
    {
        let ghost before = out@;
        if is_pattern_exec(decls[i].as_str()) {
            let found = filter_matching(&listings[i], decls[i].as_str());
            let s = sort_strings(&found);
            let mut k: usize = 0;
            while k < s.len()
                invariant
                    k <= s@.len(),
                    strs(out@) == strs(before) + strs(s@).subrange(0, k as int),
                decreases s.len() - k,
            {
                let ghost b2 = out@;
                out.push(s[k].clone());
                assert(strs(out@) =~= strs(b2).push(s@[k as int]@));
                assert(strs(s@).subrange(0, k + 1) =~= strs(s@).subrange(0, k as int).push(
                    s@[k as int]@,
                ));
                k = k + 1;
            }
            assert(strs(s@).subrange(0, s@.len() as int) =~= strs(s@));
        } else {
            out.push(decls[i].clone());
            assert(strs(out@) =~= strs(before) + seq![decls@[i as int]@]);
        }
        i = i + 1;
    }
    if out.len() == 0 {
        Err(BuildError::NoSourcesFound)
    } else {
        Ok(out)
    }
}

} // verus!
