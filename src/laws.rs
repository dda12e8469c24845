use vstd::prelude::*;
use crate::command::{command_spec, profile_dir_spec};
use crate::model::{Language, Manifest, ProfileRule};
use crate::profile::has_marker;
use crate::resolve::{default_flags, flags_from, resolved_flags};
use crate::model::strs;
use crate::sources::{insert_sorted, lex_at, lex_le, sorted};
use vstd::seq_lib::{to_multiset_build, to_multiset_insert};

verus! {

proof fn lemma_flags_skip(rules: Seq<ProfileRule>, name: Seq<char>, k: int, i: int)
    requires
        0 <= k <= i <= rules.len(),
        forall|j: int| 0 <= j < i ==> rules[j].name@ != name,
    ensures
        flags_from(rules, name, k) == flags_from(rules, name, i),
    decreases i - k,
{
    if k < i {
        lemma_flags_skip(rules, name, k + 1, i);
    }
}

/// A profile named by a manifest rule gets the flags of its first such rule.
pub proof fn lemma_declared_flags(m: Manifest, name: Seq<char>, i: int)
    requires
        0 <= i < m.profiles@.len(),
        m.profiles@[i].name@ == name,
        forall|j: int| 0 <= j < i ==> m.profiles@[j].name@ != name,
    ensures
        resolved_flags(m, name) == strs(m.profiles@[i].flags@),
{
    lemma_flags_skip(m.profiles@, name, 0, i);
}

/// A profile that no manifest rule names gets the built-in default flags.
pub proof fn lemma_fallback_flags(m: Manifest, name: Seq<char>)
    requires
        forall|j: int| 0 <= j < m.profiles@.len() ==> m.profiles@[j].name@ != name,
    ensures
        resolved_flags(m, name) == default_flags(),
{
    lemma_flags_skip(m.profiles@, name, 0, m.profiles@.len() as int);
}

/// Changing the libraries changes only the library segment of the command:
/// toolchain, flags and sources before it, and the output argument after it,
/// stay as they were.
pub proof fn lemma_library_segment_only(
    lang: Language,
    name: Seq<char>,
    profile: Seq<char>,
    sources: Seq<Seq<char>>,
    libs1: Seq<Seq<char>>,
    libs2: Seq<Seq<char>>,
    flags: Seq<Seq<char>>,
)
    ensures
        ({
            let c1 = command_spec(lang, name, profile, sources, libs1, flags);
            let c2 = command_spec(lang, name, profile, sources, libs2, flags);
            let k: int = 1 + flags.len() as int + sources.len() as int;
            &&& c1.subrange(0, k) == c2.subrange(0, k)
            &&& c1.subrange(k, k + libs1.len() as int) == libs1
            &&& c2.subrange(k, k + libs2.len() as int) == libs2
            &&& c1.subrange(k + libs1.len() as int, c1.len() as int) == c2.subrange(
                k + libs2.len() as int,
                c2.len() as int,
            )
        }),
{
    let c1 = command_spec(lang, name, profile, sources, libs1, flags);
    let c2 = command_spec(lang, name, profile, sources, libs2, flags);
    let k: int = 1 + flags.len() as int + sources.len() as int;
    assert(c1.subrange(0, k) =~= c2.subrange(0, k));
    assert(c1.subrange(k, k + libs1.len() as int) =~= libs1);
    assert(c2.subrange(k, k + libs2.len() as int) =~= libs2);
    assert(c1.subrange(k + libs1.len() as int, c1.len() as int) =~= c2.subrange(
        k + libs2.len() as int,
        c2.len() as int,
    ));
}

/// Two valid profile arguments with the same name after the marker lead to
/// the same output directory.
pub proof fn lemma_profile_dir_stable(a1: Seq<char>, a2: Seq<char>)
    requires
        has_marker(a1),
        has_marker(a2),
        a1.subrange(2, a1.len() as int) == a2.subrange(2, a2.len() as int),
    ensures
        profile_dir_spec(a1.subrange(2, a1.len() as int)) == profile_dir_spec(
            a2.subrange(2, a2.len() as int),
        ),
{
}

proof fn lemma_lex_total_at(a: Seq<char>, b: Seq<char>, k: int)
    requires
        0 <= k,
    ensures
        lex_at(a, b, k) || lex_at(b, a, k),
    decreases a.len() - k,
{
    if k < a.len() && k < b.len() && a[k] == b[k] {
        lemma_lex_total_at(a, b, k + 1);
    }
}

/// Where `insert_sorted` puts `x`.
spec fn insert_pos(x: Seq<char>, s: Seq<Seq<char>>) -> int
    decreases s.len(),
{
    if s.len() == 0 || lex_le(x, s[0]) {
        0
    } else {
        1 + insert_pos(x, s.drop_first())
    }
}

proof fn lemma_insert_is_insert(x: Seq<char>, s: Seq<Seq<char>>)
    ensures
        0 <= insert_pos(x, s) <= s.len(),
        insert_sorted(x, s) == s.insert(insert_pos(x, s), x),
    decreases s.len(),
{
    if s.len() == 0 || lex_le(x, s[0]) {
        assert(insert_sorted(x, s) =~= s.insert(0, x));
    } else {
        lemma_insert_is_insert(x, s.drop_first());
        assert(insert_sorted(x, s) =~= s.insert(insert_pos(x, s), x));
    }
}

/// Neighbouring elements are in lexicographic order.
pub open spec fn is_ordered(s: Seq<Seq<char>>) -> bool {
    forall|i: int| 0 <= i < s.len() - 1 ==> lex_le(#[trigger] s[i], s[i + 1])
}

proof fn lemma_insert_ordered(x: Seq<char>, s: Seq<Seq<char>>)
    requires
        is_ordered(s),
    ensures
        is_ordered(insert_sorted(x, s)),
    decreases s.len(),
{
    let r = insert_sorted(x, s);
    if s.len() == 0 {
    } else if lex_le(x, s[0]) {
        assert forall|i: int| 0 <= i < r.len() - 1 implies lex_le(#[trigger] r[i], r[i + 1]) by {
            if i > 0 {
                assert(r[i] == s[i - 1] && r[i + 1] == s[i]);
            }
        }
    } else {
        let t = s.drop_first();
        assert(is_ordered(t)) by {
            assert forall|i: int| 0 <= i < t.len() - 1 implies lex_le(#[trigger] t[i], t[i + 1]) by {
                assert(t[i] == s[i + 1] && t[i + 1] == s[i + 2]);
            }
        }
        lemma_insert_ordered(x, t);
        let q = insert_sorted(x, t);
        lemma_lex_total_at(x, s[0], 0);
        assert(lex_le(s[0], q[0])) by {
            if t.len() > 0 && !lex_le(x, t[0]) {
                assert(q[0] == t[0] && t[0] == s[1]);
            }
        }
        assert forall|i: int| 0 <= i < r.len() - 1 implies lex_le(#[trigger] r[i], r[i + 1]) by {
            if i > 0 {
                assert(r[i] == q[i - 1] && r[i + 1] == q[i]);
            }
        }
    }
}

/// Sorting yields neighbours in lexicographic order.
pub proof fn lemma_sorted_ordered(s: Seq<Seq<char>>)
    ensures
        is_ordered(sorted(s)),
    decreases s.len(),
{
    if s.len() > 0 {
        lemma_sorted_ordered(s.drop_last());
        lemma_insert_ordered(s.last(), sorted(s.drop_last()));
    }
}

/// Sorting keeps exactly the same strings, each as often as before.
pub proof fn lemma_sorted_permutes(s: Seq<Seq<char>>)
    ensures
        sorted(s).to_multiset() == s.to_multiset(),
    decreases s.len(),
{
    if s.len() > 0 {
        let d = s.drop_last();
        lemma_sorted_permutes(d);
        lemma_insert_is_insert(s.last(), sorted(d));
        to_multiset_insert(sorted(d), insert_pos(s.last(), sorted(d)), s.last());
        to_multiset_build(d, s.last());
        assert(d.push(s.last()) =~= s);
    }
}

} // verus!
