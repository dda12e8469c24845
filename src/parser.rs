use vstd::prelude::*;
use vstd::string::*;
use crate::cli::str_eq;
use crate::model::{make_manifest, is_safe_name, language_of, strs, BuildError, Manifest, ProfileRule};

verus! {

/// Separators: a newline between lines, or blanks between words.
pub open spec fn is_sep(c: char, lines: bool) -> bool {
    if lines {
        c == '\n'
    } else {
        c == ' ' || c == '\t' || c == '\r'
    }
}

/// Tokens completed so far, and the token being read, after scanning `s`.
pub open spec fn tok_state(s: Seq<char>, lines: bool) -> (Seq<Seq<char>>, Seq<char>)
    decreases s.len(),
{
    if s.len() == 0 {
        (Seq::empty(), Seq::empty())
    } else {
        let (d, c) = tok_state(s.drop_last(), lines);
        if is_sep(s.last(), lines) {
            if c.len() > 0 {
                (d.push(c), Seq::empty())
            } else {
                (d, Seq::empty())
            }
        } else {
            (d, c.push(s.last()))
        }
    }
}

/// The non-empty runs of non-separator characters of `s`, in order.
pub open spec fn tokens(s: Seq<char>, lines: bool) -> Seq<Seq<char>> {
    let (d, c) = tok_state(s, lines);
    if c.len() > 0 {
        d.push(c)
    } else {
        d
    }
}

fn is_sep_exec(c: char, lines: bool) -> (r: bool)
    ensures
        r == is_sep(c, lines),
{
    if lines {
        c == '\n'
    } else {
        c == ' ' || c == '\t' || c == '\r'
    }
}

/// Splits `s` into lines (`lines`) or into blank-separated words, dropping empty pieces.
pub fn split_tokens(s: &str, lines: bool) -> (r: Vec<String>)
    ensures
        strs(r@) == tokens(s@, lines),
{
    let n = s.unicode_len();
    let mut done: Vec<String> = Vec::new();
    let mut start: usize = 0;
    let mut i: usize = 0;
    while i < n
        invariant
            n == s@.len(),
            start <= i <= n,
            tok_state(s@.subrange(0, i as int), lines) == (
                strs(done@),
                s@.subrange(start as int, i as int),
            ),
        decreases n - i,
    {
        let c = s.get_char(i);
        assert(s@.subrange(0, i + 1).drop_last() =~= s@.subrange(0, i as int));
        assert(s@.subrange(0, i + 1).last() == c);
        if is_sep_exec(c, lines) {
            if start < i {
                let ghost before = done@;
                done.push(String::from_str(s.substring_char(start, i)));
                assert(strs(done@) =~= strs(before).push(s@.subrange(start as int, i as int)));
            }
            start = i + 1;
            assert(s@.subrange(start as int, i + 1) =~= Seq::<char>::empty());
        } else {
            assert(s@.subrange(start as int, i + 1) =~= s@.subrange(start as int, i as int).push(
                c,
            ));
        }
        i = i + 1;
    }
    assert(s@.subrange(0, n as int) =~= s@);
    if start < n {
        let ghost before = done@;
        done.push(String::from_str(s.substring_char(start, n)));
        assert(strs(done@) =~= strs(before).push(s@.subrange(start as int, n as int)));
    }
    done
}

/// The words of each line of a manifest text.
pub open spec fn line_words(text: Seq<char>) -> Seq<Seq<Seq<char>>> {
    tokens(text, true).map_values(|l: Seq<char>| tokens(l, false))
}

pub open spec fn name_key() -> Seq<char> {
    seq!['p', 'r', 'o', 'j', 'e', 'c', 't', '.', 'n', 'a', 'm', 'e']
}

pub open spec fn language_key() -> Seq<char> {
    seq!['p', 'r', 'o', 'j', 'e', 'c', 't', '.', 'l', 'a', 'n', 'g', 'u', 'a', 'g', 'e']
}

pub open spec fn sources_key() -> Seq<char> {
    seq!['s', 'o', 'u', 'r', 'c', 'e', 's']
}

pub open spec fn libraries_key() -> Seq<char> {
    seq!['l', 'i', 'b', 'r', 'a', 'r', 'i', 'e', 's']
}

pub open spec fn profile_prefix() -> Seq<char> {
    seq!['p', 'r', 'o', 'f', 'i', 'l', 'e', '.']
}

/// `profile.<name>` with a non-empty name.
pub open spec fn is_profile_key(k: Seq<char>) -> bool {
    k.len() > 8 && k.subrange(0, 8) == profile_prefix()
}

/// A line with no words, or whose first word starts with `#`.
pub open spec fn is_blank(w: Seq<Seq<char>>) -> bool {
    w.len() == 0 || (w[0].len() > 0 && w[0][0] == '#')
}

/// A line that is not blank and reads `<key> = ...`.
pub open spec fn is_entry(w: Seq<Seq<char>>) -> bool {
    !is_blank(w) && w.len() >= 2 && w[1] == seq!['=']
}

/// A known key with an admissible number `n` of values.
pub open spec fn key_ok(k: Seq<char>, n: int) -> bool {
    ((k == name_key() || k == language_key()) && n == 1) || k == sources_key() || k
        == libraries_key() || is_profile_key(k)
}

/// Each line is blank or a well-formed entry.
pub open spec fn line_ok(w: Seq<Seq<char>>) -> bool {
    is_blank(w) || (is_entry(w) && key_ok(w[0], w.len() - 2))
}

/// The values of all entries of `key`, in order.
pub open spec fn values_for(ls: Seq<Seq<Seq<char>>>, key: Seq<char>) -> Seq<Seq<char>>
    decreases ls.len(),
{
    if ls.len() == 0 {
        Seq::empty()
    } else {
        let w = ls.last();
        values_for(ls.drop_last(), key) + if is_entry(w) && w[0] == key {
            w.subrange(2, w.len() as int)
        } else {
            Seq::empty()
        }
    }
}

/// The first value of the last entry of `key` that has one.
pub open spec fn last_value(ls: Seq<Seq<Seq<char>>>, key: Seq<char>) -> Option<Seq<char>>
    decreases ls.len(),
{
    if ls.len() == 0 {
        None
    } else {
        let w = ls.last();
        if is_entry(w) && w[0] == key && w.len() > 2 {
            Some(w[2])
        } else {
            last_value(ls.drop_last(), key)
        }
    }
}

/// The profile rules, in order: the name after `profile.` and the values.
pub open spec fn profiles_of(ls: Seq<Seq<Seq<char>>>) -> Seq<(Seq<char>, Seq<Seq<char>>)>
    decreases ls.len(),
{
    if ls.len() == 0 {
        Seq::empty()
    } else {
        let w = ls.last();
        let p = profiles_of(ls.drop_last());
        if is_entry(w) && is_profile_key(w[0]) {
            p.push((w[0].subrange(8, w[0].len() as int), w.subrange(2, w.len() as int)))
        } else {
            p
        }
    }
}

/// The language value in force: the last declared one, else `c`.
pub open spec fn language_value(ls: Seq<Seq<Seq<char>>>) -> Seq<char> {
    match last_value(ls, language_key()) {
        Some(v) => v,
        None => seq!['c'],
    }
}

/// A manifest text is accepted: every line is well formed, a safe project
/// name is declared, and the language is known.
pub open spec fn manifest_text_ok(text: Seq<char>) -> bool {
    let ls = line_words(text);
    &&& forall|i: int| 0 <= i < ls.len() ==> line_ok(#[trigger] ls[i])
    &&& last_value(ls, name_key()) is Some
    &&& is_safe_name(last_value(ls, name_key())->0)
    &&& language_of(language_value(ls)) is Some
}

/// The rules of `v` are exactly `p`.
pub open spec fn rules_match(v: Seq<ProfileRule>, p: Seq<(Seq<char>, Seq<Seq<char>>)>) -> bool {
    &&& v.len() == p.len()
    &&& forall|j: int|
        0 <= j < v.len() ==> (#[trigger] v[j]).name@ == p[j].0 && strs(v[j].flags@) == p[j].1
}

/// `m` is the manifest that `text` declares.
pub open spec fn manifest_of(m: Manifest, text: Seq<char>) -> bool {
    let ls = line_words(text);
    &&& Some(m.name@) == last_value(ls, name_key())
    &&& Some(m.language) == language_of(language_value(ls))
    &&& strs(m.sources@) == values_for(ls, sources_key())
    &&& strs(m.libraries@) == values_for(ls, libraries_key())
    &&& rules_match(m.profiles@, profiles_of(ls))
}

/// Appends copies of `w[k..]` to `out`.
fn push_from(out: &mut Vec<String>, w: &Vec<String>, k: usize)
    requires
        k <= w@.len(),
    ensures
        strs(final(out)@) == strs(old(out)@) + strs(w@).subrange(k as int, w@.len() as int),
{
    let ghost start = out@;
    let mut i: usize = k;
    while i < w.len()
        invariant
            k <= i <= w@.len(),
            strs(out@) == strs(start) + strs(w@).subrange(k as int, i as int),
        decreases w.len() - i,
    {
        let ghost before = out@;
        out.push(w[i].clone());
        assert(strs(out@) =~= strs(before).push(w@[i as int]@));
        assert(strs(w@).subrange(k as int, i + 1) =~= strs(w@).subrange(k as int, i as int).push(
            w@[i as int]@,
        ));
        i = i + 1;
    }
}

fn is_profile_key_exec(k: &str) -> (r: bool)
    ensures
        r == is_profile_key(k@),
{
    proof {
        reveal_strlit("profile.");
        assert("profile."@ =~= profile_prefix());
    }
    let n = k.unicode_len();
    n > 8 && str_eq(k.substring_char(0, 8), "profile.")
}

/// Reads a manifest text. Each line holds blank-separated words: a key,
/// `=`, then its values; empty lines and lines starting with `#` are
/// skipped. Keys are `project.name` and `project.language` (one value each),
/// `sources` and `libraries` (any number, accumulated in order) and
/// `profile.<name>` (the flags of that profile). The last name and language
/// win; the language defaults to `c`.
pub fn parse_manifest(text: &str) -> (r: Result<Manifest, BuildError>)
    ensures
        r is Ok <==> manifest_text_ok(text@),
        r matches Err(e) ==> e == BuildError::ManifestMalformed,
        r matches Ok(m) ==> m.wf() && manifest_of(m, text@),
{
    let lines = split_tokens(text, true);
    let ghost ls = line_words(text@);
    assert(ls.len() == lines@.len());
    let mut name: Option<String> = None;
    let mut lang: Option<String> = None;
    let mut sources: Vec<String> = Vec::new();
    let mut libraries: Vec<String> = Vec::new();
    let mut profiles: Vec<ProfileRule> = Vec::new();
    let mut i: usize = 0;
    while i < lines.len()
        invariant
            ls == line_words(text@),
            ls.len() == lines@.len(),
            forall|j: int| 0 <= j < ls.len() ==> ls[j] == tokens(#[trigger] lines@[j]@, false),
            i <= lines@.len(),
            forall|j: int| 0 <= j < i ==> line_ok(#[trigger] ls[j]),
            (match name {
                Some(s) => Some(s@),
                None => None,
            }) == last_value(ls.subrange(0, i as int), name_key()),
            (match lang {
                Some(s) => Some(s@),
                None => None,
            }) == last_value(ls.subrange(0, i as int), language_key()),
            strs(sources@) == values_for(ls.subrange(0, i as int), sources_key()),
            strs(libraries@) == values_for(ls.subrange(0, i as int), libraries_key()),
            rules_match(profiles@, profiles_of(ls.subrange(0, i as int))),
        decreases lines.len() - i,
    {
        proof {
            reveal_strlit("=");
            reveal_strlit("project.name");
            reveal_strlit("project.language");
            reveal_strlit("sources");
            reveal_strlit("libraries");
            assert("="@ =~= seq!['=']);
            assert("project.name"@ =~= name_key());
            assert("project.language"@ =~= language_key());
            assert("sources"@ =~= sources_key());
            assert("libraries"@ =~= libraries_key());
        }
        let w = split_tokens(lines[i].as_str(), false);
        let ghost wl = ls[i as int];
        assert(strs(w@) == wl);
        assert(ls.subrange(0, i + 1).drop_last() =~= ls.subrange(0, i as int));
        assert(ls.subrange(0, i + 1).last() == wl);
        let n = w.len();
        let blank = n == 0 || (w[0].as_str().unicode_len() > 0 && w[0].as_str().get_char(0) == '#');
        if !blank {
            assert(w@[0]@ == wl[0]);
            if n < 2 || !str_eq(w[1].as_str(), "=") {
                assert(!line_ok(ls[i as int]));
                return Err(BuildError::ManifestMalformed);
            }
            assert(w@[1]@ == wl[1]);
            let key = w[0].as_str();
            assert(key@ == wl[0]);
            assert(strs(w@).subrange(2, n as int) == wl.subrange(2, wl.len() as int));
            if str_eq(key, "project.name") || str_eq(key, "project.language") {
                if n != 3 {
                    assert(!line_ok(ls[i as int]));
                    return Err(BuildError::ManifestMalformed);
                }
                assert(w@[2]@ == wl[2]);
                if str_eq(key, "project.name") {
                    name = Some(w[2].clone());
                } else {
                    lang = Some(w[2].clone());
                }
            } else if str_eq(key, "sources") {
                push_from(&mut sources, &w, 2);
            } else if str_eq(key, "libraries") {
                push_from(&mut libraries, &w, 2);
            } else if is_profile_key_exec(key) {
                let mut flags: Vec<String> = Vec::new();
                push_from(&mut flags, &w, 2);
                assert(strs(flags@) =~= wl.subrange(2, wl.len() as int));
                let rule = ProfileRule {
                    name: String::from_str(key.substring_char(8, key.unicode_len())),
                    flags,
                };
                let ghost before = profiles@;
                profiles.push(rule);
                assert(profiles@ == before.push(rule));
            } else {
                assert(!line_ok(ls[i as int]));
                return Err(BuildError::ManifestMalformed);
            }
        }
        assert(line_ok(ls[i as int]));
        i = i + 1;
    }
    assert(ls.subrange(0, lines@.len() as int) =~= ls);
    let name = match name {
        Some(s) => s,
        None => {
            return Err(BuildError::ManifestMalformed);
        },
    };
    proof {
        reveal_strlit("c");
    }
    let lang = match lang {
        Some(s) => s,
        None => String::from_str("c"),
    };
    assert(lang@ == language_value(ls));
    make_manifest(name, lang.as_str(), profiles, sources, libraries)
}

} // verus!
