use vstd::prelude::*;
use vstd::string::*;
use crate::model::{strs, BuildError, Manifest, ProfileRule};

verus! {

/// Flags used for a profile that no manifest rule names.
pub open spec fn default_flags() -> Seq<Seq<char>> {
    seq![seq!['-', 'O', '2']]
}

/// Flags of the first rule at or after `i` whose name is `name`, else the default.
pub open spec fn flags_from(rules: Seq<ProfileRule>, name: Seq<char>, i: int) -> Seq<Seq<char>>
    decreases rules.len() - i,
{
    if i < 0 || i >= rules.len() {
        default_flags()
    } else if rules[i].name@ == name {
        strs(rules[i].flags@)
    } else {
        flags_from(rules, name, i + 1)
    }
}

/// The flags that a manifest selects for a profile name.
pub open spec fn resolved_flags(m: Manifest, name: Seq<char>) -> Seq<Seq<char>> {
    flags_from(m.profiles@, name, 0)
}

/// A library declaration that is a path: it holds a `/`.
pub open spec fn is_lib_path(l: Seq<char>) -> bool {
    exists|i: int| 0 <= i < l.len() && l[i] == '/'
}

/// A library declaration as a link argument: a path is passed as it is,
/// a name becomes `-l<name>`.
pub open spec fn lib_arg(l: Seq<char>) -> Seq<char> {
    if is_lib_path(l) {
        l
    } else {
        seq!['-', 'l'] + l
    }
}

/// Tests whether a library declaration is a path.
pub fn is_lib_path_exec(l: &str) -> (r: bool)
    ensures
        r == is_lib_path(l@),
{
    let n = l.unicode_len();
    let mut i: usize = 0;
    while i < n
        invariant
            n == l@.len(),
            i <= n,
            forall|j: int| 0 <= j < i ==> l@[j] != '/',
        decreases n - i,
    {
        if l.get_char(i) == '/' {
            return true;
        }
        i = i + 1;
    }
    false
}

/// Copies a list of strings.
pub fn copy_strings(v: &Vec<String>) -> (r: Vec<String>)
    ensures
        strs(r@) == strs(v@),
{
    let mut out: Vec<String> = Vec::new();
    let mut i: usize = 0;
    while i < v.len()
        invariant
            i <= v.len(),
            out@.len() == i,
            forall|j: int| 0 <= j < i ==> #[trigger] out@[j]@ == v@[j]@,
        decreases v.len() - i,
    {
        out.push(v[i].clone());
        i = i + 1;
    }
    assert(strs(out@) =~= strs(v@));
    out
}

/// Maps a profile name to its flags: the first manifest rule of that name,
/// or the built-in default when there is none.
pub fn resolve_flags(profile: &String, manifest: &Manifest) -> (r: Vec<String>)
    ensures
        strs(r@) == resolved_flags(*manifest, profile@),
{
    let rules = &manifest.profiles;
    let mut i: usize = 0;
    while i < rules.len()
        invariant
            i <= rules.len(),
            rules@ == manifest.profiles@,
            flags_from(rules@, profile@, 0) == flags_from(rules@, profile@, i as int),
        decreases rules.len() - i,
    {
        if rules[i].name == *profile {
            return copy_strings(&rules[i].flags);
        }
        i = i + 1;
    }
    proof {
        reveal_strlit("-O2");
    }
    let r = vec![String::from_str("-O2")];
    assert(r@[0]@ == seq!['-', 'O', '2']);
    assert(strs(r@) =~= default_flags());
    r
}

/// The sources to compile, in declaration order; an empty list is an error.
pub fn resolve_sources(manifest: &Manifest) -> (r: Result<Vec<String>, BuildError>)
    ensures
        r is Ok <==> manifest.sources@.len() > 0,
        r matches Ok(v) ==> strs(v@) == strs(manifest.sources@),
        r matches Err(e) ==> e == BuildError::NoSourcesFound,
{
    if manifest.sources.len() == 0 {
        Err(BuildError::NoSourcesFound)
    } else {
        Ok(copy_strings(&manifest.sources))
    }
}

/// The link arguments of the declared libraries, in declaration order:
/// `-l<name>` for a name, the path itself for a path.
pub fn resolve_libraries(manifest: &Manifest) -> (r: Vec<String>)
    ensures
        strs(r@) == manifest.libraries@.map_values(|l: String| lib_arg(l@)),
{
    let libs = &manifest.libraries;
    let mut out: Vec<String> = Vec::new();
    let mut i: usize = 0;
    while i < libs.len()
        invariant
            i <= libs.len(),
            out@.len() == i,
            forall|j: int| 0 <= j < i ==> #[trigger] out@[j]@ == lib_arg(libs@[j]@),
        decreases libs.len() - i,
    {
        proof {
            reveal_strlit("-l");
        }
        if is_lib_path_exec(libs[i].as_str()) {
            out.push(libs[i].clone());
        } else {
            let mut a = String::from_str("-l");
            assert(a@ == seq!['-', 'l']);
            a.append(libs[i].as_str());
            out.push(a);
        }
        i = i + 1;
    }
    assert(strs(out@) =~= libs@.map_values(|l: String| lib_arg(l@)));
    out
}

} // verus!
