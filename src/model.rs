use vstd::prelude::*;

verus! {

/// Source language of a project; selects the toolchain.
#[derive(Clone, Copy, Debug, PartialEq, Eq, Structural)]
pub enum Language {
    C,
    Cpp,
}

/// Errors of the build pipeline.
#[derive(Clone, Copy, Debug, PartialEq, Eq, Structural)]
pub enum BuildError {
    ManifestNotFound,
    ManifestMalformed,
    InvalidProfileSyntax,
    NoSourcesFound,
    LayoutIoError,
    DirectoryConflict,
    BinaryNotFound,
}

/// One optimization-profile rule: a profile name and the flags it selects.
#[derive(Clone, Debug)]
pub struct ProfileRule {
    pub name: String,
    pub flags: Vec<String>,
}

/// The typed project configuration.
#[derive(Clone, Debug)]
pub struct Manifest {
    pub name: String,
    pub language: Language,
    pub profiles: Vec<ProfileRule>,
    pub sources: Vec<String>,
    pub libraries: Vec<String>,
}

/// The characters of each string of a sequence.
pub open spec fn strs(v: Seq<String>) -> Seq<Seq<char>> {
    v.map_values(|s: String| s@)
}

/// A name is filesystem-safe when it is non-empty, holds no path separator,
/// and is not `.` or `..`.
pub open spec fn is_safe_name(s: Seq<char>) -> bool {
    &&& s.len() > 0
    &&& forall|i: int| 0 <= i < s.len() ==> s[i] != '/' && s[i] != '\\'
    &&& s != seq!['.']
    &&& s != seq!['.', '.']
}

impl Manifest {
    pub open spec fn wf(&self) -> bool {
        is_safe_name(self.name@)
    }
}

/// Tests whether `s` is a non-empty name without path separators.
pub fn is_safe_name_exec(s: &str) -> (r: bool)
    ensures
        r == is_safe_name(s@),
{
    let n = s.unicode_len();
    if n == 0 {
        return false;
    }
    let mut i: usize = 0;
    while i < n
        invariant
            n == s@.len(),
            i <= n,
            forall|j: int| 0 <= j < i ==> s@[j] != '/' && s@[j] != '\\',
        decreases n - i,
    {
        let c = s.get_char(i);
        if c == '/' || c == '\\' {
            return false;
        }
        i = i + 1;
    }
    if n == 1 && s.get_char(0) == '.' {
        assert(s@ =~= seq!['.']);
        return false;
    }
    if n == 2 && s.get_char(0) == '.' && s.get_char(1) == '.' {
        assert(s@ =~= seq!['.', '.']);
        return false;
    }
    proof {
        if s@ == seq!['.'] {
            assert(s@[0] == '.');
        }
        if s@ == seq!['.', '.'] {
            assert(s@[0] == '.' && s@[1] == '.');
        }
    }
    true
}

/// The language named by a manifest value: `c` or `cpp`.
pub open spec fn language_of(v: Seq<char>) -> Option<Language> {
    if v == seq!['c'] {
        Some(Language::C)
    } else if v == seq!['c', 'p', 'p'] {
        Some(Language::Cpp)
    } else {
        None
    }
}

/// Reads a language value.
pub fn parse_language(v: &str) -> (r: Option<Language>)
    ensures
        r == language_of(v@),
{
    let n = v.unicode_len();
    if n == 1 && v.get_char(0) == 'c' {
        assert(v@ =~= seq!['c']);
        Some(Language::C)
    } else if n == 3 && v.get_char(0) == 'c' && v.get_char(1) == 'p' && v.get_char(2) == 'p' {
        assert(v@ =~= seq!['c', 'p', 'p']);
        Some(Language::Cpp)
    } else {
        proof {
            if v@ == seq!['c'] {
                assert(v@[0] == 'c');
            }
            if v@ == seq!['c', 'p', 'p'] {
                assert(v@[0] == 'c' && v@[1] == 'p' && v@[2] == 'p');
            }
        }
        None
    }
}

/// Checks and assembles a manifest from its parts: the project name must be
/// filesystem-safe and the language one of `c` and `cpp`.
pub fn make_manifest(
    name: String,
    language: &str,
    profiles: Vec<ProfileRule>,
    sources: Vec<String>,
    libraries: Vec<String>,
) -> (r: Result<Manifest, BuildError>)
    ensures
        r is Ok <==> is_safe_name(name@) && language_of(language@) is Some,
        r matches Err(e) ==> e == BuildError::ManifestMalformed,
        r matches Ok(m) ==> {
            &&& m.wf()
            &&& m.name@ == name@
            &&& Some(m.language) == language_of(language@)
            &&& m.profiles@ == profiles@
            &&& m.sources@ == sources@
            &&& m.libraries@ == libraries@
        },
{
    if !is_safe_name_exec(name.as_str()) {
        return Err(BuildError::ManifestMalformed);
    }
    match parse_language(language) {
        Some(l) => Ok(Manifest { name, language: l, profiles, sources, libraries }),
        None => Err(BuildError::ManifestMalformed),
    }
}

} // verus!
