use vstd::prelude::*;
use vstd::string::*;
use crate::model::{strs, BuildError, Language, Manifest};
use crate::profile::{has_marker, parse_profile};
use crate::resolve::{lib_arg, resolve_flags, resolve_libraries, resolve_sources, resolved_flags};

verus! {

/// The compiler executable for a language.
pub open spec fn toolchain_spec(l: Language) -> Seq<char> {
    match l {
        Language::C => seq!['c', 'c'],
        Language::Cpp => seq!['c', '+', '+'],
    }
}

/// `build/<profile>`, relative to the project root.
pub open spec fn profile_dir_spec(profile: Seq<char>) -> Seq<char> {
    seq!['b', 'u', 'i', 'l', 'd', '/'] + profile
}

/// `build/<profile>/<name>`: where the compiled binary goes.
pub open spec fn output_path_spec(profile: Seq<char>, name: Seq<char>) -> Seq<char> {
    profile_dir_spec(profile) + seq!['/'] + name
}

/// The full compiler invocation in its canonical order.
pub open spec fn command_spec(
    lang: Language,
    name: Seq<char>,
    profile: Seq<char>,
    sources: Seq<Seq<char>>,
    libraries: Seq<Seq<char>>,
    flags: Seq<Seq<char>>,
) -> Seq<Seq<char>> {
    seq![toolchain_spec(lang)] + flags + sources + libraries + seq![
        seq!['-', 'o'],
        output_path_spec(profile, name),
    ]
}

/// The compiler executable for a language.
pub fn toolchain(l: Language) -> (r: String)
    ensures
        r@ == toolchain_spec(l),
{
    match l {
        Language::C => {
            proof {
                reveal_strlit("cc");
            }
            String::from_str("cc")
        },
        Language::Cpp => {
            proof {
                reveal_strlit("c++");
            }
            String::from_str("c++")
        },
    }
}

/// The per-profile output directory, relative to the project root.
pub fn profile_dir(profile: &str) -> (r: String)
    ensures
        r@ == profile_dir_spec(profile@),
{
    proof {
        reveal_strlit("build/");
    }
    let mut r = String::from_str("build/");
    r.append(profile);
    r
}

/// The path of the compiled binary, relative to the project root.
pub fn output_path(profile: &str, name: &str) -> (r: String)
    ensures
        r@ == output_path_spec(profile@, name@),
{
    let mut r = profile_dir(profile);
    proof {
        reveal_strlit("/");
    }
    r.append("/");
    r.append(name);
    r
}

/// Appends copies of `v` to `out`.
fn extend_strings(out: &mut Vec<String>, v: &Vec<String>)
    ensures
        strs(final(out)@) == strs(old(out)@) + strs(v@),
{
    let ghost start = out@;
    let mut i: usize = 0;
    while i < v.len()
        invariant
            i <= v.len(),
            out@.len() == start.len() + i,
            forall|j: int| 0 <= j < start.len() ==> #[trigger] out@[j]@ == start[j]@,
            forall|j: int| 0 <= j < i ==> #[trigger] out@[start.len() + j]@ == v@[j]@,
        decreases v.len() - i,
    {
        out.push(v[i].clone());
        i = i + 1;
    }
    assert forall|j: int| 0 <= j < strs(out@).len() implies strs(out@)[j] == (strs(start)
        + strs(v@))[j] by {
        if j >= start.len() {
            assert(out@[start.len() + (j - start.len())]@ == v@[j - start.len()]@);
        }
    }
    assert(strs(out@) =~= strs(start) + strs(v@));
}

/// Assembles the compiler invocation: toolchain, then flags, sources,
/// libraries, and the output-path argument, in that order.
pub fn synthesize(
    manifest: &Manifest,
    profile: &str,
    sources: &Vec<String>,
    libraries: &Vec<String>,
    flags: &Vec<String>,
) -> (r: Vec<String>)
    ensures
        strs(r@) == command_spec(
            manifest.language,
            manifest.name@,
            profile@,
            strs(sources@),
            strs(libraries@),
            strs(flags@),
        ),
{
    let mut r: Vec<String> = Vec::new();
    r.push(toolchain(manifest.language));
    assert(strs(r@) =~= seq![toolchain_spec(manifest.language)]);
    extend_strings(&mut r, flags);
    extend_strings(&mut r, sources);
    extend_strings(&mut r, libraries);
    let ghost before = r@;
    proof {
        reveal_strlit("-o");
    }
    let o = String::from_str("-o");
    assert(o@ == seq!['-', 'o']);
    let out = output_path(profile, manifest.name.as_str());
    r.push(o);
    r.push(out);
    assert(r@[before.len() as int]@ == seq!['-', 'o']);
    assert(strs(r@) =~= strs(before) + seq![
        seq!['-', 'o'],
        output_path_spec(profile@, manifest.name@),
    ]);
    r
}

/// Everything a build needs decided before any process runs.
pub struct BuildPlan {
    /// The profile name, marker stripped.
    pub profile: String,
    /// The output directory to create.
    pub dir: String,
    /// The compiler invocation, executable first.
    pub command: Vec<String>,
}

/// Runs the pure stages of a build: profile validation, source, library
/// and flag resolution, and command assembly. Stops at the first failure.
pub fn plan_build(profile_arg: &str, manifest: &Manifest) -> (r: Result<BuildPlan, BuildError>)
    ensures
        !has_marker(profile_arg@) ==> r == Err::<BuildPlan, BuildError>(
            BuildError::InvalidProfileSyntax,
        ),
        has_marker(profile_arg@) && manifest.sources@.len() == 0 ==> r == Err::<
            BuildPlan,
            BuildError,
        >(BuildError::NoSourcesFound),
        r is Ok <==> has_marker(profile_arg@) && manifest.sources@.len() > 0,
        r matches Ok(p) ==> {
            &&& p.profile@ == profile_arg@.subrange(2, profile_arg@.len() as int)
            &&& p.dir@ == profile_dir_spec(p.profile@)
            &&& strs(p.command@) == command_spec(
                manifest.language,
                manifest.name@,
                p.profile@,
                strs(manifest.sources@),
                manifest.libraries@.map_values(|l: String| lib_arg(l@)),
                resolved_flags(*manifest, p.profile@),
            )
        },
{
    let profile = match parse_profile(profile_arg) {
        Ok(p) => p,
        Err(e) => {
            return Err(e);
        },
    };
    let dir = profile_dir(profile.as_str());
    let sources = match resolve_sources(manifest) {
        Ok(s) => s,
        Err(e) => {
            return Err(e);
        },
    };
    let libraries = resolve_libraries(manifest);
    let flags = resolve_flags(&profile, manifest);
    let command = synthesize(manifest, profile.as_str(), &sources, &libraries, &flags);
    Ok(BuildPlan { profile, dir, command })
}

} // verus!
