use vstd::prelude::*;
use vstd::string::*;
use crate::model::Language;

verus! {

/// The subcommands of the tool.
#[derive(Clone, Debug)]
pub enum Commands {
    Init { language: Language },
    New { proj_name: String, language: Language },
    Build { profile: String },
    Run { profile: String, args: Vec<String> },
}

pub open spec fn build_word() -> Seq<char> {
    seq!['b', 'u', 'i', 'l', 'd']
}

pub open spec fn run_word() -> Seq<char> {
    seq!['r', 'u', 'n']
}

pub open spec fn separator() -> Seq<char> {
    seq!['-', '-']
}

/// The profile used when none is given.
pub open spec fn default_profile() -> Seq<char> {
    seq!['-', '-', 'd', 'e', 'v']
}

/// Compares two strings character by character.
pub fn str_eq(a: &str, b: &str) -> (r: bool)
    ensures
        r == (a@ == b@),
{
    let n = a.unicode_len();
    if n != b.unicode_len() {
        return false;
    }
    let mut i: usize = 0;
    while i < n
        invariant
            n == a@.len(),
            n == b@.len(),
            i <= n,
            forall|j: int| 0 <= j < i ==> a@[j] == b@[j],
        decreases n - i,
    {
        if a.get_char(i) != b.get_char(i) {
            return false;
        }
        i = i + 1;
    }
    assert(a@ =~= b@);
    true
}

impl Commands {
    /// Builds a `build` or `run` command from its parts; `args` is kept only for `run`.
    pub fn new(variant: &str, profile: &str, args: Vec<String>) -> (r: Self)
        requires
            variant@ == build_word() || variant@ == run_word(),
        ensures
            variant@ == build_word() ==> (r matches Commands::Build { profile: p } && p@
                == profile@),
            variant@ == run_word() ==> (r matches Commands::Run { profile: p, args: a } && p@
                == profile@ && a@ == args@),
    {
        proof {
            reveal_strlit("build");
            assert("build"@ =~= build_word());
        }
        if str_eq(variant, "build") {
            Commands::Build { profile: String::from_str(profile) }
        } else {
            Commands::Run { profile: String::from_str(profile), args }
        }
    }
}

/// Index of the first separator token at or after `i`, or `raw.len()`.
pub open spec fn first_sep(raw: Seq<String>, i: int) -> int
    decreases raw.len() - i,
{
    if i < 0 || i >= raw.len() {
        raw.len() as int
    } else if raw[i]@ == separator() {
        i
    } else {
        first_sep(raw, i + 1)
    }
}

/// The profile argument of a `build`/`run` command line.
pub open spec fn chosen_profile(raw: Seq<String>) -> Seq<char> {
    if raw.len() >= 3 && raw[2]@ != separator() {
        raw[2]@
    } else {
        default_profile()
    }
}

/// The command line is well formed: a separator, if any, is the 2nd or 3rd
/// token after the program name; without one, at most one token follows the command.
pub open spec fn scan_ok(raw: Seq<String>) -> bool {
    let s = first_sep(raw, 0);
    if s < raw.len() {
        s == 2 || s == 3
    } else {
        raw.len() <= 3
    }
}

/// Reads a `build`/`run` command line (program name, command, then an
/// optional profile and `--`-separated arguments for the binary). `None` on a
/// usage error.
pub fn scan_command(raw: &Vec<String>) -> (r: Option<Commands>)
    requires
        raw@.len() >= 2,
        raw@[1]@ == build_word() || raw@[1]@ == run_word(),
    ensures
        r is Some <==> scan_ok(raw@),
        r matches Some(c) ==> {
            let s = first_sep(raw@, 0);
            &&& raw@[1]@ == build_word() ==> (c matches Commands::Build { profile: p } && p@
                == chosen_profile(raw@))
            &&& raw@[1]@ == run_word() ==> (c matches Commands::Run { profile: p, args: a }
                && p@ == chosen_profile(raw@) && a@ == (if s < raw@.len() {
                raw@.subrange(s + 1, raw@.len() as int)
            } else {
                Seq::<String>::empty()
            }))
        },
{
    proof {
        reveal_strlit("--");
        reveal_strlit("--dev");
        assert("--"@ =~= separator());
        assert("--dev"@ =~= default_profile());
    }
    let mut i: usize = 0;
    let mut found = false;
    while i < raw.len() && !found
        invariant
            i <= raw@.len(),
            "--"@ == separator(),
            found ==> i < raw@.len() && raw@[i as int]@ == separator(),
            first_sep(raw@, 0) == first_sep(raw@, i as int),
        decreases raw.len() - i + (if found { 0int } else { 1int }),
    {
        if str_eq(raw[i].as_str(), "--") {
            found = true;
        } else {
            i = i + 1;
        }
    }
    assert(i == first_sep(raw@, 0));
    let mut args: Vec<String> = Vec::new();
    if i < raw.len() {
        if i != 2 && i != 3 {
            return None;
        }
        let mut j: usize = i + 1;
        while j < raw.len()
            invariant
                i < j <= raw@.len(),
                args@ =~= raw@.subrange(i + 1, j as int),
            decreases raw.len() - j,
        {
            args.push(raw[j].clone());
            j = j + 1;
        }
    } else if raw.len() > 3 {
        return None;
    }
    let profile = if raw.len() >= 3 && !str_eq(raw[2].as_str(), "--") {
        raw[2].clone()
    } else {
        String::from_str("--dev")
    };
    Some(Commands::new(raw[1].as_str(), profile.as_str(), args))
}

} // verus!
