use trufc::cli::{scan_command, str_eq, Commands};
use trufc::command::{output_path, plan_build, profile_dir, synthesize, toolchain};
use trufc::model::{is_safe_name_exec, BuildError, Language, Manifest, ProfileRule};
use trufc::parser::{parse_manifest, split_tokens};
use trufc::profile::parse_profile;
use trufc::sources::{expand_sources, glob_match, is_pattern_exec, lex_le_exec, sort_strings};
use trufc::resolve::{resolve_flags, resolve_libraries, resolve_sources};

fn strings(v: &[&str]) -> Vec<String> {
    v.iter().map(|s| s.to_string()).collect()
}

fn manifest(profiles: Vec<ProfileRule>, sources: &[&str], libs: &[&str]) -> Manifest {
    Manifest {
        name: "app".to_string(),
        language: Language::C,
        profiles,
        sources: strings(sources),
        libraries: strings(libs),
    }
}

fn rule(name: &str, flags: &[&str]) -> ProfileRule {
    ProfileRule { name: name.to_string(), flags: strings(flags) }
}

#[test]
fn build_dev_scenario() {
    let m = manifest(vec![rule("dev", &["-g"])], &["main.c"], &[]);
    let plan = plan_build("--dev", &m).unwrap();
    assert_eq!(plan.profile, "dev");
    assert_eq!(plan.dir, "build/dev");
    assert_eq!(plan.command, strings(&["cc", "-g", "main.c", "-o", "build/dev/app"]));
}

#[test]
fn profile_without_marker_is_rejected() {
    let m = manifest(vec![rule("dev", &["-g"])], &["main.c"], &[]);
    assert!(matches!(plan_build("dev", &m), Err(BuildError::InvalidProfileSyntax)));
    assert_eq!(parse_profile("dev"), Err(BuildError::InvalidProfileSyntax));
    assert_eq!(parse_profile("-"), Err(BuildError::InvalidProfileSyntax));
    assert_eq!(parse_profile("--release"), Ok("release".to_string()));
    assert_eq!(parse_profile("--"), Ok(String::new()));
}

#[test]
fn run_forwards_arguments_after_separator() {
    let raw = strings(&["trufc", "run", "--dev", "--", "foo", "bar"]);
    match scan_command(&raw) {
        Some(Commands::Run { profile, args }) => {
            assert_eq!(profile, "--dev");
            assert_eq!(args, strings(&["foo", "bar"]));
            let name = parse_profile(&profile).unwrap();
            assert_eq!(output_path(&name, "app"), "build/dev/app");
        }
        other => panic!("unexpected {:?}", other),
    }
}

#[test]
fn scan_defaults_and_usage_errors() {
    match scan_command(&strings(&["trufc", "build"])) {
        Some(Commands::Build { profile }) => assert_eq!(profile, "--dev"),
        other => panic!("unexpected {:?}", other),
    }
    match scan_command(&strings(&["trufc", "run", "--", "x"])) {
        Some(Commands::Run { profile, args }) => {
            assert_eq!(profile, "--dev");
            assert_eq!(args, strings(&["x"]));
        }
        other => panic!("unexpected {:?}", other),
    }
    match scan_command(&strings(&["trufc", "build", "dev"])) {
        Some(Commands::Build { profile }) => assert_eq!(profile, "dev"),
        other => panic!("unexpected {:?}", other),
    }
    assert!(scan_command(&strings(&["trufc", "run", "--dev", "a", "--", "x"])).is_none());
    assert!(scan_command(&strings(&["trufc", "build", "--dev", "extra"])).is_none());
}

#[test]
fn commands_new_builds_variants() {
    match Commands::new("build", "--x", vec![]) {
        Commands::Build { profile } => assert_eq!(profile, "--x"),
        other => panic!("unexpected {:?}", other),
    }
    match Commands::new("run", "--x", strings(&["a"])) {
        Commands::Run { profile, args } => {
            assert_eq!(profile, "--x");
            assert_eq!(args, strings(&["a"]));
        }
        other => panic!("unexpected {:?}", other),
    }
}

#[test]
fn declared_release_flags_are_used() {
    let m = manifest(vec![rule("dev", &["-g"]), rule("release", &["-O3", "-DNDEBUG"])], &["a.c"], &[]);
    assert_eq!(resolve_flags(&"release".to_string(), &m), strings(&["-O3", "-DNDEBUG"]));
    assert_eq!(resolve_flags(&"dev".to_string(), &m), strings(&["-g"]));
}

#[test]
fn unknown_profile_gets_default_flags() {
    let m = manifest(vec![rule("dev", &["-g"])], &["a.c"], &[]);
    assert_eq!(resolve_flags(&"nonexistent".to_string(), &m), strings(&["-O2"]));
    let empty = manifest(vec![], &["a.c"], &[]);
    assert_eq!(resolve_flags(&"release".to_string(), &empty), strings(&["-O2"]));
}

#[test]
fn first_rule_of_a_name_wins() {
    let m = manifest(vec![rule("dev", &["-g"]), rule("dev", &["-O1"])], &["a.c"], &[]);
    assert_eq!(resolve_flags(&"dev".to_string(), &m), strings(&["-g"]));
}

#[test]
fn sources_keep_declaration_order() {
    let m = manifest(vec![], &["b.c", "a.c", "c.c"], &[]);
    assert_eq!(resolve_sources(&m).unwrap(), strings(&["b.c", "a.c", "c.c"]));
}

#[test]
fn no_sources_is_an_error() {
    let m = manifest(vec![], &[], &[]);
    assert_eq!(resolve_sources(&m), Err(BuildError::NoSourcesFound));
    assert!(matches!(plan_build("--dev", &m), Err(BuildError::NoSourcesFound)));
}

#[test]
fn libraries_become_link_arguments() {
    let m = manifest(vec![], &["a.c"], &["m", "pthread"]);
    assert_eq!(resolve_libraries(&m), strings(&["-lm", "-lpthread"]));
}

#[test]
fn library_order_changes_only_library_segment() {
    let m1 = manifest(vec![rule("release", &["-O3"])], &["a.c", "b.c"], &["m", "z"]);
    let m2 = manifest(vec![rule("release", &["-O3"])], &["a.c", "b.c"], &["z", "m"]);
    let p1 = plan_build("--release", &m1).unwrap();
    let p2 = plan_build("--release", &m2).unwrap();
    assert_eq!(p1.command, strings(&["cc", "-O3", "a.c", "b.c", "-lm", "-lz", "-o", "build/release/app"]));
    assert_eq!(p2.command, strings(&["cc", "-O3", "a.c", "b.c", "-lz", "-lm", "-o", "build/release/app"]));
}

#[test]
fn synthesize_order_and_toolchain() {
    let mut m = manifest(vec![], &["x.cpp"], &[]);
    m.language = Language::Cpp;
    let cmd = synthesize(&m, "rel", &strings(&["x.cpp"]), &strings(&["-lstdc++"]), &strings(&["-O1", "-g"]));
    assert_eq!(cmd, strings(&["c++", "-O1", "-g", "x.cpp", "-lstdc++", "-o", "build/rel/app"]));
    assert_eq!(toolchain(Language::C), "cc");
}

#[test]
fn profile_dir_is_stable() {
    let a = parse_profile("--dev").unwrap();
    let b = parse_profile("--dev").unwrap();
    assert_eq!(profile_dir(&a), profile_dir(&b));
    assert_eq!(profile_dir(&a), "build/dev");
}

#[test]
fn names_and_string_equality() {
    assert!(is_safe_name_exec("app"));
    assert!(!is_safe_name_exec(""));
    assert!(!is_safe_name_exec("a/b"));
    assert!(!is_safe_name_exec("."));
    assert!(!is_safe_name_exec(".."));
    assert!(is_safe_name_exec("..a"));
    assert!(str_eq("run", "run"));
    assert!(!str_eq("run", "ru"));
}

#[test]
fn library_paths_pass_unchanged() {
    let m = manifest(vec![], &["a.c"], &["m", "lib/libfoo.a"]);
    assert_eq!(resolve_libraries(&m), strings(&["-lm", "lib/libfoo.a"]));
}

#[test]
fn tokens_drop_empty_pieces() {
    assert_eq!(split_tokens("  a \tb\r c ", false), strings(&["a", "b", "c"]));
    assert_eq!(split_tokens("x\n\n y\n", true), strings(&["x", " y"]));
    assert_eq!(split_tokens("", true), Vec::<String>::new());
}

#[test]
fn manifest_text_is_parsed() {
    let text = "# demo\nproject.name = app\nproject.language = cpp\n\nsources = main.cpp util.cpp\nsources = extra.cpp\nlibraries = m\nprofile.dev = -g -O0\nprofile.release = -O3\n";
    let m = parse_manifest(text).unwrap();
    assert_eq!(m.name, "app");
    assert_eq!(m.language, Language::Cpp);
    assert_eq!(m.sources, strings(&["main.cpp", "util.cpp", "extra.cpp"]));
    assert_eq!(m.libraries, strings(&["m"]));
    assert_eq!(m.profiles.len(), 2);
    assert_eq!(m.profiles[0].name, "dev");
    assert_eq!(m.profiles[0].flags, strings(&["-g", "-O0"]));
    assert_eq!(m.profiles[1].name, "release");
    assert_eq!(m.profiles[1].flags, strings(&["-O3"]));
}

#[test]
fn manifest_language_defaults_to_c() {
    let m = parse_manifest("project.name = app\nsources = main.c\n").unwrap();
    assert_eq!(m.language, Language::C);
    assert!(m.profiles.is_empty());
    assert!(m.libraries.is_empty());
}

#[test]
fn parsed_manifest_builds() {
    let m = parse_manifest("project.name = app\nprofile.dev = -g\nsources = main.c\n").unwrap();
    let plan = plan_build("--dev", &m).unwrap();
    assert_eq!(plan.command, strings(&["cc", "-g", "main.c", "-o", "build/dev/app"]));
}

#[test]
fn malformed_manifests_are_rejected() {
    let bad = [
        "sources = main.c\n",
        "project.name app\n",
        "project.name = a b\n",
        "project.name = app\nversion = 1\n",
        "project.name = app\nproject.language = rust\n",
        "project.name = ..\n",
        "project.name = app\nprofile. = -g\n",
        "project.name =\n",
    ];
    for text in bad.iter() {
        assert!(matches!(parse_manifest(text), Err(BuildError::ManifestMalformed)), "{}", text);
    }
}

#[test]
fn glob_patterns_match() {
    assert!(glob_match("src/*.c", "src/main.c"));
    assert!(glob_match("src/*.c", "src/.c"));
    assert!(!glob_match("src/*.c", "src/main.h"));
    assert!(glob_match("a?c", "abc"));
    assert!(!glob_match("a?c", "ac"));
    assert!(glob_match("*", ""));
    assert!(glob_match("x*y*z", "xaaybbz"));
    assert!(!glob_match("abc", "abcd"));
    assert!(is_pattern_exec("src/*.c"));
    assert!(!is_pattern_exec("src/main.c"));
}

#[test]
fn strings_sort_lexicographically() {
    assert!(lex_le_exec("ab", "abc"));
    assert!(!lex_le_exec("b", "abc"));
    assert!(lex_le_exec("", ""));
    assert_eq!(sort_strings(&strings(&["c.c", "a.c", "b.c", "a.c"])), strings(&["a.c", "a.c", "b.c", "c.c"]));
    assert_eq!(sort_strings(&Vec::new()), Vec::<String>::new());
}

#[test]
fn patterns_expand_in_declaration_order() {
    let decls = strings(&["main.c", "src/*.c", "z.c"]);
    let listings = vec![
        vec![],
        strings(&["src/util.c", "src/readme.md", "src/app.c"]),
        vec![],
    ];
    assert_eq!(expand_sources(&decls, &listings).unwrap(), strings(&["main.c", "src/app.c", "src/util.c", "z.c"]));
}

#[test]
fn pattern_with_no_match_yields_no_sources() {
    let decls = strings(&["src/*.c"]);
    let listings = vec![strings(&["src/readme.md"])];
    assert_eq!(expand_sources(&decls, &listings), Err(BuildError::NoSourcesFound));
    assert_eq!(expand_sources(&vec![], &vec![]), Err(BuildError::NoSourcesFound));
}
