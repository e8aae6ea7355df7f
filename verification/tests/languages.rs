use sha2::{Digest, Sha256};
use std::path::Path;

use stress_tester::builder::{
    cache_hash, compile_job, compiler_identity, default_cache_dir, display_name, key_bytes, to_hex,
    truncate_head, version_line, Build, BuildEvent, BuildStep,
};
use stress_tester::lang::{
    detect_language, find_any, is_executable, recipe, resolve_compiler, resolve_java_launcher,
    toolchain_names, toolchain_variable, BuildError, BuildOptions, CompilerConfig, FileInfo,
    Language,
};
use stress_tester::path::{extension, file_name, join_path, prefix, stem, Platform, PrefixKind};
use stress_tester::runner::ExitKind;

const LINUX: Platform = Platform::Linux;

const MISSING: FileInfo = FileInfo { is_file: false, mode: 0 };

fn strs(v: &[Vec<u8>]) -> Vec<String> {
    v.iter().map(|b| String::from_utf8_lossy(b).into_owned()).collect()
}

#[test]
fn detect_by_extension() {
    for (name, lang) in [
        ("a.c", Language::C),
        ("a.CPP", Language::Cpp),
        ("a.cc", Language::Cpp),
        ("a.py", Language::Python),
        ("a.rs", Language::Rust),
        ("a.java", Language::Java),
        ("a.js", Language::JavaScript),
        ("a.go", Language::Go),
    ] {
        assert_eq!(detect_language(LINUX, name.as_bytes(), MISSING).unwrap(), lang);
    }
    // Unknown extension on a file that is not executable (does not exist).
    assert!(detect_language(LINUX, b"a.zzz", MISSING).is_err());
    assert!(detect_language(LINUX, b"noextension", MISSING).is_err());
}

#[test]
fn detect_executable_without_extension() {
    let path = b"/tmp/stress-tester-detect-1";
    let plain = FileInfo { is_file: true, mode: 0o644 };
    assert!(detect_language(LINUX, path, plain).is_err());
    let executable = FileInfo { is_file: true, mode: 0o755 };
    assert_eq!(detect_language(LINUX, path, executable).unwrap(), Language::Binary);
}

#[test]
fn other_extensions_of_cpp() {
    for name in ["x.cxx", "x.c++", "dir.py/x.Cc", "x.tar.cpp"] {
        assert_eq!(detect_language(LINUX, name.as_bytes(), MISSING), Ok(Language::Cpp));
    }
    // An extension that is not text stands for nothing.
    assert_eq!(detect_language(LINUX, b"x.\xffc", MISSING), Err(BuildError::UnknownLanguage));
}

#[test]
fn executables_by_platform() {
    let file = FileInfo { is_file: true, mode: 0 };
    assert!(is_executable(Platform::Windows, b"C:\\bin\\sol.EXE", file));
    assert!(is_executable(Platform::Windows, b"sol.com", file));
    assert!(!is_executable(Platform::Windows, b"sol.bat", file));
    assert!(!is_executable(Platform::Windows, b"sol.cmd", file));
    assert!(!is_executable(Platform::Windows, b"sol.exe", MISSING));
    for bits in [0o100, 0o010, 0o001] {
        let info = FileInfo { is_file: true, mode: 0o100600 | bits };
        assert!(is_executable(Platform::Unix, b"sol", info));
        assert!(is_executable(LINUX, b"sol.bin", info));
    }
    assert!(!is_executable(LINUX, b"sol.exe", file));
    assert!(!is_executable(LINUX, b"dir", FileInfo { is_file: false, mode: 0o755 }));
}

#[test]
fn recipes_are_shaped_per_language() {
    let cfg = CompilerConfig { java: Some("my-java".to_owned()), ..Default::default() };
    let dir = b"/cache/h";

    let (compile, run) =
        recipe(LINUX, Language::Java, "javac", &cfg, false, "-g", b"Main.java", dir).unwrap();
    assert_eq!(strs(&compile), ["javac", "-g", "-d", "/cache/h", "Main.java"]);
    assert_eq!(strs(&run), ["my-java", "-cp", "/cache/h", "Main"]);

    // -o is a `go build` flag, so it precedes the source file.
    let (compile, run) =
        recipe(LINUX, Language::Go, "go", &cfg, false, "", b"sol.go", dir).unwrap();
    assert_eq!(strs(&compile), ["go", "build", "-o", "/cache/h/prog", "sol.go"]);
    assert_eq!(strs(&run), ["/cache/h/prog"]);

    let (compile, _) =
        recipe(LINUX, Language::Cpp, "g++", &cfg, false, "-O2", b"s.cpp", dir).unwrap();
    assert_eq!(strs(&compile), ["g++", "-O2", "s.cpp", "-o", "/cache/h/prog"]);

    assert!(recipe(LINUX, Language::Python, "python3", &cfg, false, "", b"s.py", dir).is_err());
}

#[test]
fn recipes_that_cannot_be() {
    let none = CompilerConfig::default();
    let java = |found: bool, source: &[u8]| {
        recipe(LINUX, Language::Java, "javac", &none, found, "", source, b"d")
    };
    assert_eq!(java(false, b"Main.java").unwrap_err(), BuildError::NoLauncher);
    assert_eq!(java(true, b"..").unwrap_err(), BuildError::NoClassName);
    assert_eq!(strs(&java(true, b"a/B.java").unwrap().1), ["java", "-cp", "d", "B"]);
    assert_eq!(
        recipe(LINUX, Language::Binary, "", &none, true, "", b"x", b"d").unwrap_err(),
        BuildError::NoCompileStep(Language::Binary)
    );
    let (_, run) =
        recipe(Platform::Windows, Language::C, "cc", &none, false, "", b"s.c", b"C:\\c").unwrap();
    assert_eq!(strs(&run), ["C:\\c\\prog.exe"]);
}

#[test]
fn hash_depends_on_all_inputs() {
    let a = cache_hash(Language::Cpp, "g++", "15.2", "-O2", b"src");
    assert_ne!(a, cache_hash(Language::Cpp, "g++", "15.3", "-O2", b"src"));
    assert_ne!(a, cache_hash(Language::Cpp, "g++", "15.2", "-O1", b"src"));
    assert_ne!(a, cache_hash(Language::Cpp, "g++", "15.2", "-O2", b"src2"));
    assert_ne!(a, cache_hash(Language::Rust, "g++", "15.2", "-O2", b"src"));
    assert_eq!(a, cache_hash(Language::Cpp, "g++", "15.2", "-O2", b"src"));
}

#[test]
fn hash_is_the_digest_in_hexadecimal() {
    let mut h = Sha256::new();
    h.update(b"c");
    h.update([0]);
    h.update(b"gcc");
    h.update([0]);
    h.update(b"gcc 1.0");
    h.update([0]);
    h.update(b"-O2");
    h.update([0]);
    h.update(b"int main() {}\n");
    let wanted = format!("{:x}", h.finalize());
    assert_eq!(cache_hash(Language::C, "gcc", "gcc 1.0", "-O2", b"int main() {}\n"), wanted);
    assert_eq!(
        key_bytes(Language::C, "gcc", "1", "-O", b"x\0y"),
        b"c\0gcc\x001\0-O\0x\0y".to_vec()
    );
    assert_eq!(to_hex(&[0, 0x0f, 0xa0, 0xff]), "000fa0ff");
}

#[test]
fn toolchains_are_chosen_in_order() {
    let none = CompilerConfig::default();
    let given = CompilerConfig { cc: Some("mycc".to_owned()), ..Default::default() };
    let env = Some("envcc".to_owned());
    let resolve = |cfg: &CompilerConfig, env: &Option<String>, found: &[bool]| {
        resolve_compiler(Language::C, cfg, env, found)
    };
    assert_eq!(resolve(&given, &env, &[true, true, true]).unwrap(), "mycc");
    assert_eq!(resolve(&none, &env, &[true, true, true]).unwrap(), "envcc");
    assert_eq!(resolve(&none, &None, &[true, true, true]).unwrap(), "cc");
    assert_eq!(resolve(&none, &None, &[false, false, true]).unwrap(), "clang");
    assert_eq!(
        resolve(&none, &None, &[false, false, false]).unwrap_err(),
        BuildError::NoToolchain(Language::C)
    );
    // No variable names an interpreter.
    assert_eq!(
        resolve_compiler(Language::Python, &none, &env, &[false, true]).unwrap(),
        "python"
    );
    assert_eq!(
        resolve_compiler(Language::Binary, &none, &env, &[]).unwrap_err(),
        BuildError::NoToolchain(Language::Binary)
    );
    let all = CompilerConfig {
        cc: Some("1".to_owned()),
        cxx: Some("2".to_owned()),
        rustc: Some("3".to_owned()),
        python: Some("4".to_owned()),
        javac: Some("5".to_owned()),
        java: Some("6".to_owned()),
        go: Some("7".to_owned()),
        node: Some("8".to_owned()),
    };
    for (lang, tool) in [
        (Language::C, "1"),
        (Language::Cpp, "2"),
        (Language::Rust, "3"),
        (Language::Python, "4"),
        (Language::Java, "5"),
        (Language::Go, "7"),
        (Language::JavaScript, "8"),
    ] {
        assert_eq!(resolve_compiler(lang, &all, &None, &[]).unwrap(), tool);
    }
    assert_eq!(resolve_java_launcher(&all, false).unwrap(), "6");
    assert_eq!(resolve_java_launcher(&none, true).unwrap(), "java");
    assert_eq!(resolve_java_launcher(&none, false).unwrap_err(), BuildError::NoLauncher);
}

#[test]
fn usual_names_and_variables() {
    assert_eq!(toolchain_names(Language::Cpp), ["c++", "g++", "clang++"]);
    assert_eq!(toolchain_names(Language::JavaScript), ["node", "nodejs"]);
    assert!(toolchain_names(Language::Binary).is_empty());
    assert_eq!(toolchain_variable(Language::C), Some("CC"));
    assert_eq!(toolchain_variable(Language::Cpp), Some("CXX"));
    assert_eq!(toolchain_variable(Language::Java), Some("JAVAC"));
    assert_eq!(toolchain_variable(Language::Go), None);
    let names = vec!["a".to_owned(), "b".to_owned()];
    assert_eq!(find_any(&names, &[false, true]), Some("b".to_owned()));
    assert_eq!(find_any(&names, &[false]), None);
}

#[test]
fn language_table() {
    for (lang, name, tag, flags, version) in [
        (Language::C, "C", "c", "-O2 -std=c11", "--version"),
        (Language::Cpp, "C++", "cpp", "-O2 -std=c++17", "--version"),
        (Language::Rust, "Rust", "rust", "-O", "--version"),
        (Language::Go, "Go", "go", "", "version"),
        (Language::Java, "Java", "java", "", "--version"),
        (Language::Python, "Python", "python", "", "--version"),
        (Language::JavaScript, "JavaScript", "js", "", "--version"),
        (Language::Binary, "binary", "binary", "", "--version"),
    ] {
        assert_eq!(lang.name(), name);
        assert_eq!(lang.tag(), tag);
        assert_eq!(lang.default_flags(), flags);
        assert_eq!(lang.version_args(), version);
        let interpreted = lang == Language::Python || lang == Language::JavaScript;
        assert_eq!(lang.interpreted(), interpreted);
    }
}

#[test]
fn jobs_hold_everything_of_a_compilation() {
    let cfg = CompilerConfig::default();
    let opts = BuildOptions { cache_dir: b"/cache", compilers: &cfg, flags: None };
    let job = compile_job(LINUX, Language::Cpp, &opts, false, "g++", "v1", b"a/s.cpp", b"src").unwrap();
    let key = cache_hash(Language::Cpp, "g++", "v1", "-O2 -std=c++17", b"src");
    let dir = format!("/cache/{key}");
    assert_eq!(job.dir, dir.as_bytes());
    assert_eq!(job.marker, format!("{dir}/.built").as_bytes());
    assert_eq!(job.stdout_log, format!("{dir}/build.stdout").as_bytes());
    assert_eq!(job.stderr_log, format!("{dir}/build.stderr").as_bytes());
    assert_eq!(
        strs(&job.compile),
        ["g++", "-O2", "-std=c++17", "a/s.cpp", "-o", &format!("{dir}/prog")]
    );
    assert_eq!(strs(&job.run), [format!("{dir}/prog")]);
    let spec = job.run_spec();
    assert_eq!(spec.argv, job.compile);
    assert_eq!(spec.stdin_file, None);
    assert_eq!(spec.stdout_file, Some(job.stdout_log.clone()));
    assert_eq!(spec.stderr_file, Some(job.stderr_log.clone()));
    assert_eq!(spec.wall_limit.as_millis(), 120_000);
    assert_eq!(spec.memory_limit, u64::MAX);

    let opts = BuildOptions { cache_dir: b"/cache", compilers: &cfg, flags: Some("-g  -Wall") };
    let job = compile_job(LINUX, Language::C, &opts, false, "cc", "", b"s.c", b"").unwrap();
    assert_eq!(strs(&job.compile)[..4], ["cc", "-g", "-Wall", "s.c"]);
    assert_eq!(
        compile_job(LINUX, Language::Python, &opts, false, "p", "", b"s.py", b"").err().unwrap(),
        BuildError::NoCompileStep(Language::Python)
    );
}

#[test]
fn only_unchanged_programs_share_a_build() {
    let cfg = CompilerConfig::default();
    let job = |lang, flags, tool: &str, version: &str, contents: &[u8]| {
        let opts = BuildOptions { cache_dir: b"/cache", compilers: &cfg, flags };
        compile_job(LINUX, lang, &opts, false, tool, version, b"s.cpp", contents).unwrap()
    };
    let first = job(Language::Cpp, None, "g++", "15", b"src");
    let again = job(Language::Cpp, Some("-O2 -std=c++17"), "g++", "15", b"src");
    assert_eq!((&first.dir, &first.marker, &first.run), (&again.dir, &again.marker, &again.run));
    for other in [
        job(Language::C, Some("-O2 -std=c++17"), "g++", "15", b"src"),
        job(Language::Cpp, Some("-O3"), "g++", "15", b"src"),
        job(Language::Cpp, None, "clang++", "15", b"src"),
        job(Language::Cpp, None, "g++", "16", b"src"),
        job(Language::Cpp, None, "g++", "15", b"src2"),
    ] {
        assert_ne!(first.dir, other.dir);
        assert_ne!(first.marker, other.marker);
    }
}

const SCRIPT: FileInfo = FileInfo { is_file: true, mode: 0o644 };
const PROGRAM: FileInfo = FileInfo { is_file: true, mode: 0o755 };

fn seen(build: &mut Build, info: FileInfo) {
    build.happened(BuildEvent::Inspected { exists: true, info });
}

#[test]
fn results_are_noted() {
    let cfg = CompilerConfig::default();
    let opts = BuildOptions { cache_dir: b"/cache", compilers: &cfg, flags: None };

    let mut build = Build::start(LINUX, b"dir/sol", &opts);
    assert!(build.result().is_none());
    seen(&mut build, PROGRAM);
    assert_eq!(build.step, BuildStep::Locate);
    build.located(b"/abs/dir/sol");
    let r = build.result().unwrap().unwrap();
    assert_eq!(strs(&r.program.argv), ["/abs/dir/sol"]);
    assert_eq!((r.program.display.as_str(), r.note()), ("sol", "prebuilt"));

    let mut build = Build::start(LINUX, b"dir/s.py", &opts);
    seen(&mut build, SCRIPT);
    build.interpreted(&Some("x".to_owned()), &[true, true]);
    let r = build.result().unwrap().unwrap();
    assert_eq!(strs(&r.program.argv), ["python3", "dir/s.py"]);
    assert_eq!((r.program.display.as_str(), r.note()), ("s.py", "interpreted"));

    let mut build = Build::start(LINUX, b"dir/s.py", &opts);
    seen(&mut build, SCRIPT);
    build.interpreted(&None, &[]);
    assert_eq!(
        build.result().unwrap().err().unwrap(),
        BuildError::NoToolchain(Language::Python)
    );
}

#[test]
fn compiled_programs_are_run_as_their_job_says() {
    let cfg = CompilerConfig { cxx: Some("g++".to_owned()), ..CompilerConfig::default() };
    let opts = BuildOptions { cache_dir: b"/cache", compilers: &cfg, flags: None };
    let key = cache_hash(Language::Cpp, "g++", "g++ 15", "-O2 -std=c++17", b"src");
    let program = format!("/cache/{key}/prog");
    let prepare = || {
        let mut build = Build::start(LINUX, b"a/s.cpp", &opts);
        seen(&mut build, SCRIPT);
        assert_eq!(build.step, BuildStep::Prepare(Language::Cpp));
        build.sought(&None, &[]);
        assert_eq!(build.step, BuildStep::Prepare(Language::Cpp));
        assert_eq!(build.tool.as_deref(), Some("g++"));
        build.prepared(false, (true, b"g++ 15\nmore\n"), b"src");
        assert_eq!(build.step, BuildStep::Probe(Language::Cpp));
        assert!(build.result().is_none());
        let job = build.job.as_ref().unwrap();
        assert_eq!(job.marker, format!("/cache/{key}/.built").as_bytes());
        build
    };

    let mut cached = prepare();
    cached.happened(BuildEvent::Probed(true));
    let r = cached.result().unwrap().unwrap();
    assert_eq!(strs(&r.program.argv), [program.as_str()]);
    assert_eq!((r.program.display.as_str(), r.note()), ("s.cpp", "cached"));

    let mut fresh = prepare();
    fresh.happened(BuildEvent::Probed(false));
    fresh.happened(BuildEvent::Compiled { timed_out: false, exit: ExitKind::Code(0) });
    fresh.happened(BuildEvent::Marked);
    let r = fresh.result().unwrap().unwrap();
    assert_eq!(strs(&r.program.argv), [program.as_str()]);
    assert_eq!(r.note(), "compiled");

    let mut failed = prepare();
    failed.happened(BuildEvent::Probed(false));
    failed.happened(BuildEvent::Compiled { timed_out: true, exit: ExitKind::Signal(9) });
    assert!(failed.result().is_none());
    failed.happened(BuildEvent::Abandoned);
    assert_eq!(failed.result().unwrap().err().unwrap(), BuildError::TimedOut);
}

#[test]
fn programs_that_cannot_be_prepared_fail() {
    let cfg = CompilerConfig::default();
    let opts = BuildOptions { cache_dir: b"/cache", compilers: &cfg, flags: None };
    let mut build = Build::start(LINUX, b"Main.java", &opts);
    seen(&mut build, SCRIPT);
    build.sought(&None, &[false]);
    assert_eq!(build.result().unwrap().err().unwrap(), BuildError::NoToolchain(Language::Java));

    let mut build = Build::start(LINUX, b"Main.java", &opts);
    seen(&mut build, SCRIPT);
    build.sought(&None, &[true]);
    build.prepared(false, (false, b""), b"class Main {}");
    assert_eq!(build.result().unwrap().err().unwrap(), BuildError::NoLauncher);
}

#[test]
fn names_are_shown_as_text() {
    assert_eq!(display_name(LINUX, b"dir/s.py"), "s.py");
    assert_eq!(display_name(LINUX, b".."), "");
    assert_eq!(display_name(LINUX, b"x/\xff.c"), "\u{fffd}.c");
    // On Windows one replacement character stands for half a surrogate pair.
    let w = Platform::Windows;
    assert_eq!(display_name(w, b"d\\a\xed\xa0\x80b.c"), "a\u{fffd}b.c");
    assert_eq!(display_name(w, b"\xed\xb0\x80\xed\xb0\x80"), "\u{fffd}\u{fffd}");
    assert_eq!(display_name(w, "é\u{d7ff}.c".as_bytes()), "é\u{d7ff}.c");
    let unix = display_name(LINUX, b"a\xed\xa0\x80b.c");
    assert_eq!(unix, String::from_utf8_lossy(b"a\xed\xa0\x80b.c"));
    assert_eq!(unix.chars().count(), 7);
}

#[test]
fn builds_take_their_course() {
    let info = FileInfo { is_file: true, mode: 0o755 };
    let inspected = BuildEvent::Inspected { exists: true, info };
    let run = |source: &[u8], events: &[BuildEvent]| {
        events.iter().fold(BuildStep::Inspect, |step, e| step.next(LINUX, source, *e))
    };
    let ok = BuildEvent::Prepared(None);
    let good = BuildEvent::Compiled { timed_out: false, exit: ExitKind::Code(0) };

    assert_eq!(
        run(b"x.c", &[BuildEvent::Inspected { exists: false, info: MISSING }]),
        BuildStep::Failed(BuildError::FileNotFound)
    );
    assert_eq!(
        run(b"x.zzz", &[BuildEvent::Inspected { exists: true, info: MISSING }]),
        BuildStep::Failed(BuildError::UnknownLanguage)
    );
    assert_eq!(
        run(b"x", &[inspected, BuildEvent::Located]),
        BuildStep::Done { language: Language::Binary, cached: false }
    );
    assert_eq!(
        run(b"x.py", &[inspected, ok]),
        BuildStep::Done { language: Language::Python, cached: false }
    );
    let e = BuildError::NoToolchain(Language::Python);
    assert_eq!(run(b"x.py", &[inspected, BuildEvent::Prepared(Some(e))]), BuildStep::Failed(e));
    assert_eq!(
        run(b"x.c", &[inspected, ok, BuildEvent::Probed(true)]),
        BuildStep::Done { language: Language::C, cached: true }
    );
    let fresh = [inspected, ok, BuildEvent::Probed(false)];
    assert_eq!(run(b"x.c", &fresh), BuildStep::Compile(Language::C));
    let compiled = [inspected, ok, BuildEvent::Probed(false), good];
    assert_eq!(run(b"x.c", &compiled), BuildStep::Mark(Language::C));
    let marked = [inspected, ok, BuildEvent::Probed(false), good, BuildEvent::Marked];
    assert_eq!(
        run(b"x.c", &marked),
        BuildStep::Done { language: Language::C, cached: false }
    );
    for (timed_out, exit, error) in [
        (true, ExitKind::Signal(9), BuildError::TimedOut),
        (false, ExitKind::Code(1), BuildError::Failed(ExitKind::Code(1))),
        (false, ExitKind::Signal(11), BuildError::Failed(ExitKind::Signal(11))),
    ] {
        let bad = BuildEvent::Compiled { timed_out, exit };
        let events = [inspected, ok, BuildEvent::Probed(false), bad];
        assert_eq!(run(b"x.c", &events), BuildStep::Abandon(error));
        let events = [inspected, ok, BuildEvent::Probed(false), bad, BuildEvent::Abandoned];
        assert_eq!(run(b"x.c", &events), BuildStep::Failed(error));
    }
}

#[test]
fn errors_say_what_is_missing() {
    let say = |e: BuildError| e.message("dir/s.c", "s.c", "line\n");
    assert_eq!(say(BuildError::FileNotFound), "file not found: dir/s.c");
    assert_eq!(
        say(BuildError::UnknownLanguage),
        "cannot detect language of dir/s.c (supported: .c .cpp .cc .cxx .py .rs .java .js .go, \
         or an already-executable file)"
    );
    assert_eq!(
        say(BuildError::NoToolchain(Language::C)),
        "no C compiler found; install one or pass --cc"
    );
    assert_eq!(
        say(BuildError::NoToolchain(Language::Cpp)),
        "no C++ compiler found; install one or pass --cxx"
    );
    assert_eq!(
        say(BuildError::NoToolchain(Language::Rust)),
        "rustc not found; install Rust or pass --rustc"
    );
    assert_eq!(
        say(BuildError::NoToolchain(Language::Python)),
        "Python interpreter not found; pass --python"
    );
    assert_eq!(
        say(BuildError::NoToolchain(Language::Java)),
        "javac not found; install a JDK or pass --javac"
    );
    assert_eq!(
        say(BuildError::NoToolchain(Language::JavaScript)),
        "node not found; install Node.js or pass --node"
    );
    assert_eq!(
        say(BuildError::NoToolchain(Language::Go)),
        "go not found; install Go or pass --go"
    );
    assert_eq!(
        say(BuildError::NoToolchain(Language::Binary)),
        "internal error: a binary needs no toolchain"
    );
    assert_eq!(say(BuildError::NoLauncher), "java not found; install a JRE or pass --java");
    assert_eq!(
        say(BuildError::NoClassName),
        "dir/s.c has no file stem to use as a class name"
    );
    assert_eq!(
        say(BuildError::NoCompileStep(Language::Python)),
        "internal error: Python has no compile step"
    );
    assert_eq!(say(BuildError::TimedOut), "compilation of s.c timed out");
    assert_eq!(
        say(BuildError::Failed(ExitKind::Code(1))),
        "compilation of s.c failed (exit code 1):\nline"
    );
    assert_eq!(
        say(BuildError::Failed(ExitKind::Signal(9))),
        "compilation of s.c failed (killed by signal 9):\nline"
    );
}

#[test]
fn versions_are_first_lines() {
    assert_eq!(compiler_identity(true, b"  gcc 15.2 \r\nmore\n"), "gcc 15.2");
    assert_eq!(compiler_identity(true, b"\nx"), "");
    assert_eq!(compiler_identity(true, b""), "");
    assert_eq!(compiler_identity(false, b"gcc"), "");
    assert_eq!(compiler_identity(true, b"v\xff1\n"), "v\u{fffd}1");
    assert_eq!(version_line("a\nb"), "a");
}

#[test]
fn logs_are_cut_between_characters() {
    assert_eq!(truncate_head("abc  \n", 6), "abc");
    assert_eq!(truncate_head("abcdef", 3), "abc\n...");
    // Two bytes each: the cut moves back to the start of a character.
    assert_eq!(truncate_head("éééé", 3), "é\n...");
    assert_eq!(truncate_head("éééé", 4), "éé\n...");
    assert_eq!(truncate_head("日本", 2), "\n...");
    assert_eq!(truncate_head("日本", 0), "\n...");
    assert_eq!(truncate_head("ab \n", 3), "ab \n...");
    let s = "añ日😀b".repeat(9);
    for max in 0..s.len() + 2 {
        let wanted = if s.len() <= max {
            s.trim_end().to_owned()
        } else {
            let mut cut = max;
            while !s.is_char_boundary(cut) {
                cut -= 1;
            }
            format!("{}\n...", &s[..cut])
        };
        assert_eq!(truncate_head(&s, max), wanted);
    }
}

#[test]
fn cache_directories() {
    let dir = |system: Option<&str>| {
        let system = system.map(|s| s.as_bytes().to_vec());
        String::from_utf8(default_cache_dir(LINUX, &system, b"/tmp")).unwrap()
    };
    assert_eq!(dir(Some("/home/u/.cache")), "/home/u/.cache/stress-tester");
    assert_eq!(dir(None), "/tmp/stress-tester");
}

#[test]
fn paths_are_those_of_std() {
    let alphabet: Vec<char> = "ab..//c".chars().collect();
    let mut state: u64 = 3;
    for _ in 0..50_000 {
        state = state.wrapping_mul(6364136223846793005).wrapping_add(1442695040888963407);
        let len = (state >> 60) as usize % 11;
        let mut bits = state >> 5;
        let mut s = String::new();
        for _ in 0..len {
            s.push(alphabet[(bits % 7) as usize]);
            bits /= 7;
        }
        let path = Path::new(&s);
        let name = file_name(LINUX, s.as_bytes()).map(|b| String::from_utf8(b).unwrap());
        assert_eq!(name, path.file_name().map(|x| x.to_str().unwrap().to_owned()), "{s:?}");
        if let Some(name) = &name {
            let ext = extension(name.as_bytes()).map(|b| String::from_utf8(b).unwrap());
            assert_eq!(ext, path.extension().map(|x| x.to_str().unwrap().to_owned()), "{s:?}");
            let base = String::from_utf8(stem(name.as_bytes())).unwrap();
            assert_eq!(Some(base), path.file_stem().map(|x| x.to_str().unwrap().to_owned()), "{s:?}");
        }
        let joined = String::from_utf8(join_path(LINUX, s.as_bytes(), b"x.y")).unwrap();
        assert_eq!(joined, path.join("x.y").to_str().unwrap(), "{s:?}");
    }
}

#[test]
fn paths_of_windows() {
    let w = Platform::Windows;
    let join = |dir: &str| String::from_utf8(join_path(w, dir.as_bytes(), b"x")).unwrap();
    assert_eq!(join("C:\\d"), "C:\\d\\x");
    assert_eq!(join("C:\\"), "C:\\x");
    assert_eq!(join("C:"), "C:x");
    assert_eq!(join("d/"), "d/x");
    assert_eq!(join("1:"), "1:\\x");
    assert_eq!(join(""), "x");
    let name = |p: &str| file_name(w, p.as_bytes()).map(|b| String::from_utf8(b).unwrap());
    assert_eq!(name("C:\\d\\x.c").as_deref(), Some("x.c"));
    assert_eq!(name("d/x.c\\").as_deref(), Some("x.c"));
    assert_eq!(name("C:x.c").as_deref(), Some("x.c"));
    assert_eq!(name("z:x.c").as_deref(), Some("x.c"));
    assert_eq!(name("1:x").as_deref(), Some("1:x"));
    assert_eq!(name("C:\\"), None);
    assert_eq!(name("a\\.."), None);
    // Shares and devices.
    assert_eq!(name(r"\\server\share"), None);
    assert_eq!(name(r"\\server\share\"), None);
    assert_eq!(name(r"\\server\share\f.c").as_deref(), Some("f.c"));
    assert_eq!(name("//server/share/d/f.c").as_deref(), Some("f.c"));
    assert_eq!(name(r"\\server").as_deref(), Some("server"));
    assert_eq!(name(r"\\.\COM1"), None);
    assert_eq!(name(r"\\.\COM1\x").as_deref(), Some("x"));
    assert_eq!(name(r"\\?/a\b").as_deref(), Some("b"));
    assert_eq!(join(r"\\server\share"), r"\\server\share\x");
    assert_eq!(join(r"\\server\share\"), r"\\server\share\x");
    // Verbatim paths, which a slash does not separate.
    assert_eq!(name(r"\\?\C:\d\a/b.c").as_deref(), Some("a/b.c"));
    assert_eq!(name(r"\\?\C:/b.c").as_deref(), Some("b.c"));
    assert_eq!(name(r"\\?\C:"), None);
    assert_eq!(name(r"\\?\C:\"), None);
    assert_eq!(name(r"\\?\C:\d\\").as_deref(), Some("d"));
    assert_eq!(name(r"\\?\C:\d\."), None);
    assert_eq!(name(r"\\?\UNC\server\share"), None);
    assert_eq!(name(r"\\?\UNC\server\share\f.c").as_deref(), Some("f.c"));
    assert_eq!(name(r"\\?\pictures"), None);
    assert_eq!(name(r"\\?\pictures\kittens").as_deref(), Some("kittens"));
    assert_eq!(join(r"\\?\C:"), r"\\?\C:\x");
    assert_eq!(join(r"\\?\C:\"), r"\\?\C:\x");
    assert_eq!(join(r"\\?\C:\d\\e/f\"), r"\\?\C:\d\e/f\x");
    assert_eq!(join(r"\\?\UNC\server\share"), r"\\?\UNC\server\share\x");
    // What starts a path in front of its components.
    let start = |p: &str| prefix(w, p.as_bytes());
    assert_eq!(start(r"C:\d"), (PrefixKind::Drive, 2));
    assert_eq!(start(r"\\server\share\f"), (PrefixKind::Named, 14));
    assert_eq!(start(r"\\.\COM1\x"), (PrefixKind::Named, 8));
    assert_eq!(start(r"\\?\UNC\server\share\f"), (PrefixKind::Verbatim, 20));
    assert_eq!(start(r"\\?\UNC\server\"), (PrefixKind::Verbatim, 14));
    assert_eq!(start(r"\\?\C:\d"), (PrefixKind::Verbatim, 6));
    assert_eq!(start(r"\\?\C:d"), (PrefixKind::Verbatim, 7));
    assert_eq!(start(r"\\?\pictures\kittens"), (PrefixKind::Verbatim, 12));
    assert_eq!(start(r"\\server\"), (PrefixKind::Absent, 0));
    assert_eq!(start(r"\d"), (PrefixKind::Absent, 0));
    assert_eq!(prefix(LINUX, b"C:/d"), (PrefixKind::Absent, 0));
}
