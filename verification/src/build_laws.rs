//! What holds of every build: which language a file is written in, which tool takes
//! it, and which commands compile and run it.

use vstd::prelude::*;
use vstd::string::*;
use vstd::utf8::*;

use crate::builder::{
    boundary_before, cache_hash, compile_job, compiler_identity, default_cache_dir, display_name,
    first_line, hex, key_bytes, paired, sha256, shown_bytes, truncate_head, Build, BuildEvent,
    BuildStep, CompileJob,
};
use crate::duration::max_nanos;
use crate::lang::{
    detect_language, encoded, find_any, first_found, is_executable, language_of_extension, lowered,
    path_extension, program_path, recipe, resolve_compiler, resolve_java_launcher, toolchain,
    toolchain_names, toolchain_variable, BuildError, BuildOptions, BuildResult, CompilerConfig,
    FileInfo, Language,
};
use crate::number::int_text;
use crate::path::{blobs, extension_of, file_name_of, front_of, last_dot, stem_of, Platform};
use crate::runner::{ExitKind, RunSpec};
use crate::text::{is_white, lossy_form, texts, trimmed_end, words};
use crate::text_laws::{
    has_dense_ends, is_all_white, lines_end_at_line_feeds, trimming_takes_away_the_blank_ends,
};

verus! {

// ---------------------------------------------------------------------------
// Commands
// ---------------------------------------------------------------------------

/// Whether the arguments from `start` on are these texts, in their order.
pub open spec fn holds_texts(v: Seq<Vec<u8>>, start: int, t: Seq<Seq<char>>) -> bool {
    &&& 0 <= start && start + t.len() <= v.len()
    &&& forall|k: int| 0 <= k < t.len() ==> v[start + k]@ == encode_utf8(#[trigger] t[k])
}

proof fn lemma_holds_texts(
    v: Seq<Vec<u8>>,
    front: Seq<Seq<u8>>,
    t: Seq<Seq<char>>,
    back: Seq<Seq<u8>>,
)
    requires
        blobs(v) == front + encoded(t) + back,
    ensures
        v.len() == front.len() + t.len() + back.len(),
        holds_texts(v, front.len() as int, t),
        forall|k: int| 0 <= k < front.len() ==> v[k]@ == #[trigger] front[k],
        forall|k: int|
            0 <= k < back.len() ==> v[front.len() + t.len() + k]@ == #[trigger] back[k],
{
    let all = blobs(v);
    assert(all.len() == v.len());
    assert forall|k: int| 0 <= k < t.len() implies v[front.len() + k]@ == encode_utf8(
        #[trigger] t[k],
    ) by {
        assert(all[front.len() + k] == encoded(t)[k]);
    }
    assert forall|k: int| 0 <= k < front.len() implies v[k]@ == #[trigger] front[k] by {
        assert(all[k] == front[k]);
    }
    assert forall|k: int| 0 <= k < back.len() implies v[front.len() + t.len() + k]@
        == #[trigger] back[k] by {
        assert(all[front.len() + t.len() + k] == back[k]);
    }
}

/// A compiler of C, C++ or Rust gets all the flags in their order, right behind its
/// name, then the source and where to write the program; and what it writes is
/// what is run.
pub proof fn compilers_get_all_the_flags(
    p: Platform,
    l: Language,
    tool: &str,
    cfg: CompilerConfig,
    java_found: bool,
    flags: &str,
    source: &[u8],
    dir: &[u8],
    res: Result<(Vec<Vec<u8>>, Vec<Vec<u8>>), BuildError>,
)
    requires
        l == Language::C || l == Language::Cpp || l == Language::Rust,
        call_ensures(recipe, (p, l, tool, &cfg, java_found, flags, source, dir), res),
    ensures
        res is Ok,
        ({
            let (compile, run) = res->Ok_0;
            let n = words(flags@).len() as int;
            &&& compile@.len() == n + 4
            &&& compile@[0]@ == encode_utf8(tool@)
            &&& holds_texts(compile@, 1, words(flags@))
            &&& compile@[n + 1]@ == source@
            &&& compile@[n + 2]@ == encode_utf8("-o"@)
            &&& run@.len() == 1
            &&& run@[0]@ == compile@[n + 3]@
            &&& run@[0]@ == front_of(p, dir@) + encode_utf8(
                if p == Platform::Windows {
                    "prog.exe"@
                } else {
                    "prog"@
                },
            )
        }),
{
    let (compile, run) = res->Ok_0;
    let front = seq![encode_utf8(tool@)];
    let exe = program_path(p, dir@);
    let back = seq![source@, encode_utf8("-o"@), exe];
    assert(blobs(compile@) =~= front + encoded(words(flags@)) + back);
    lemma_holds_texts(compile@, front, words(flags@), back);
    assert(back[0] == source@ && back[1] == encode_utf8("-o"@) && back[2] == exe);
    assert(front[0] == encode_utf8(tool@));
    assert(blobs(run@) =~= seq![exe]);
    assert(blobs(run@).len() == run@.len());
    assert(blobs(run@)[0] == run@[0]@);
}

/// Go gets the flags too, all of them in their order: between the subcommand with
/// where to write the program, and the source.
pub proof fn go_gets_all_the_flags(
    p: Platform,
    tool: &str,
    cfg: CompilerConfig,
    java_found: bool,
    flags: &str,
    source: &[u8],
    dir: &[u8],
    res: Result<(Vec<Vec<u8>>, Vec<Vec<u8>>), BuildError>,
)
    requires
        call_ensures(recipe, (p, Language::Go, tool, &cfg, java_found, flags, source, dir), res),
    ensures
        res is Ok,
        ({
            let (compile, run) = res->Ok_0;
            let n = words(flags@).len() as int;
            &&& compile@.len() == n + 5
            &&& compile@[0]@ == encode_utf8(tool@)
            &&& compile@[1]@ == encode_utf8("build"@)
            &&& compile@[2]@ == encode_utf8("-o"@)
            &&& holds_texts(compile@, 4, words(flags@))
            &&& compile@[n + 4]@ == source@
            &&& run@.len() == 1
            &&& run@[0]@ == compile@[3]@
            &&& run@[0]@ == front_of(p, dir@) + encode_utf8(
                if p == Platform::Windows {
                    "prog.exe"@
                } else {
                    "prog"@
                },
            )
        }),
{
    let (compile, run) = res->Ok_0;
    let exe = program_path(p, dir@);
    let front = seq![encode_utf8(tool@), encode_utf8("build"@), encode_utf8("-o"@), exe];
    let back = seq![source@];
    assert(blobs(compile@) =~= front + encoded(words(flags@)) + back);
    lemma_holds_texts(compile@, front, words(flags@), back);
    assert(back[0] == source@);
    assert(front[0] == encode_utf8(tool@) && front[1] == encode_utf8("build"@) && front[2]
        == encode_utf8("-o"@) && front[3] == exe);
    assert(blobs(run@) =~= seq![exe]);
    assert(blobs(run@).len() == run@.len());
    assert(blobs(run@)[0] == run@[0]@);
}

/// Java gets the flags too, all of them in their order, then where to write the
/// classes and the source. What is run is the class of the file's name from there,
/// by the launcher that the user chose or that was found. Without a launcher, or
/// without a name, there is nothing to run.
pub proof fn java_gets_all_the_flags(
    p: Platform,
    tool: &str,
    cfg: CompilerConfig,
    java_found: bool,
    flags: &str,
    source: &[u8],
    dir: &[u8],
    res: Result<(Vec<Vec<u8>>, Vec<Vec<u8>>), BuildError>,
)
    requires
        call_ensures(recipe, (p, Language::Java, tool, &cfg, java_found, flags, source, dir), res),
    ensures
        match res {
            Ok((compile, run)) => {
                let n = words(flags@).len() as int;
                &&& cfg.java is Some || java_found
                &&& file_name_of(p, source@) is Some
                &&& compile@.len() == n + 4
                &&& compile@[0]@ == encode_utf8(tool@)
                &&& holds_texts(compile@, 1, words(flags@))
                &&& compile@[n + 1]@ == encode_utf8("-d"@)
                &&& compile@[n + 2]@ == dir@
                &&& compile@[n + 3]@ == source@
                &&& run@.len() == 4
                &&& cfg.java is Some ==> run@[0]@ == encode_utf8(cfg.java->0@)
                &&& cfg.java is None ==> run@[0]@ == encode_utf8("java"@)
                &&& run@[1]@ == encode_utf8("-cp"@)
                &&& run@[2]@ == dir@
                &&& run@[3]@ == stem_of(file_name_of(p, source@)->0)
            },
            Err(e) => if cfg.java is None && !java_found {
                e == BuildError::NoLauncher
            } else {
                e == BuildError::NoClassName && file_name_of(p, source@) is None
            },
        },
{
    if let Ok((compile, run)) = res {
        let front = seq![encode_utf8(tool@)];
        let back = seq![encode_utf8("-d"@), dir@, source@];
        assert(blobs(compile@) =~= front + encoded(words(flags@)) + back);
        lemma_holds_texts(compile@, front, words(flags@), back);
        assert(front[0] == encode_utf8(tool@));
        assert(back[0] == encode_utf8("-d"@) && back[1] == dir@ && back[2] == source@);
        let r = blobs(run@);
        assert(r.len() == run@.len());
        assert(r[0] == run@[0]@ && r[1] == run@[1]@ && r[2] == run@[2]@ && r[3] == run@[3]@);
    }
}

/// What is interpreted or already built has nothing to compile.
pub proof fn nothing_else_is_compiled(
    p: Platform,
    l: Language,
    tool: &str,
    cfg: CompilerConfig,
    java_found: bool,
    flags: &str,
    source: &[u8],
    dir: &[u8],
    res: Result<(Vec<Vec<u8>>, Vec<Vec<u8>>), BuildError>,
)
    requires
        l == Language::Python || l == Language::JavaScript || l == Language::Binary,
        call_ensures(recipe, (p, l, tool, &cfg, java_found, flags, source, dir), res),
    ensures
        res == Err::<(Vec<Vec<u8>>, Vec<Vec<u8>>), BuildError>(BuildError::NoCompileStep(l)),
{
}

// ---------------------------------------------------------------------------
// Tools
// ---------------------------------------------------------------------------

/// What the user chose for a language.
pub open spec fn users_choice(l: Language, cfg: CompilerConfig) -> Option<String> {
    match l {
        Language::C => cfg.cc,
        Language::Cpp => cfg.cxx,
        Language::Rust => cfg.rustc,
        Language::Python => cfg.python,
        Language::Java => cfg.javac,
        Language::JavaScript => cfg.node,
        Language::Go => cfg.go,
        Language::Binary => None,
    }
}

/// The tool of a language is what the user chose for it. Failing that it is what the
/// environment names, for the languages that have a variable. Failing that it is
/// the first of the usual names that was found. Without any of these there is none.
pub proof fn tools_are_looked_for_in_order(
    l: Language,
    cfg: CompilerConfig,
    variable: Option<String>,
    found: &[bool],
    res: Result<String, BuildError>,
)
    requires
        call_ensures(resolve_compiler, (l, &cfg, &variable, found), res),
    ensures
        ({
            let named = (l == Language::C || l == Language::Cpp || l == Language::Java)
                && variable is Some;
            &&& users_choice(l, cfg) is Some ==> res is Ok && res->Ok_0@ == users_choice(l, cfg)->0@
            &&& users_choice(l, cfg) is None && named ==> res is Ok && res->Ok_0@ == variable->0@
            &&& users_choice(l, cfg) is None && !named ==> forall|i: int|
                is_first_found(toolchain(l), found@, i) ==> res is Ok && res->Ok_0@
                    == #[trigger] toolchain(l)[i]
            &&& res is Err <==> users_choice(l, cfg) is None && !named && forall|i: int|
                0 <= i < found@.len() && i < toolchain(l).len() ==> !#[trigger] found@[i]
            &&& res is Err ==> res->Err_0 == BuildError::NoToolchain(l)
        }),
{
    let names = toolchain(l);
    lemma_first_found_complete(names, found@, 0);
    assert forall|i: int|
        is_first_found(names, found@, i) && users_choice(l, cfg) is None && !((l == Language::C || l
            == Language::Cpp || l == Language::Java) && variable is Some) implies res is Ok
        && res->Ok_0@ == #[trigger] names[i] by {
        lemma_first_found_is(names, found@, 0, i);
    }
}

/// Whether a name is the first that was found.
pub open spec fn is_first_found(names: Seq<Seq<char>>, found: Seq<bool>, i: int) -> bool {
    &&& 0 <= i < names.len() && i < found.len()
    &&& found[i]
    &&& forall|j: int| 0 <= j < i ==> !#[trigger] found[j]
}

proof fn lemma_first_found_is(names: Seq<Seq<char>>, found: Seq<bool>, k: nat, i: int)
    requires
        k <= i < names.len(),
        i < found.len(),
        found[i],
        forall|j: int| k <= j < i ==> !#[trigger] found[j],
    ensures
        first_found(names, found, k) == Some(names[i]),
    decreases i - k,
{
    if k < i {
        assert(!found[k as int]);
        lemma_first_found_is(names, found, k + 1, i);
    }
}

proof fn lemma_first_found_complete(names: Seq<Seq<char>>, found: Seq<bool>, k: nat)
    ensures
        first_found(names, found, k) is None <==> forall|i: int|
            k <= i < found.len() && i < names.len() ==> !#[trigger] found[i],
    decreases names.len() - k,
{
    if k < names.len() && k < found.len() {
        lemma_first_found_complete(names, found, k + 1);
    }
}

// ---------------------------------------------------------------------------
// Languages
// ---------------------------------------------------------------------------

/// Lowering changes the ASCII capital letters into the small ones, and nothing else.
pub proof fn lowering_changes_capitals_only(s: Seq<u8>)
    ensures
        lowered(s).len() == s.len(),
        forall|i: int|
            0 <= i < s.len() ==> {
                let b = #[trigger] lowered(s)[i];
                if 65 <= s[i] <= 90 {
                    b == s[i] + 32
                } else {
                    b == s[i]
                }
            },
{
}

/// A name is split at its last point: what follows is its extension, what stands
/// before it its stem. A point in front of everything splits nothing.
pub proof fn names_are_split_at_their_last_point(a: Seq<u8>, b: Seq<u8>)
    requires
        forall|i: int| 0 <= i < b.len() ==> #[trigger] b[i] != 46,
    ensures
        a.len() > 0 ==> extension_of(a.push(46) + b) == Some(b) && stem_of(a.push(46) + b) == a,
        extension_of(b) is None && stem_of(b) == b,
        extension_of(seq![46u8] + b) is None && stem_of(seq![46u8] + b) == seq![46u8] + b,
{
    let name = a.push(46) + b;
    lemma_last_dot(a, b, b.len());
    assert(name.skip(a.len() as int + 1) =~= b);
    assert(name.take(a.len() as int) =~= a);
    let none = Seq::<u8>::empty();
    lemma_last_dot(none, b, b.len());
    assert(none.push(46) + b =~= seq![46u8] + b);
    lemma_no_dot(b, b.len());
}

proof fn lemma_last_dot(a: Seq<u8>, b: Seq<u8>, n: nat)
    requires
        forall|i: int| 0 <= i < b.len() ==> #[trigger] b[i] != 46,
        n <= b.len(),
    ensures
        last_dot(a.push(46) + b, a.len() + 1 + n) == a.len(),
    decreases n,
{
    let name = a.push(46) + b;
    if n > 0 {
        assert(name[a.len() as int + n] == b[n - 1]);
        lemma_last_dot(a, b, (n - 1) as nat);
    } else {
        assert(name[a.len() as int] == 46);
    }
}

proof fn lemma_no_dot(b: Seq<u8>, n: nat)
    requires
        forall|i: int| 0 <= i < b.len() ==> #[trigger] b[i] != 46,
        n <= b.len(),
    ensures
        last_dot(b, n) == b.len(),
    decreases n,
{
    if n > 0 {
        assert(b[n - 1] != 46);
        lemma_no_dot(b, (n - 1) as nat);
    }
}

/// The language of an extension in small letters.
pub open spec fn is_extension_of(ext: Seq<u8>, l: Language) -> bool {
    match l {
        Language::C => ext == encode_utf8("c"@),
        Language::Cpp => ext == encode_utf8("cpp"@) || ext == encode_utf8("cc"@) || ext
            == encode_utf8("cxx"@) || ext == encode_utf8("c++"@),
        Language::Python => ext == encode_utf8("py"@),
        Language::Rust => ext == encode_utf8("rs"@),
        Language::Java => ext == encode_utf8("java"@),
        Language::JavaScript => ext == encode_utf8("js"@),
        Language::Go => ext == encode_utf8("go"@),
        Language::Binary => false,
    }
}

/// The extension of a file in small letters, or nothing.
pub open spec fn small_extension(p: Platform, path: Seq<u8>) -> Seq<u8> {
    match file_name_of(p, path) {
        Some(name) => match extension_of(name) {
            Some(ext) => lowered(ext),
            None => seq![],
        },
        None => seq![],
    }
}

/// Whether an extension is that of some language.
pub open spec fn is_of_a_language(ext: Seq<u8>) -> bool {
    exists|l: Language| #[trigger] is_extension_of(ext, l)
}

/// Whether someone may execute a file with these permission bits.
pub open spec fn may_be_executed(mode: u32) -> bool {
    mode % 2 == 1 || (mode / 8) % 2 == 1 || (mode / 64) % 2 == 1
}

/// A file is written in the language of its extension, whatever the case of the
/// letters and whatever its permissions. Any other file is a program if it can be
/// run: if it is a regular file that someone may execute, or on Windows one of two
/// extensions. What is left has no language.
pub proof fn extensions_decide_before_permissions(
    p: Platform,
    path: &[u8],
    info: FileInfo,
    res: Result<Language, BuildError>,
)
    requires
        call_ensures(detect_language, (p, path, info), res),
    ensures
        forall|l: Language| #[trigger]
            is_extension_of(small_extension(p, path@), l) ==> res == Ok::<Language, BuildError>(l),
        !is_of_a_language(small_extension(p, path@)) && info.is_file && p != Platform::Windows
            && may_be_executed(info.mode) ==> res == Ok::<Language, BuildError>(Language::Binary),
        !is_of_a_language(small_extension(p, path@)) && info.is_file && p == Platform::Windows && (
        small_extension(p, path@) == encode_utf8("exe"@) || small_extension(p, path@)
            == encode_utf8("com"@)) ==> res == Ok::<Language, BuildError>(Language::Binary),
        !is_of_a_language(small_extension(p, path@)) && (!info.is_file || (p != Platform::Windows
            && !may_be_executed(info.mode)) || (p == Platform::Windows && small_extension(p, path@)
            != encode_utf8("exe"@) && small_extension(p, path@) != encode_utf8("com"@)))
            ==> res == Err::<Language, BuildError>(BuildError::UnknownLanguage),
{
    let mode = info.mode;
    assert(mode & 0o111 != 0 <==> mode % 2 == 1 || (mode / 8) % 2 == 1 || (mode / 64) % 2 == 1)
        by (bit_vector);
    let found = path_extension(p, path@);
    let ext = match found {
        Some(e) => e,
        None => seq![],
    };
    lemma_extensions_differ();
    assert(known_extensions()[10] == "exe"@ && known_extensions()[11] == "com"@);
    assert forall|l: Language| #[trigger] is_extension_of(ext, l) implies found is Some
        && language_of_extension(ext) == Some(l) by {
        lemma_extension(ext, l);
    }
    if found is Some {
        if let Some(l) = language_of_extension(ext) {
            assert(is_extension_of(ext, l));
        }
    }
}

/// The extensions of the languages and of programs.
spec fn known_extensions() -> Seq<Seq<char>> {
    seq![
        "c"@,
        "cpp"@,
        "cc"@,
        "cxx"@,
        "c++"@,
        "py"@,
        "rs"@,
        "java"@,
        "js"@,
        "go"@,
        "exe"@,
        "com"@,
    ]
}

/// They are all different.
proof fn lemma_extensions_differ()
    ensures
        forall|i: int, k: int|
            0 <= i < k < 12 ==> encode_utf8(#[trigger] known_extensions()[i]) != encode_utf8(
                #[trigger] known_extensions()[k],
            ),
        forall|i: int| 0 <= i < 12 ==> encode_utf8(#[trigger] known_extensions()[i]).len() > 0,
{
    let all = known_extensions();
    reveal_strlit("c");
    reveal_strlit("cpp");
    reveal_strlit("cc");
    reveal_strlit("cxx");
    reveal_strlit("c++");
    reveal_strlit("py");
    reveal_strlit("rs");
    reveal_strlit("java");
    reveal_strlit("js");
    reveal_strlit("go");
    reveal_strlit("exe");
    reveal_strlit("com");
    assert(all[0].len() == 1 && all[2].len() == 2 && all[5].len() == 2 && all[6].len() == 2
        && all[7].len() == 4 && all[8].len() == 2 && all[9].len() == 2);
    assert(all[1].len() == 3 && all[3].len() == 3 && all[4].len() == 3 && all[10].len() == 3
        && all[11].len() == 3);
    assert(all[2][0] == 'c' && all[5][0] == 'p' && all[6][0] == 'r' && all[8][0] == 'j'
        && all[9][0] == 'g');
    assert(all[1][1] == 'p' && all[3][1] == 'x' && all[4][1] == '+' && all[10][1] == 'x'
        && all[11][1] == 'o');
    assert(all[3][0] == 'c' && all[10][0] == 'e');
    assert forall|i: int, k: int| 0 <= i < k < 12 implies encode_utf8(#[trigger] all[i])
        != encode_utf8(#[trigger] all[k]) by {
        encode_utf8_decode_utf8(all[i]);
        encode_utf8_decode_utf8(all[k]);
        assert(all[i] != all[k]);
    }
    assert forall|i: int| 0 <= i < 12 implies encode_utf8(#[trigger] all[i]).len() > 0 by {
        assert(is_ascii_chars(all[i]));
        is_ascii_chars_encode_utf8(all[i]);
    }
}

proof fn lemma_extension(ext: Seq<u8>, l: Language)
    requires
        is_extension_of(ext, l),
    ensures
        ext.len() > 0,
        language_of_extension(ext) == Some(l),
        ext != encode_utf8("exe"@),
        ext != encode_utf8("com"@),
{
    lemma_extensions_differ();
    let all = known_extensions();
    assert(all[0] == "c"@ && all[1] == "cpp"@ && all[2] == "cc"@ && all[3] == "cxx"@ && all[4]
        == "c++"@ && all[5] == "py"@ && all[6] == "rs"@ && all[7] == "java"@ && all[8] == "js"@
        && all[9] == "go"@ && all[10] == "exe"@ && all[11] == "com"@);
}

// ---------------------------------------------------------------------------
// Where a program is built, and with which flags
// ---------------------------------------------------------------------------

/// The flags that a program is compiled with: those that were given, or those of its
/// language where none were.
pub open spec fn flags_to_use(l: Language, given: Option<&str>) -> Seq<char> {
    match given {
        Some(flags) => flags@,
        None => match l {
            Language::C => "-O2 -std=c11"@,
            Language::Cpp => "-O2 -std=c++17"@,
            Language::Rust => "-O"@,
            _ => ""@,
        },
    }
}

/// A job follows the recipe of its language, with the flags that were given or those
/// of the language. It works in the directory of the cache that is named after all
/// it depends on, and everything that belongs to the build is in that directory.
pub proof fn jobs_follow_the_recipe_in_their_directory(
    p: Platform,
    l: Language,
    opts: &BuildOptions,
    java_found: bool,
    tool: &str,
    version: &str,
    source: &[u8],
    contents: &[u8],
    flags: &str,
    key: String,
    dir: &[u8],
    cooked: Result<(Vec<Vec<u8>>, Vec<Vec<u8>>), BuildError>,
    res: Result<CompileJob, BuildError>,
)
    requires
        flags@ == flags_to_use(l, opts.flags),
        call_ensures(cache_hash, (l, tool, version, flags, contents), key),
        dir@ == front_of(p, opts.cache_dir@) + encode_utf8(key@),
        call_ensures(recipe, (p, l, tool, opts.compilers, java_found, flags, source, dir), cooked),
        call_ensures(compile_job, (p, l, opts, java_found, tool, version, source, contents), res),
    ensures
        match cooked {
            Ok((compile, run)) => {
                let inside = front_of(p, dir@);
                &&& res is Ok
                &&& res->Ok_0.dir@ == dir@
                &&& blobs(res->Ok_0.compile@) == blobs(compile@)
                &&& blobs(res->Ok_0.run@) == blobs(run@)
                &&& res->Ok_0.marker@ == inside + encode_utf8(".built"@)
                &&& res->Ok_0.stdout_log@ == inside + encode_utf8("build.stdout"@)
                &&& res->Ok_0.stderr_log@ == inside + encode_utf8("build.stderr"@)
            },
            Err(e) => res == Err::<CompileJob, BuildError>(e),
        },
{
}

/// The compiler is run for two minutes at most by the clock on the wall, without any
/// other limit, and writes its logs.
pub proof fn compilers_run_for_two_minutes_at_most(job: CompileJob, res: RunSpec)
    requires
        call_ensures(CompileJob::run_spec, (&job,), res),
    ensures
        res.argv@.len() == job.compile@.len(),
        forall|k: int| 0 <= k < job.compile@.len() ==> res.argv@[k]@ == (#[trigger] job.compile@[k])@,
        res.stdin_file is None,
        res.stdout_file is Some && res.stdout_file->0@ == job.stdout_log@,
        res.stderr_file is Some && res.stderr_file->0@ == job.stderr_log@,
        res.wall_limit@ == 120 * 1_000_000_000,
        res.cpu_limit@ == max_nanos(),
        res.memory_limit == u64::MAX,
{
    assert(blobs(res.argv@).len() == res.argv@.len());
    assert(blobs(job.compile@).len() == job.compile@.len());
    assert forall|k: int| 0 <= k < job.compile@.len() implies res.argv@[k]@
        == (#[trigger] job.compile@[k])@ by {
        assert(blobs(res.argv@)[k] == blobs(job.compile@)[k]);
    }
}

/// Digits are written one byte after the other, two for each: the upper half and the
/// lower half in `0` to `9` and `a` to `f`.
pub proof fn bytes_are_written_one_by_one(a: Seq<u8>, b: u8)
    ensures
        hex(Seq::<u8>::empty()).len() == 0,
        hex(a.push(b)).len() == hex(a).len() + 2,
        hex(a.push(b)).take(hex(a).len() as int) == hex(a),
        is_hex_digit(hex(a.push(b))[hex(a).len() as int], (b / 16) as int),
        is_hex_digit(hex(a.push(b))[hex(a).len() as int + 1], (b % 16) as int),
{
    assert(a.push(b).drop_last() =~= a);
    assert(a.push(b).last() == b);
    assert(hex(a.push(b)).take(hex(a).len() as int) =~= hex(a));
}

/// Whether a character stands for a number below 16.
pub open spec fn is_hex_digit(c: char, n: int) -> bool {
    &&& n < 10 ==> c as int == 48 + n
    &&& n >= 10 ==> c as int == 97 + n - 10
}

/// A compiler is known by the first line of what it printed, without the white space
/// around it, and by nothing where it failed or printed nothing.
pub proof fn compilers_are_known_by_their_first_line(
    a: Seq<char>,
    t: Seq<char>,
    b: Seq<char>,
    more: Seq<char>,
)
    requires
        is_all_white(a),
        is_all_white(b),
        has_dense_ends(t),
        forall|i: int| 0 <= i < (a + t + b).len() ==> #[trigger] (a + t + b)[i] != '\n',
    ensures
        first_line(a + t + b + seq!['\n'] + more) == t,
        first_line(a + t + b) == t,
{
    reveal_strlit("");
    let s = a + t + b;
    lines_end_at_line_feeds(s, more);
    trimming_takes_away_the_blank_ends(a, t, b);
    if s.len() == 0 {
        assert(s =~= Seq::<char>::empty());
        assert(t =~= ""@);
    }
    if s.len() > 0 && s.last() == '\r' {
        if b.len() > 0 {
            assert(s.last() == b.last());
            let c = b.drop_last();
            assert forall|i: int| 0 <= i < c.len() implies is_white(#[trigger] c[i]) by {
                assert(c[i] == b[i]);
            }
            trimming_takes_away_the_blank_ends(a, t, c);
            assert(s.drop_last() =~= a + t + c);
        } else if t.len() > 0 {
            assert(s.last() == t.last());
        } else {
            let c = a.drop_last();
            assert forall|i: int| 0 <= i < c.len() implies is_white(#[trigger] c[i]) by {
                assert(c[i] == a[i]);
            }
            trimming_takes_away_the_blank_ends(c, t, b);
            assert(s.drop_last() =~= c + t + b);
        }
    }
}

/// On Windows a name without surrogates is shown as it is, and each surrogate as one
/// replacement character. Elsewhere the bytes are left alone.
pub proof fn surrogates_are_replaced_one_by_one(
    p: Platform,
    a: Seq<u8>,
    second: u8,
    third: u8,
    b: Seq<u8>,
)
    requires
        forall|i: int| 0 <= i < a.len() ==> #[trigger] a[i] != 237,
        160 <= second <= 191,
        128 <= third <= 191,
    ensures
        shown_bytes(p, a) == a,
        p != Platform::Windows ==> shown_bytes(p, a + seq![237u8, second, third] + b) == a + seq![
            237u8,
            second,
            third,
        ] + b,
        p == Platform::Windows ==> shown_bytes(p, a + seq![237u8, second, third] + b) == a + seq![
            239u8,
            191u8,
            189u8,
        ] + shown_bytes(p, b),
{
    let none = Seq::<u8>::empty();
    assert(a + none =~= a);
    lemma_paired_front(a, none, 0);
    assert(paired(a, a.len() as int) =~= none);
    let mid = seq![237u8, second, third];
    let s = a + mid + b;
    assert(s =~= a + (mid + b));
    lemma_paired_front(a, mid + b, 0);
    let n = a.len() as int;
    assert(s[n] == 237 && s[n + 1] == second && s[n + 2] == third);
    lemma_paired_shifted(a + mid, b, 0);
    assert(s =~= (a + mid) + b);
    assert(a.skip(0) =~= a);
    assert(a + (seq![239u8, 191u8, 189u8] + paired(b, 0)) =~= a + seq![239u8, 191u8, 189u8]
        + paired(b, 0));
}

proof fn lemma_paired_front(a: Seq<u8>, b: Seq<u8>, i: int)
    requires
        0 <= i <= a.len(),
        forall|k: int| 0 <= k < a.len() ==> #[trigger] a[k] != 237,
    ensures
        paired(a + b, i) == a.skip(i) + paired(a + b, a.len() as int),
    decreases a.len() - i,
{
    let s = a + b;
    if i < a.len() {
        assert(s[i] == a[i]);
        lemma_paired_front(a, b, i + 1);
        assert(a.skip(i) =~= seq![a[i]] + a.skip(i + 1));
        assert(paired(s, i) =~= a.skip(i) + paired(s, a.len() as int));
    } else {
        assert(a.skip(i) + paired(s, i) =~= paired(s, i));
    }
}

proof fn lemma_paired_shifted(a: Seq<u8>, b: Seq<u8>, i: int)
    requires
        0 <= i <= b.len() + 3,
    ensures
        paired(a + b, a.len() + i) == paired(b, i),
    decreases b.len() + 3 - i,
{
    let s = a + b;
    if i < b.len() {
        assert(s[a.len() + i] == b[i]);
        if i + 1 < b.len() {
            assert(s[a.len() + i + 1] == b[i + 1]);
        }
        if i + 2 < b.len() {
            assert(s[a.len() + i + 2] == b[i + 2]);
        }
        lemma_paired_shifted(a, b, i + 1);
        lemma_paired_shifted(a, b, i + 3);
    }
}

/// The course of a build, step by step.
pub proof fn a_build_takes_this_course(
    p: Platform,
    source: &[u8],
    step: BuildStep,
    event: BuildEvent,
    language: Result<Language, BuildError>,
    info: FileInfo,
    exists_there: bool,
    res: BuildStep,
)
    requires
        event == (BuildEvent::Inspected { exists: exists_there, info }) || !(event is Inspected),
        call_ensures(detect_language, (p, source, info), language),
        call_ensures(BuildStep::next, (step, p, source, event), res),
    ensures
        step == BuildStep::Inspect && event is Inspected ==> if !exists_there {
            res == BuildStep::Failed(BuildError::FileNotFound)
        } else {
            match language {
                Err(e) => res == BuildStep::Failed(e),
                Ok(Language::Binary) => res == BuildStep::Locate,
                Ok(Language::Python) => res == BuildStep::Interpret(Language::Python),
                Ok(Language::JavaScript) => res == BuildStep::Interpret(Language::JavaScript),
                Ok(l) => res == BuildStep::Prepare(l),
            }
        },
        step == BuildStep::Locate ==> res == (BuildStep::Done {
            language: Language::Binary,
            cached: false,
        }),
        step is Interpret && event is Prepared ==> match event->Prepared_0 {
            Some(e) => res == BuildStep::Failed(e),
            None => res == (BuildStep::Done { language: step->Interpret_0, cached: false }),
        },
        step is Prepare && event is Prepared ==> match event->Prepared_0 {
            Some(e) => res == BuildStep::Failed(e),
            None => res == BuildStep::Probe(step->Prepare_0),
        },
        step is Probe && event == BuildEvent::Probed(true) ==> res == (BuildStep::Done {
            language: step->Probe_0,
            cached: true,
        }),
        step is Probe && event == BuildEvent::Probed(false) ==> res == BuildStep::Compile(
            step->Probe_0,
        ),
        step is Compile && event is Compiled && event->timed_out ==> res == BuildStep::Abandon(
            BuildError::TimedOut,
        ),
        step is Compile && event is Compiled && !event->timed_out && event->exit != ExitKind::Code(0)
            ==> res == BuildStep::Abandon(BuildError::Failed(event->exit)),
        step is Compile && event is Compiled && !event->timed_out && event->exit == ExitKind::Code(0)
            ==> res == BuildStep::Mark(step->Compile_0),
        step is Mark ==> res == (BuildStep::Done { language: step->Mark_0, cached: false }),
        step is Abandon ==> res == BuildStep::Failed(step->Abandon_0),
{
}

/// The result of a build that is done is run by the command that was found out on the
/// way, and shown by the name of its file; that of a failed build is its error; and
/// a build under way has none.
pub proof fn results_are_those_of_the_course(
    b: Build,
    shown: String,
    res: Option<Result<BuildResult, BuildError>>,
)
    requires
        b.ok(),
        call_ensures(display_name, (b.platform, b.source), shown),
        call_ensures(Build::result, (&b,), res),
    ensures
        b.step is Done ==> {
            &&& res is Some && res->0 is Ok
            &&& res->0->Ok_0.language == b.step->language
            &&& res->0->Ok_0.cached == b.step->cached
            &&& blobs(res->0->Ok_0.program.argv@) == blobs(b.argv@)
            &&& res->0->Ok_0.program.display@ == shown@
        },
        b.step is Failed ==> res == Some(Err::<BuildResult, BuildError>(b.step->Failed_0)),
        !(b.step is Done) && !(b.step is Failed) ==> res is None,
{
}

// ---------------------------------------------------------------------------
// A build under way
// ---------------------------------------------------------------------------

/// An already-built program is run by its absolute path and nothing else.
pub proof fn programs_are_run_by_their_path(b: &mut Build, absolute: &[u8])
    requires
        call_ensures(Build::located, (b, absolute), ()),
    ensures
        final(b).step == (BuildStep::Done { language: Language::Binary, cached: false }),
        final(b).argv@.len() == 1,
        final(b).argv@[0]@ == absolute@,
        final(b).source@ == old(b).source@,
{
    assert(blobs(final(b).argv@).len() == final(b).argv@.len());
    assert(blobs(final(b).argv@)[0] == final(b).argv@[0]@);
}

/// A source of an interpreted language is run by the interpreter with the source as
/// its argument; without an interpreter the build fails.
pub proof fn sources_are_run_by_their_interpreter(
    b: &mut Build,
    l: Language,
    variable: Option<String>,
    found: &[bool],
    tool: Result<String, BuildError>,
)
    requires
        old(b).step == BuildStep::Interpret(l),
        call_ensures(resolve_compiler, (l, old(b).opts.compilers, &variable, found), tool),
        call_ensures(Build::interpreted, (b, &variable, found), ()),
    ensures
        final(b).source@ == old(b).source@,
        match tool {
            Err(e) => final(b).step == BuildStep::Failed(e),
            Ok(tool) => {
                &&& final(b).step == (BuildStep::Done { language: l, cached: false })
                &&& final(b).argv@.len() == 2
                &&& final(b).argv@[0]@ == encode_utf8(tool@)
                &&& final(b).argv@[1]@ == old(b).source@
            },
        },
{
    assert(blobs(final(b).argv@).len() == final(b).argv@.len());
    if tool is Ok {
        assert(blobs(final(b).argv@)[0] == final(b).argv@[0]@);
        assert(blobs(final(b).argv@)[1] == final(b).argv@[1]@);
    }
}

/// A compiler that is found is kept for what follows; without one the build fails.
pub proof fn compilers_are_kept_or_missed(
    b: &mut Build,
    l: Language,
    variable: Option<String>,
    found: &[bool],
    tool: Result<String, BuildError>,
)
    requires
        old(b).step == BuildStep::Prepare(l),
        call_ensures(resolve_compiler, (l, old(b).opts.compilers, &variable, found), tool),
        call_ensures(Build::sought, (b, &variable, found), ()),
    ensures
        final(b).source@ == old(b).source@,
        match tool {
            Err(e) => final(b).step == BuildStep::Failed(e),
            Ok(tool) => {
                &&& final(b).step == old(b).step
                &&& final(b).tool is Some && final(b).tool->0@ == tool@
            },
        },
{
}

/// What is worked out for a compiled program is its job, made with the compiler that
/// was found, what tells its version and what the source holds; and the job's own
/// command is what will be run. Where there can be no job the build fails.
pub proof fn compiled_programs_are_run_as_their_job_says(
    b: &mut Build,
    l: Language,
    java_found: bool,
    answered: bool,
    printed: &[u8],
    contents: &[u8],
    tool: &str,
    identity: String,
    version: &str,
    made: Result<CompileJob, BuildError>,
)
    requires
        old(b).step == BuildStep::Prepare(l),
        old(b).tool is Some,
        tool@ == old(b).tool->0@,
        call_ensures(compiler_identity, (answered, printed), identity),
        version@ == identity@,
        call_ensures(
            compile_job,
            (
                old(b).platform,
                l,
                old(b).opts,
                java_found,
                tool,
                version,
                old(b).source,
                contents,
            ),
            made,
        ),
        call_ensures(Build::prepared, (b, java_found, (answered, printed), contents), ()),
    ensures
        final(b).source@ == old(b).source@,
        match made {
            Err(e) => final(b).step == BuildStep::Failed(e),
            Ok(job) => {
                &&& final(b).step == BuildStep::Probe(l)
                &&& final(b).job is Some
                &&& final(b).job->0.dir@ == job.dir@
                &&& final(b).job->0.marker@ == job.marker@
                &&& final(b).job->0.stdout_log@ == job.stdout_log@
                &&& final(b).job->0.stderr_log@ == job.stderr_log@
                &&& blobs(final(b).job->0.compile@) == blobs(job.compile@)
                &&& blobs(final(b).job->0.run@) == blobs(job.run@)
                &&& blobs(final(b).argv@) == blobs(job.run@)
            },
        },
{
}

/// A step that finds nothing out leaves the job and the command alone, and leads on
/// as the course of a build says.
pub proof fn steps_leave_the_job_alone(
    b: &mut Build,
    event: BuildEvent,
    next: BuildStep,
)
    requires
        call_ensures(BuildStep::next, (old(b).step, old(b).platform, old(b).source, event), next),
        call_ensures(Build::happened, (b, event), ()),
    ensures
        final(b).step == next,
        final(b).job == old(b).job,
        final(b).argv == old(b).argv,
        final(b).tool == old(b).tool,
        final(b).source@ == old(b).source@,
{
}

// ---------------------------------------------------------------------------
// What is known of the languages
// ---------------------------------------------------------------------------

/// Whether texts are these, in their order.
pub open spec fn are_texts(v: Seq<String>, t: Seq<Seq<char>>) -> bool {
    v.len() == t.len() && forall|i: int| 0 <= i < v.len() ==> (#[trigger] v[i])@ == t[i]
}

/// The usual names of the tools of each language, and the variable that names one.
pub proof fn languages_have_their_tools(
    l: Language,
    names: Vec<String>,
    variable: Option<&'static str>,
)
    requires
        call_ensures(toolchain_names, (l,), names),
        call_ensures(toolchain_variable, (l,), variable),
    ensures
        are_texts(
            names@,
            match l {
                Language::C => seq!["cc"@, "gcc"@, "clang"@],
                Language::Cpp => seq!["c++"@, "g++"@, "clang++"@],
                Language::Rust => seq!["rustc"@],
                Language::Python => seq!["python3"@, "python"@],
                Language::Java => seq!["javac"@],
                Language::JavaScript => seq!["node"@, "nodejs"@],
                Language::Go => seq!["go"@],
                Language::Binary => seq![],
            },
        ),
        match l {
            Language::C => variable is Some && variable->0@ == "CC"@,
            Language::Cpp => variable is Some && variable->0@ == "CXX"@,
            Language::Java => variable is Some && variable->0@ == "JAVAC"@,
            _ => variable is None,
        },
{
    let t = texts(names@);
    assert(t.len() == names@.len());
    assert forall|i: int| 0 <= i < names@.len() implies (#[trigger] names@[i])@ == t[i] by {}
}

/// The name, the flags, the kind and the version argument of each language.
pub proof fn languages_have_their_ways(
    l: Language,
    name: &'static str,
    flags: &'static str,
    interpreted: bool,
    version: &'static str,
)
    requires
        call_ensures(Language::name, (l,), name),
        call_ensures(Language::default_flags, (l,), flags),
        call_ensures(Language::interpreted, (l,), interpreted),
        call_ensures(Language::version_args, (l,), version),
    ensures
        name@ == match l {
            Language::C => "C"@,
            Language::Cpp => "C++"@,
            Language::Python => "Python"@,
            Language::Rust => "Rust"@,
            Language::Java => "Java"@,
            Language::JavaScript => "JavaScript"@,
            Language::Go => "Go"@,
            Language::Binary => "binary"@,
        },
        l == Language::C ==> flags@ == "-O2 -std=c11"@,
        l == Language::Cpp ==> flags@ == "-O2 -std=c++17"@,
        l == Language::Rust ==> flags@ == "-O"@,
        l != Language::C && l != Language::Cpp && l != Language::Rust ==> flags@.len() == 0,
        interpreted <==> l == Language::Python || l == Language::JavaScript,
        l == Language::Go ==> version@ == "version"@,
        l != Language::Go ==> version@ == "--version"@,
{
    reveal_strlit("");
}

/// The first of the names that was found is taken.
pub proof fn the_first_name_found_is_taken(names: Vec<String>, found: &[bool], res: Option<String>)
    requires
        call_ensures(find_any, (&names, found), res),
    ensures
        res is None <==> forall|i: int|
            0 <= i < found@.len() && i < names@.len() ==> !#[trigger] found@[i],
        forall|i: int|
            is_first_found(texts(names@), found@, i) ==> res is Some && res->0@ == (
            #[trigger] names@[i])@,
{
    let t = texts(names@);
    assert(t.len() == names@.len());
    lemma_first_found_complete(t, found@, 0);
    assert forall|i: int| is_first_found(t, found@, i) implies res is Some && res->0@ == (
    #[trigger] names@[i])@ by {
        lemma_first_found_is(t, found@, 0, i);
        assert(t[i] == names@[i]@);
    }
}

/// The launcher is what the user chose, or `java` where that was found.
pub proof fn the_launcher_is_chosen_or_found(
    cfg: CompilerConfig,
    java_found: bool,
    res: Result<String, BuildError>,
)
    requires
        call_ensures(resolve_java_launcher, (&cfg, java_found), res),
    ensures
        cfg.java is Some ==> res is Ok && res->Ok_0@ == cfg.java->0@,
        cfg.java is None && java_found ==> res is Ok && res->Ok_0@ == "java"@,
        cfg.java is None && !java_found ==> res == Err::<String, BuildError>(
            BuildError::NoLauncher,
        ),
{
}

/// A file can be run as it is if it is a regular file that someone may execute, or on
/// Windows one of two extensions.
pub proof fn programs_can_be_run(p: Platform, path: &[u8], info: FileInfo, res: bool)
    requires
        call_ensures(is_executable, (p, path, info), res),
    ensures
        p != Platform::Windows ==> (res <==> info.is_file && may_be_executed(info.mode)),
        p == Platform::Windows ==> (res <==> info.is_file && (small_extension(p, path@)
            == encode_utf8("exe"@) || small_extension(p, path@) == encode_utf8("com"@))),
{
    let mode = info.mode;
    assert(mode & 0o111 != 0 <==> mode % 2 == 1 || (mode / 8) % 2 == 1 || (mode / 64) % 2 == 1)
        by (bit_vector);
    lemma_extensions_differ();
    assert(known_extensions()[10] == "exe"@ && known_extensions()[11] == "com"@);
}

/// A byte that starts no surrogate is shown as it is, and what follows it as if it
/// stood alone.
pub proof fn other_bytes_are_shown_as_they_are(c: u8, b: Seq<u8>)
    requires
        !(c == 237 && b.len() >= 2 && 160 <= b[0] <= 191 && 128 <= b[1] <= 191),
    ensures
        shown_bytes(Platform::Windows, seq![c] + b) == seq![c] + shown_bytes(Platform::Windows, b),
{
    let s = seq![c] + b;
    assert(s[0] == c);
    if b.len() >= 2 {
        assert(s[1] == b[0] && s[2] == b[1]);
    }
    lemma_paired_shifted(seq![c], b, 0);
}

/// A program is shown by the name of its file, or by nothing where there is none.
pub proof fn programs_are_shown_by_their_file(p: Platform, source: &[u8], res: String)
    requires
        call_ensures(display_name, (p, source), res),
    ensures
        file_name_of(p, source@) is Some ==> res@ == lossy_form(
            shown_bytes(p, file_name_of(p, source@)->0),
        ),
        file_name_of(p, source@) is None ==> res@ == lossy_form(seq![]),
{
}

/// A compiler that failed when it was asked is known by nothing, and any other by the
/// first line of what it printed.
pub proof fn a_failing_compiler_is_known_by_nothing(
    succeeded: bool,
    stdout: &[u8],
    res: String,
)
    requires
        call_ensures(compiler_identity, (succeeded, stdout), res),
    ensures
        !succeeded ==> res@.len() == 0,
        succeeded ==> res@ == first_line(lossy_form(stdout@)),
{
    reveal_strlit("");
}

/// Compiled programs are kept in a directory of the program's own: in the system's
/// cache directory, or in the one for temporary files where there is none.
pub proof fn the_cache_has_its_place(
    p: Platform,
    system: Option<Vec<u8>>,
    temporary: &[u8],
    res: Vec<u8>,
)
    requires
        call_ensures(default_cache_dir, (p, &system, temporary), res),
    ensures
        system is Some ==> res@ == front_of(p, system->0@) + encode_utf8("stress-tester"@),
        system is None ==> res@ == front_of(p, temporary@) + encode_utf8("stress-tester"@),
{
}

// ---------------------------------------------------------------------------
// Failures
// ---------------------------------------------------------------------------

proof fn lemma_encoded_sum(a: Seq<char>, b: Seq<char>)
    ensures
        encode_utf8(a + b) == encode_utf8(a) + encode_utf8(b),
    decreases a.len(),
{
    if a.len() == 0 {
        assert(a + b =~= b);
        assert(encode_utf8(a) + encode_utf8(b) =~= encode_utf8(b));
    } else {
        assert((a + b).drop_first() =~= a.drop_first() + b);
        assert((a + b)[0] == a[0]);
        lemma_encoded_sum(a.drop_first(), b);
        assert(encode_utf8(a + b) =~= encode_utf8(a) + encode_utf8(b));
    }
}

/// Characters start where those before them end, and nowhere in between.
proof fn lemma_boundaries(a: Seq<char>, b: Seq<char>, j: int)
    requires
        b.len() > 0,
        encode_utf8(a).len() <= j < encode_utf8(a).len() + encode_scalar(b[0] as u32).len(),
    ensures
        is_char_boundary(encode_utf8(a + b), j) <==> j == encode_utf8(a).len(),
    decreases a.len(),
{
    let s = a + b;
    let bytes = encode_utf8(s);
    let rest = encode_utf8(s.drop_first());
    let first = encode_scalar(s[0] as u32).len() as int;
    encode_utf8_valid_utf8(s);
    encode_utf8_valid_utf8(s.drop_first());
    encode_utf8_first_scalar(s);
    assert(bytes == encode_scalar(s[0] as u32) + rest);
    assert(pop_first_scalar(bytes) =~= rest);
    lemma_encoded_sum(a, b);
    assert(encode_utf8(b) == encode_scalar(b[0] as u32) + encode_utf8(b.drop_first()));
    assert(j <= bytes.len());
    if a.len() == 0 {
        assert(s =~= b);
        assert(encode_utf8(a).len() == 0);
        if j > 0 {
            assert(is_char_boundary(bytes, j) == is_char_boundary(rest, j - first));
            assert(!is_char_boundary(rest, j - first));
        }
    } else {
        assert(s[0] == a[0]);
        assert(s.drop_first() =~= a.drop_first() + b);
        assert(encode_utf8(a) == encode_scalar(a[0] as u32) + encode_utf8(a.drop_first()));
        assert(j > 0);
        assert(is_char_boundary(bytes, j) == is_char_boundary(rest, j - first));
        lemma_boundaries(a.drop_first(), b, j - first);
    }
}

proof fn lemma_boundary_before(a: Seq<char>, b: Seq<char>, j: nat)
    requires
        b.len() > 0,
        encode_utf8(a).len() <= j < encode_utf8(a).len() + encode_scalar(b[0] as u32).len(),
    ensures
        boundary_before(encode_utf8(a + b), j) == encode_utf8(a).len(),
    decreases j,
{
    lemma_boundaries(a, b, j as int);
    if j > encode_utf8(a).len() {
        lemma_boundary_before(a, b, (j - 1) as nat);
    }
}

/// A text that fits is kept but for the white space at its end. Of a longer one as many
/// characters are kept as fit, with a mark behind them.
pub proof fn long_texts_are_cut_between_characters(
    s: &str,
    max: usize,
    a: Seq<char>,
    b: Seq<char>,
    res: String,
)
    requires
        s@ == a + b,
        call_ensures(truncate_head, (s, max), res),
    ensures
        encode_utf8(s@).len() <= max ==> res@ == trimmed_end(s@),
        b.len() > 0 && encode_utf8(a).len() <= max < encode_utf8(a).len() + encode_scalar(
            b[0] as u32,
        ).len() ==> res@ == a + "\n..."@,
{
    lemma_encoded_sum(a, b);
    if b.len() > 0 && encode_utf8(a).len() <= max < encode_utf8(a).len() + encode_scalar(
        b[0] as u32,
    ).len() {
        lemma_boundary_before(a, b, max as nat);
        let bytes = encode_utf8(s@);
        assert(encode_utf8(b).len() >= encode_scalar(b[0] as u32).len());
        assert(bytes.take(encode_utf8(a).len() as int) =~= encode_utf8(a));
        encode_utf8_decode_utf8(a);
    }
}

/// What the user is told of a compilation that failed: which program, how the compiler
/// ended, and the start of what it wrote; and what is told of the other failures.
pub proof fn failed_builds_are_told(
    e: BuildError,
    shown: &str,
    display: &str,
    log: &str,
    cut: String,
    language: Language,
    name: &'static str,
    res: String,
)
    requires
        call_ensures(truncate_head, (log, 4000usize), cut),
        call_ensures(Language::name, (language,), name),
        call_ensures(BuildError::message, (e, shown, display, log), res),
    ensures
        match e {
            BuildError::FileNotFound => res@ == "file not found: "@ + shown@,
            BuildError::NoClassName => res@ == shown@ + " has no file stem to use as a class name"@,
            BuildError::TimedOut => res@ == "compilation of "@ + display@ + " timed out"@,
            BuildError::Failed(ExitKind::Code(c)) => res@ == "compilation of "@ + display@
                + " failed ("@ + ("exit code "@ + int_text(c as int)) + "):\n"@ + cut@,
            BuildError::Failed(ExitKind::Signal(s)) => res@ == "compilation of "@ + display@
                + " failed ("@ + ("killed by signal "@ + int_text(s as int)) + "):\n"@ + cut@,
            BuildError::UnknownLanguage => res@ == "cannot detect language of "@ + shown@
                + " (supported: .c .cpp .cc .cxx .py .rs .java .js .go, or an already-executable file)"@,
            BuildError::NoToolchain(l) => res@ == missing_tool(l),
            BuildError::NoLauncher => res@ == "java not found; install a JRE or pass --java"@,
            BuildError::NoCompileStep(l) => l == language ==> res@ == "internal error: "@ + name@
                + " has no compile step"@,
        },
{
}

/// What is told where no tool of a language was found: what is missing, and the option
/// that names one.
pub open spec fn missing_tool(l: Language) -> Seq<char> {
    match l {
        Language::C => "no C compiler found; install one or pass --cc"@,
        Language::Cpp => "no C++ compiler found; install one or pass --cxx"@,
        Language::Rust => "rustc not found; install Rust or pass --rustc"@,
        Language::Python => "Python interpreter not found; pass --python"@,
        Language::Java => "javac not found; install a JDK or pass --javac"@,
        Language::JavaScript => "node not found; install Node.js or pass --node"@,
        Language::Go => "go not found; install Go or pass --go"@,
        Language::Binary => "internal error: a binary needs no toolchain"@,
    }
}

/// A build starts with a look at its source, and knows nothing yet.
pub proof fn a_build_starts_with_a_look_at_its_source<'a>(
    p: Platform,
    source: &'a [u8],
    opts: &'a BuildOptions<'a>,
    res: Build<'a>,
)
    requires
        call_ensures(Build::<'a>::start, (p, source, opts), res),
    ensures
        res.step == BuildStep::Inspect,
        res.platform == p,
        res.source@ == source@,
        res.opts == opts,
        res.ok(),
{
}

/// A cache key is the digest of the language, the compiler, its version, the flags
/// and the whole source, in that order and with a zero byte between them.
pub proof fn keys_are_made_of_everything_that_counts(
    l: Language,
    compiler: &str,
    version: &str,
    flags: &str,
    source: &[u8],
    tag: &'static str,
    data: Vec<u8>,
    key: String,
)
    requires
        call_ensures(Language::tag, (l,), tag),
        call_ensures(key_bytes, (l, compiler, version, flags, source), data),
        call_ensures(cache_hash, (l, compiler, version, flags, source), key),
    ensures
        tag@ == match l {
            Language::C => "c"@,
            Language::Cpp => "cpp"@,
            Language::Python => "python"@,
            Language::Rust => "rust"@,
            Language::Java => "java"@,
            Language::JavaScript => "js"@,
            Language::Go => "go"@,
            Language::Binary => "binary"@,
        },
        data@ == encode_utf8(tag@) + seq![0u8] + encode_utf8(compiler@) + seq![0u8] + encode_utf8(
            version@,
        ) + seq![0u8] + encode_utf8(flags@) + seq![0u8] + source@,
        key@ == hex(sha256(data@)),
{
    assert(data@ =~= encode_utf8(tag@) + seq![0u8] + encode_utf8(compiler@) + seq![0u8]
        + encode_utf8(version@) + seq![0u8] + encode_utf8(flags@) + seq![0u8] + source@);
}

} // verus!
