//! Languages and toolchains: which language a file is written in, which
//! compiler or interpreter takes it, and how its program is compiled and run.

use vstd::prelude::*;
use vstd::string::*;
use vstd::utf8::*;

use crate::path::{
    blobs, extension, extension_of, file_name, file_name_of, is_component, join_path,
    path_in, push_blob, same_bytes, stem, stem_of, Platform,
};
use crate::runner::ExitKind;
use crate::text::{copy_if_any, text_if_any, texts, tokens, words};

verus! {

/// A language, or no language at all.
#[derive(Debug, Clone, Copy, PartialEq, Eq, Structural)]
pub enum Language {
    C,
    Cpp,
    Python,
    Rust,
    Java,
    JavaScript,
    Go,
    /// An already-built executable, run as it is.
    Binary,
}

pub open spec fn language_name(l: Language) -> Seq<char> {
    match l {
        Language::C => "C"@,
        Language::Cpp => "C++"@,
        Language::Python => "Python"@,
        Language::Rust => "Rust"@,
        Language::Java => "Java"@,
        Language::JavaScript => "JavaScript"@,
        Language::Go => "Go"@,
        Language::Binary => "binary"@,
    }
}

/// The name by which a language enters a cache key.
pub open spec fn language_tag(l: Language) -> Seq<char> {
    match l {
        Language::C => "c"@,
        Language::Cpp => "cpp"@,
        Language::Python => "python"@,
        Language::Rust => "rust"@,
        Language::Java => "java"@,
        Language::JavaScript => "js"@,
        Language::Go => "go"@,
        Language::Binary => "binary"@,
    }
}

/// The compiler flags of a program for which none were given.
pub open spec fn flags_of(l: Language) -> Seq<char> {
    match l {
        Language::C => "-O2 -std=c11"@,
        Language::Cpp => "-O2 -std=c++17"@,
        Language::Rust => "-O"@,
        _ => ""@,
    }
}

/// Whether programs of a language are run from their source.
pub open spec fn is_interpreted(l: Language) -> bool {
    l == Language::Python || l == Language::JavaScript
}

impl Language {
    /// The name shown to the user.
    pub fn name(self) -> (res: &'static str)
        ensures
            res@ == language_name(self),
    {
        match self {
            Language::C => "C",
            Language::Cpp => "C++",
            Language::Python => "Python",
            Language::Rust => "Rust",
            Language::Java => "Java",
            Language::JavaScript => "JavaScript",
            Language::Go => "Go",
            Language::Binary => "binary",
        }
    }

    /// The name by which the language enters a cache key.
    pub fn tag(self) -> (res: &'static str)
        ensures
            res@ == language_tag(self),
    {
        match self {
            Language::C => "c",
            Language::Cpp => "cpp",
            Language::Python => "python",
            Language::Rust => "rust",
            Language::Java => "java",
            Language::JavaScript => "js",
            Language::Go => "go",
            Language::Binary => "binary",
        }
    }

    /// The compiler flags of a program for which none were given.
    pub fn default_flags(self) -> (res: &'static str)
        ensures
            res@ == flags_of(self),
    {
        match self {
            Language::C => "-O2 -std=c11",
            Language::Cpp => "-O2 -std=c++17",
            Language::Rust => "-O",
            _ => "",
        }
    }

    /// Whether its programs are run from their source, with nothing to compile.
    pub fn interpreted(self) -> (res: bool)
        ensures
            res == is_interpreted(self),
    {
        match self {
            Language::Python | Language::JavaScript => true,
            _ => false,
        }
    }

    /// The argument that makes the toolchain print its version. `go` has no
    /// `--version`.
    pub fn version_args(self) -> (res: &'static str)
        ensures
            res@ == (if self == Language::Go {
                "version"@
            } else {
                "--version"@
            }),
    {
        match self {
            Language::Go => "version",
            _ => "--version",
        }
    }
}

/// Different languages have different tags.
pub proof fn tags_are_distinct(a: Language, b: Language)
    requires
        language_tag(a) == language_tag(b),
    ensures
        a == b,
{
    reveal_strlit("c");
    reveal_strlit("cpp");
    reveal_strlit("python");
    reveal_strlit("rust");
    reveal_strlit("java");
    reveal_strlit("js");
    reveal_strlit("go");
    reveal_strlit("binary");
    assert("c"@.len() == 1 && "cpp"@.len() == 3 && "java"@.len() == 4 && "js"@.len() == 2);
    assert("c"@[0] == 'c' && "cpp"@[0] == 'c' && "java"@[0] == 'j' && "js"@[0] == 'j');
    assert("python"@[0] == 'p' && "rust"@[0] == 'r' && "go"@[0] == 'g' && "binary"@[0] == 'b');
}

/// Why a program could not be built.
#[derive(Debug, Clone, Copy, PartialEq, Eq, Structural)]
pub enum BuildError {
    FileNotFound,
    UnknownLanguage,
    NoToolchain(Language),
    NoLauncher,
    NoClassName,
    NoCompileStep(Language),
    TimedOut,
    Failed(ExitKind),
}

/// What the file system says of a file: whether it is a regular file that can
/// be looked at, and its permission bits.
#[derive(Debug, Clone, Copy, PartialEq, Eq, Structural)]
pub struct FileInfo {
    pub is_file: bool,
    pub mode: u32,
}

pub open spec fn lowered_byte(b: u8) -> u8 {
    if 0x41 <= b <= 0x5a {
        (b + 0x20) as u8
    } else {
        b
    }
}

/// Bytes with the ASCII capital letters made small.
pub open spec fn lowered(s: Seq<u8>) -> Seq<u8> {
    s.map_values(|b: u8| lowered_byte(b))
}

fn lower(s: &[u8]) -> (res: Vec<u8>)
    ensures
        res@ == lowered(s@),
{
    let mut res: Vec<u8> = Vec::new();
    let mut i: usize = 0;
    while i < s.len()
        invariant
            i <= s@.len(),
            res@ =~= lowered(s@.take(i as int)),
        decreases s@.len() - i,
    {
        let b: u8 = s[i];
        res.push(
            if 0x41 <= b && b <= 0x5a {
                b + 0x20
            } else {
                b
            },
        );
        i += 1;
    }
    assert(s@.take(i as int) =~= s@);
    res
}

/// The language that an extension, in small letters, stands for.
pub open spec fn language_of_extension(ext: Seq<u8>) -> Option<Language> {
    if ext == encode_utf8("c"@) {
        Some(Language::C)
    } else if ext == encode_utf8("cpp"@) || ext == encode_utf8("cc"@) || ext == encode_utf8("cxx"@)
        || ext == encode_utf8("c++"@) {
        Some(Language::Cpp)
    } else if ext == encode_utf8("py"@) {
        Some(Language::Python)
    } else if ext == encode_utf8("rs"@) {
        Some(Language::Rust)
    } else if ext == encode_utf8("java"@) {
        Some(Language::Java)
    } else if ext == encode_utf8("js"@) {
        Some(Language::JavaScript)
    } else if ext == encode_utf8("go"@) {
        Some(Language::Go)
    } else {
        None
    }
}

/// The extension of the file at `path`, in small letters.
pub open spec fn path_extension(p: Platform, path: Seq<u8>) -> Option<Seq<u8>> {
    match file_name_of(p, path) {
        None => None,
        Some(name) => match extension_of(name) {
            None => None,
            Some(ext) => Some(lowered(ext)),
        },
    }
}

/// Whether a file can be run as it is: by its permission bits on Unix, which
/// also covers scripts that name their interpreter, and by its extension on
/// Windows, where `.bat` and `.cmd` do not count.
pub open spec fn runnable(p: Platform, path: Seq<u8>, info: FileInfo) -> bool {
    &&& info.is_file
    &&& if p == Platform::Windows {
        path_extension(p, path) == Some(encode_utf8("exe"@)) || path_extension(p, path) == Some(
            encode_utf8("com"@),
        )
    } else {
        info.mode & 0o111 != 0
    }
}

/// The language of the file at `path`, if it has one.
pub open spec fn language_of(p: Platform, path: Seq<u8>, info: FileInfo) -> Option<Language> {
    let by_extension = match path_extension(p, path) {
        None => None,
        Some(ext) => language_of_extension(ext),
    };
    if by_extension is Some {
        by_extension
    } else if runnable(p, path, info) {
        Some(Language::Binary)
    } else {
        None
    }
}

fn low_extension(p: Platform, path: &[u8]) -> (res: Option<Vec<u8>>)
    ensures
        path_extension(p, path@) == (match res {
            Some(v) => Some(v@),
            None => None,
        }),
{
    match file_name(p, path) {
        None => None,
        Some(name) => match extension(&name) {
            None => None,
            Some(ext) => Some(lower(&ext)),
        },
    }
}

/// Whether a file can be run as it is.
pub fn is_executable(p: Platform, path: &[u8], info: FileInfo) -> (res: bool)
    ensures
        res == runnable(p, path@, info),
{
    if !info.is_file {
        return false;
    }
    match p {
        Platform::Windows => match low_extension(p, path) {
            None => false,
            Some(ext) => same_bytes(&ext, "exe".as_bytes()) || same_bytes(&ext, "com".as_bytes()),
        },
        _ => info.mode & 0o111 != 0,
    }
}

fn extension_language(ext: &[u8]) -> (res: Option<Language>)
    ensures
        res == language_of_extension(ext@),
{
    if same_bytes(ext, "c".as_bytes()) {
        Some(Language::C)
    } else if same_bytes(ext, "cpp".as_bytes()) || same_bytes(ext, "cc".as_bytes()) || same_bytes(
        ext,
        "cxx".as_bytes(),
    ) || same_bytes(ext, "c++".as_bytes()) {
        Some(Language::Cpp)
    } else if same_bytes(ext, "py".as_bytes()) {
        Some(Language::Python)
    } else if same_bytes(ext, "rs".as_bytes()) {
        Some(Language::Rust)
    } else if same_bytes(ext, "java".as_bytes()) {
        Some(Language::Java)
    } else if same_bytes(ext, "js".as_bytes()) {
        Some(Language::JavaScript)
    } else if same_bytes(ext, "go".as_bytes()) {
        Some(Language::Go)
    } else {
        None
    }
}

/// The language of the file at `path`: that of its extension, or none where it
/// can be run as it is.
pub fn detect_language(p: Platform, path: &[u8], info: FileInfo) -> (res: Result<
    Language,
    BuildError,
>)
    ensures
        match language_of(p, path@, info) {
            Some(l) => res == Ok::<Language, BuildError>(l),
            None => res == Err::<Language, BuildError>(BuildError::UnknownLanguage),
        },
{
    let by_extension = match low_extension(p, path) {
        None => None,
        Some(ext) => extension_language(&ext),
    };
    match by_extension {
        Some(l) => Ok(l),
        None => if is_executable(p, path, info) {
            Ok(Language::Binary)
        } else {
            Err(BuildError::UnknownLanguage)
        },
    }
}

/// A file is taken for an already-built program exactly when its extension is
/// none of a language and it can be run as it is.
pub proof fn prebuilt_programs_are_runnable(p: Platform, path: Seq<u8>, info: FileInfo)
    ensures
        language_of(p, path, info) == Some(Language::Binary) <==> runnable(p, path, info) && (
        match path_extension(p, path) {
            Some(ext) => language_of_extension(ext) is None,
            None => true,
        }),
{
}

/// Compilers and interpreters chosen by the user. They win over the
/// environment and over what is found on the search path.
#[derive(Debug, Clone)]
pub struct CompilerConfig {
    pub cc: Option<String>,
    pub cxx: Option<String>,
    pub rustc: Option<String>,
    pub python: Option<String>,
    pub javac: Option<String>,
    pub java: Option<String>,
    pub go: Option<String>,
    pub node: Option<String>,
}

impl Default for CompilerConfig {
    /// Nothing chosen.
    fn default() -> (res: Self)
        ensures
            res.cc is None,
            res.cxx is None,
            res.rustc is None,
            res.python is None,
            res.javac is None,
            res.java is None,
            res.go is None,
            res.node is None,
    {
        CompilerConfig {
            cc: None,
            cxx: None,
            rustc: None,
            python: None,
            javac: None,
            java: None,
            go: None,
            node: None,
        }
    }
}

/// The programs that are looked for to compile or interpret a language, the
/// preferred one first.
pub open spec fn toolchain(l: Language) -> Seq<Seq<char>> {
    match l {
        Language::C => seq!["cc"@, "gcc"@, "clang"@],
        Language::Cpp => seq!["c++"@, "g++"@, "clang++"@],
        Language::Rust => seq!["rustc"@],
        Language::Python => seq!["python3"@, "python"@],
        Language::Java => seq!["javac"@],
        Language::JavaScript => seq!["node"@, "nodejs"@],
        Language::Go => seq!["go"@],
        Language::Binary => seq![],
    }
}

/// The environment variable that names the toolchain of a language.
pub open spec fn variable_of(l: Language) -> Option<Seq<char>> {
    match l {
        Language::C => Some("CC"@),
        Language::Cpp => Some("CXX"@),
        Language::Java => Some("JAVAC"@),
        _ => None,
    }
}

/// The toolchain that the user chose for a language.
pub open spec fn configured(l: Language, cfg: CompilerConfig) -> Option<Seq<char>> {
    match l {
        Language::C => text_if_any(cfg.cc),
        Language::Cpp => text_if_any(cfg.cxx),
        Language::Rust => text_if_any(cfg.rustc),
        Language::Python => text_if_any(cfg.python),
        Language::Java => text_if_any(cfg.javac),
        Language::JavaScript => text_if_any(cfg.node),
        Language::Go => text_if_any(cfg.go),
        Language::Binary => None,
    }
}

/// The first name, from position `i` on, that was found.
pub open spec fn first_found(names: Seq<Seq<char>>, found: Seq<bool>, i: nat) -> Option<Seq<char>>
    decreases names.len() - i,
{
    if i >= names.len() || i >= found.len() {
        None
    } else if found[i as int] {
        Some(names[i as int])
    } else {
        first_found(names, found, i + 1)
    }
}

/// The toolchain of a language: what the user chose, what the environment
/// names, or the first program of the usual names that was found.
pub open spec fn chosen_tool(
    l: Language,
    cfg: CompilerConfig,
    variable: Option<Seq<char>>,
    found: Seq<bool>,
) -> Option<Seq<char>> {
    if configured(l, cfg) is Some {
        configured(l, cfg)
    } else if variable_of(l) is Some && variable is Some {
        variable
    } else {
        first_found(toolchain(l), found, 0)
    }
}

/// The launcher that runs what `javac` made.
pub open spec fn chosen_launcher(cfg: CompilerConfig, java_found: bool) -> Option<Seq<char>> {
    if cfg.java is Some {
        Some(cfg.java->0@)
    } else if java_found {
        Some("java"@)
    } else {
        None
    }
}

fn push_text(v: &mut Vec<String>, s: &str)
    ensures
        texts(final(v)@) == texts(old(v)@).push(s@),
{
    let ghost before = texts(v@);
    let t = s.to_owned();
    v.push(t);
    assert(texts(v@) =~= before.push(t@));
}

/// The programs that are looked for to compile or interpret a language, the
/// preferred one first.
pub fn toolchain_names(l: Language) -> (res: Vec<String>)
    ensures
        texts(res@) == toolchain(l),
{
    let mut v: Vec<String> = Vec::new();
    match l {
        Language::C => {
            push_text(&mut v, "cc");
            push_text(&mut v, "gcc");
            push_text(&mut v, "clang");
        },
        Language::Cpp => {
            push_text(&mut v, "c++");
            push_text(&mut v, "g++");
            push_text(&mut v, "clang++");
        },
        Language::Rust => push_text(&mut v, "rustc"),
        Language::Python => {
            push_text(&mut v, "python3");
            push_text(&mut v, "python");
        },
        Language::Java => push_text(&mut v, "javac"),
        Language::JavaScript => {
            push_text(&mut v, "node");
            push_text(&mut v, "nodejs");
        },
        Language::Go => push_text(&mut v, "go"),
        Language::Binary => {},
    }
    assert(texts(v@) =~= toolchain(l));
    v
}

/// The environment variable that names the toolchain of a language.
pub fn toolchain_variable(l: Language) -> (res: Option<&'static str>)
    ensures
        match res {
            Some(s) => variable_of(l) == Some(s@),
            None => variable_of(l) is None,
        },
{
    match l {
        Language::C => Some("CC"),
        Language::Cpp => Some("CXX"),
        Language::Java => Some("JAVAC"),
        _ => None,
    }
}

/// The first of the names that was found. `found` holds, for each name, whether
/// the search path has a program of that name.
pub fn find_any(names: &Vec<String>, found: &[bool]) -> (res: Option<String>)
    ensures
        text_if_any(res) == first_found(texts(names@), found@, 0),
{
    let ghost all = texts(names@);
    let mut i: usize = 0;
    while i < names.len() && i < found.len()
        invariant
            i <= names@.len(),
            i <= found@.len(),
            all == texts(names@),
            first_found(all, found@, 0) == first_found(all, found@, i as nat),
        decreases names@.len() - i,
    {
        if found[i] {
            assert(all[i as int] == names@[i as int]@);
            return Some(names[i].as_str().to_owned());
        }
        i += 1;
    }
    None
}

/// The toolchain of a language. `variable` is the value of the environment
/// variable that names it; `found` holds, for each of the usual names, whether
/// the search path has such a program.
pub fn resolve_compiler(
    l: Language,
    cfg: &CompilerConfig,
    variable: &Option<String>,
    found: &[bool],
) -> (res: Result<String, BuildError>)
    ensures
        match res {
            Ok(tool) => chosen_tool(l, *cfg, text_if_any(*variable), found@) == Some(tool@),
            Err(e) => e == BuildError::NoToolchain(l) && chosen_tool(
                l,
                *cfg,
                text_if_any(*variable),
                found@,
            ) is None,
        },
{
    let given = match l {
        Language::C => copy_if_any(&cfg.cc),
        Language::Cpp => copy_if_any(&cfg.cxx),
        Language::Rust => copy_if_any(&cfg.rustc),
        Language::Python => copy_if_any(&cfg.python),
        Language::Java => copy_if_any(&cfg.javac),
        Language::JavaScript => copy_if_any(&cfg.node),
        Language::Go => copy_if_any(&cfg.go),
        Language::Binary => None,
    };
    if let Some(tool) = given {
        return Ok(tool);
    }
    if toolchain_variable(l).is_some() {
        if let Some(tool) = copy_if_any(variable) {
            return Ok(tool);
        }
    }
    match find_any(&toolchain_names(l), found) {
        Some(tool) => Ok(tool),
        None => Err(BuildError::NoToolchain(l)),
    }
}

/// The launcher that runs what `javac` made. `java_found` tells whether the
/// search path has a `java`.
pub fn resolve_java_launcher(cfg: &CompilerConfig, java_found: bool) -> (res: Result<
    String,
    BuildError,
>)
    ensures
        match res {
            Ok(java) => chosen_launcher(*cfg, java_found) == Some(java@),
            Err(e) => e == BuildError::NoLauncher && chosen_launcher(*cfg, java_found) is None,
        },
{
    match &cfg.java {
        Some(java) => Ok(java.as_str().to_owned()),
        None => if java_found {
            Ok("java".to_owned())
        } else {
            Err(BuildError::NoLauncher)
        },
    }
}

/// What the user chose wins over the environment and the search path.
pub proof fn the_users_choice_wins(
    l: Language,
    cfg: CompilerConfig,
    variable: Option<Seq<char>>,
    found: Seq<bool>,
)
    requires
        configured(l, cfg) is Some,
    ensures
        chosen_tool(l, cfg, variable, found) == configured(l, cfg),
{
}

/// A toolchain is only ever one that the user chose, that the environment
/// names, or that was found under one of the usual names, and then no name
/// before it was found.
pub proof fn tools_have_a_source(
    l: Language,
    cfg: CompilerConfig,
    variable: Option<Seq<char>>,
    found: Seq<bool>,
    tool: Seq<char>,
)
    requires
        chosen_tool(l, cfg, variable, found) == Some(tool),
    ensures
        ({
            ||| configured(l, cfg) == Some(tool)
            ||| variable_of(l) is Some && variable == Some(tool)
            ||| exists|i: int|
                0 <= i < toolchain(l).len() && i < found.len() && #[trigger] found[i]
                    && toolchain(l)[i] == tool && forall|j: int| 0 <= j < i ==> !#[trigger] found[j]
        }),
{
    if configured(l, cfg) is None && (variable_of(l) is None || variable is None) {
        lemma_first_found(toolchain(l), found, 0, tool);
    }
}

proof fn lemma_first_found(names: Seq<Seq<char>>, found: Seq<bool>, i: nat, name: Seq<char>)
    requires
        first_found(names, found, i) == Some(name),
    ensures
        exists|k: int|
            i <= k < names.len() && k < found.len() && #[trigger] found[k] && names[k] == name
                && forall|j: int| i <= j < k ==> !#[trigger] found[j],
    decreases names.len() - i,
{
    if !found[i as int] {
        lemma_first_found(names, found, i + 1, name);
        let k = choose|k: int|
            i + 1 <= k < names.len() && k < found.len() && #[trigger] found[k] && names[k] == name
                && forall|j: int| i + 1 <= j < k ==> !#[trigger] found[j];
        assert(i <= k < names.len() && k < found.len() && found[k] && names[k] == name);
    }
}

/// A runnable program: the whole argument vector, and a name to show.
#[derive(Debug, Clone)]
pub struct Program {
    pub argv: Vec<Vec<u8>>,
    pub display: String,
}

/// What a build depends on besides the source.
pub struct BuildOptions<'a> {
    pub cache_dir: &'a [u8],
    pub compilers: &'a CompilerConfig,
    /// Flags that take the place of the language's own. They mean nothing to
    /// an interpreted language or an already-built program.
    pub flags: Option<&'a str>,
}

/// A built program.
pub struct BuildResult {
    pub program: Program,
    pub language: Language,
    pub cached: bool,
}

/// How a program came to be.
pub open spec fn build_note(l: Language, cached: bool) -> Seq<char> {
    if l == Language::Binary {
        "prebuilt"@
    } else if is_interpreted(l) {
        "interpreted"@
    } else if cached {
        "cached"@
    } else {
        "compiled"@
    }
}

impl BuildResult {
    /// How the program came to be, for the list of built programs.
    pub fn note(&self) -> (res: &'static str)
        ensures
            res@ == build_note(self.language, self.cached),
    {
        match self.language {
            Language::Binary => "prebuilt",
            Language::Python | Language::JavaScript => "interpreted",
            _ => if self.cached {
                "cached"
            } else {
                "compiled"
            },
        }
    }
}

/// The UTF-8 bytes of each text.
pub open spec fn encoded(v: Seq<Seq<char>>) -> Seq<Seq<u8>> {
    v.map_values(|s: Seq<char>| encode_utf8(s))
}

/// The name of the program that a compiler writes.
pub open spec fn program_name(p: Platform) -> Seq<char> {
    if p == Platform::Windows {
        "prog.exe"@
    } else {
        "prog"@
    }
}

/// The program that a compiler writes into `dir`.
pub open spec fn program_path(p: Platform, dir: Seq<u8>) -> Seq<u8> {
    path_in(p, dir, encode_utf8(program_name(p)))
}

/// The class that a Java source holds: that of the name of its file.
pub open spec fn class_of(p: Platform, source: Seq<u8>) -> Option<Seq<u8>> {
    match file_name_of(p, source) {
        Some(name) => Some(stem_of(name)),
        None => None,
    }
}

/// The command that compiles `source` into `dir`.
pub open spec fn compile_command(
    p: Platform,
    l: Language,
    tool: Seq<char>,
    flags: Seq<char>,
    source: Seq<u8>,
    dir: Seq<u8>,
) -> Seq<Seq<u8>> {
    let tool = encode_utf8(tool);
    let flags = encoded(words(flags));
    match l {
        // javac writes a directory of class files.
        Language::Java => seq![tool] + flags + seq![encode_utf8("-d"@), dir, source],
        // `-o` is a flag of `go build`, and comes before the source.
        Language::Go => seq![tool, encode_utf8("build"@), encode_utf8("-o"@), program_path(p, dir)]
            + flags + seq![source],
        _ => seq![tool] + flags + seq![source, encode_utf8("-o"@), program_path(p, dir)],
    }
}

/// The command that runs what was compiled into `dir`.
pub open spec fn run_command(
    p: Platform,
    l: Language,
    launcher: Seq<char>,
    class: Seq<u8>,
    dir: Seq<u8>,
) -> Seq<Seq<u8>> {
    match l {
        Language::Java => seq![encode_utf8(launcher), encode_utf8("-cp"@), dir, class],
        _ => seq![program_path(p, dir)],
    }
}

/// Why a program cannot be compiled, if it cannot.
pub open spec fn recipe_error(
    p: Platform,
    l: Language,
    cfg: CompilerConfig,
    java_found: bool,
    source: Seq<u8>,
) -> Option<BuildError> {
    if l == Language::Binary || is_interpreted(l) {
        Some(BuildError::NoCompileStep(l))
    } else if l != Language::Java {
        None
    } else if chosen_launcher(cfg, java_found) is None {
        Some(BuildError::NoLauncher)
    } else if class_of(p, source) is None {
        Some(BuildError::NoClassName)
    } else {
        None
    }
}

fn push_words(v: &mut Vec<Vec<u8>>, s: &str)
    ensures
        blobs(final(v)@) == blobs(old(v)@) + encoded(words(s@)),
{
    let ghost before = blobs(v@);
    let all = tokens(s);
    let ghost wanted = encoded(words(s@));
    let mut i: usize = 0;
    assert(before + wanted.take(0) =~= before);
    while i < all.len()
        invariant
            i <= all@.len(),
            texts(all@) == words(s@),
            wanted == encoded(words(s@)),
            blobs(v@) == before + wanted.take(i as int),
        decreases all@.len() - i,
    {
        push_blob(v, all[i].as_str().as_bytes());
        assert(texts(all@)[i as int] == all@[i as int]@);
        assert((before + wanted.take(i as int)).push(wanted[i as int]) =~= before + wanted.take(
            i + 1,
        ));
        i += 1;
    }
    assert(wanted.take(i as int) =~= wanted);
}

/// ASCII characters other than separators and colons, and more than dots could
/// be, name one component.
pub proof fn lemma_ascii_component(p: Platform, name: Seq<char>)
    requires
        name.len() > 2,
        forall|i: int|
            0 <= i < name.len() ==> '\0' <= #[trigger] name[i] <= '\u{7f}' && name[i] != '/'
                && name[i] != '\\' && name[i] != ':',
    ensures
        is_component(p, encode_utf8(name)),
{
    assert(is_ascii_chars(name));
    is_ascii_chars_encode_utf8(name);
    let bytes = encode_utf8(name);
    assert(name[1] as u8 == bytes[1]);
    assert forall|i: int| 0 <= i < bytes.len() implies !crate::path::is_separator(
        p,
        #[trigger] bytes[i],
    ) by {
        assert(name[i] as u8 == bytes[i]);
    }
}

pub(crate) fn join_text(p: Platform, dir: &[u8], name: &str) -> (res: Vec<u8>)
    requires
        is_component(p, encode_utf8(name@)),
    ensures
        res@ == path_in(p, dir@, encode_utf8(name@)),
{
    join_path(p, dir, name.as_bytes())
}

fn program_file(p: Platform, dir: &[u8]) -> (res: Vec<u8>)
    ensures
        res@ == program_path(p, dir@),
{
    proof {
        reveal_strlit("prog");
        reveal_strlit("prog.exe");
        lemma_ascii_component(p, program_name(p));
    }
    match p {
        Platform::Windows => join_text(p, dir, "prog.exe"),
        _ => join_text(p, dir, "prog"),
    }
}

/// The command that compiles a program into `dir`, and the one that runs the
/// result.
pub fn recipe(
    p: Platform,
    l: Language,
    tool: &str,
    cfg: &CompilerConfig,
    java_found: bool,
    flags: &str,
    source: &[u8],
    dir: &[u8],
) -> (res: Result<(Vec<Vec<u8>>, Vec<Vec<u8>>), BuildError>)
    ensures
        match res {
            Ok((compile, run)) => {
                &&& recipe_error(p, l, *cfg, java_found, source@) is None
                &&& blobs(compile@) == compile_command(p, l, tool@, flags@, source@, dir@)
                &&& blobs(run@) == run_command(
                    p,
                    l,
                    chosen_launcher(*cfg, java_found)->0,
                    class_of(p, source@)->0,
                    dir@,
                )
            },
            Err(e) => recipe_error(p, l, *cfg, java_found, source@) == Some(e),
        },
{
    let mut compile: Vec<Vec<u8>> = Vec::new();
    let mut run: Vec<Vec<u8>> = Vec::new();
    push_blob(&mut compile, tool.as_bytes());
    let ghost first = seq![encode_utf8(tool@)];
    assert(blobs(compile@) =~= first);
    match l {
        Language::Java => {
            let launcher = match resolve_java_launcher(cfg, java_found) {
                Ok(java) => java,
                Err(e) => {
                    return Err(e);
                },
            };
            let class = match file_name(p, source) {
                Some(name) => stem(&name),
                None => {
                    return Err(BuildError::NoClassName);
                },
            };
            push_words(&mut compile, flags);
            push_blob(&mut compile, "-d".as_bytes());
            push_blob(&mut compile, dir);
            push_blob(&mut compile, source);
            push_blob(&mut run, launcher.as_str().as_bytes());
            push_blob(&mut run, "-cp".as_bytes());
            push_blob(&mut run, dir);
            push_blob(&mut run, &class);
        },
        Language::Go => {
            let exe = program_file(p, dir);
            push_blob(&mut compile, "build".as_bytes());
            push_blob(&mut compile, "-o".as_bytes());
            push_blob(&mut compile, &exe);
            push_words(&mut compile, flags);
            push_blob(&mut compile, source);
            push_blob(&mut run, &exe);
        },
        Language::C | Language::Cpp | Language::Rust => {
            let exe = program_file(p, dir);
            push_words(&mut compile, flags);
            push_blob(&mut compile, source);
            push_blob(&mut compile, "-o".as_bytes());
            push_blob(&mut compile, &exe);
            push_blob(&mut run, &exe);
        },
        Language::Python | Language::JavaScript | Language::Binary => {
            return Err(BuildError::NoCompileStep(l));
        },
    }
    assert(blobs(compile@) =~= compile_command(p, l, tool@, flags@, source@, dir@));
    Ok((compile, run))
}

} // verus!
