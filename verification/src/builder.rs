//! Building a program: the compile cache, and what is done in which order.
//!
//! A compiled program is kept in a directory named after everything that went
//! into it: the language, the compiler and its version, the flags and the
//! source. Any change of these compiles anew. A marker file tells that the
//! directory holds a complete build.

use sha2::{Digest, Sha256};
use vstd::prelude::*;
use vstd::string::*;
use vstd::utf8::*;

use crate::duration::{max_nanos, Duration};
use crate::lang::{
    chosen_launcher, chosen_tool, class_of, compile_command, detect_language, flags_of,
    is_interpreted, join_text, language_name, language_of, language_tag, lemma_ascii_component,
    recipe, recipe_error, resolve_compiler, run_command, BuildError, BuildOptions, BuildResult,
    FileInfo, Language, Program,
};
use crate::number::{int_text, push_int};
use crate::path::{
    blobs, bytes_of, copy_blobs, file_name, file_name_of, front_of, is_component, path_in,
    push_blob, push_bytes, Platform,
};
use crate::runner::{ExitKind, RunSpec};
use crate::text::{
    lines, lines_of, lossy, lossy_form, text_if_any, texts, trim, trim_end, trimmed, trimmed_end,
};

verus! {

// ---------------------------------------------------------------------------
// Cache keys
// ---------------------------------------------------------------------------

/// The SHA-256 digest of bytes.
pub uninterp spec fn sha256(data: Seq<u8>) -> Seq<u8>;

/// Hashes bytes with SHA-256.
///
/// Calls `sha2::Sha256::digest`. The result depends on the bytes alone and is
/// named by `sha256`; it has 32 bytes. Nothing is claimed of which digests
/// differ.
#[verifier::external_body]
pub(crate) fn digest(data: &[u8]) -> (res: Vec<u8>)
    ensures
        res@ == sha256(data@),
        res@.len() == 32,
{
    Sha256::digest(data).to_vec()
}

pub open spec fn hex_digit(n: u8) -> char {
    if n < 10 {
        ('0' as u8 + n) as char
    } else {
        ('a' as u8 + (n - 10)) as char
    }
}

/// Bytes in small hexadecimal digits, two for each.
pub open spec fn hex(bytes: Seq<u8>) -> Seq<char>
    decreases bytes.len(),
{
    if bytes.len() == 0 {
        seq![]
    } else {
        hex(bytes.drop_last()).push(hex_digit(bytes.last() / 16)).push(hex_digit(bytes.last() % 16))
    }
}

fn to_digit(n: u8) -> (res: char)
    requires
        n < 16,
    ensures
        res == hex_digit(n),
{
    if n < 10 {
        (0x30 + n) as char
    } else {
        (0x61 + (n - 10)) as char
    }
}

/// Bytes in small hexadecimal digits, two for each.
pub fn to_hex(bytes: &[u8]) -> (res: String)
    ensures
        res@ == hex(bytes@),
{
    let mut res = String::new();
    let mut i: usize = 0;
    assert(bytes@.take(0) =~= Seq::<u8>::empty());
    while i < bytes.len()
        invariant
            i <= bytes@.len(),
            res@ =~= hex(bytes@.take(i as int)),
        decreases bytes@.len() - i,
    {
        assert(bytes@.take(i + 1).drop_last() =~= bytes@.take(i as int));
        assert(bytes@.take(i + 1).last() == bytes@[i as int]);
        let b: u8 = bytes[i];
        res.push(to_digit(b / 16));
        res.push(to_digit(b % 16));
        i += 1;
    }
    assert(bytes@.take(i as int) =~= bytes@);
    res
}

/// Everything that a compiled program depends on, each part but the last ended
/// by a zero byte.
pub open spec fn key_material(
    l: Language,
    compiler: Seq<char>,
    version: Seq<char>,
    flags: Seq<char>,
    source: Seq<u8>,
) -> Seq<u8> {
    encode_utf8(language_tag(l)).push(0) + (encode_utf8(compiler).push(0) + (encode_utf8(
        version,
    ).push(0) + (encode_utf8(flags).push(0) + source)))
}

/// The name of the directory that holds a compiled program.
pub open spec fn cache_key(
    l: Language,
    compiler: Seq<char>,
    version: Seq<char>,
    flags: Seq<char>,
    source: Seq<u8>,
) -> Seq<char> {
    hex(sha256(key_material(l, compiler, version, flags, source)))
}

/// The bytes that a cache key is the digest of.
pub fn key_bytes(l: Language, compiler: &str, version: &str, flags: &str, source: &[u8]) -> (res:
    Vec<u8>)
    ensures
        res@ == key_material(l, compiler@, version@, flags@, source@),
{
    let mut data = bytes_of(l.tag().as_bytes());
    data.push(0);
    push_bytes(&mut data, compiler.as_bytes());
    data.push(0);
    push_bytes(&mut data, version.as_bytes());
    data.push(0);
    push_bytes(&mut data, flags.as_bytes());
    data.push(0);
    push_bytes(&mut data, source);
    assert(data@ =~= key_material(l, compiler@, version@, flags@, source@));
    data
}

/// The name of the directory that holds a compiled program.
pub fn cache_hash(l: Language, compiler: &str, version: &str, flags: &str, source: &[u8]) -> (res:
    String)
    ensures
        res@ == cache_key(l, compiler@, version@, flags@, source@),
        res@.len() == 64,
{
    let d = digest(&key_bytes(l, compiler, version, flags, source));
    proof {
        lemma_hex_len(d@);
    }
    to_hex(&d)
}

/// Whether a text holds no NUL.
pub open spec fn no_nul(s: Seq<char>) -> bool {
    forall|i: int| 0 <= i < s.len() ==> #[trigger] s[i] != '\0'
}

proof fn lemma_scalar_not_zero(c: u32, i: int)
    requires
        c != 0,
        0 <= i < encode_scalar(c).len(),
    ensures
        encode_scalar(c)[i] != 0,
{
    assert(c != 0 && c <= 0x7f ==> (c & 0x7f) as u8 != 0u8) by (bit_vector);
    assert(0xc0u8 | ((c >> 6) & 0x1f) as u8 != 0u8) by (bit_vector);
    assert(0xe0u8 | ((c >> 12) & 0x0f) as u8 != 0u8) by (bit_vector);
    assert(0xf0u8 | ((c >> 18) & 0x7) as u8 != 0u8) by (bit_vector);
    assert(0x80u8 | (c & 0x3f) as u8 != 0u8) by (bit_vector);
    assert(0x80u8 | ((c >> 6) & 0x3f) as u8 != 0u8) by (bit_vector);
    assert(0x80u8 | ((c >> 12) & 0x3f) as u8 != 0u8) by (bit_vector);
}

proof fn lemma_char_not_zero(c: char)
    requires
        c != '\0',
    ensures
        c as u32 != 0,
{
}

/// A text without NUL has no zero byte.
proof fn lemma_no_zero(s: Seq<char>, i: int)
    requires
        no_nul(s),
        0 <= i < encode_utf8(s).len(),
    ensures
        encode_utf8(s)[i] != 0,
    decreases s.len(),
{
    assert(s.len() > 0);
    lemma_char_not_zero(s[0]);
    let first = encode_scalar(s[0] as u32);
    if i < first.len() {
        lemma_scalar_not_zero(s[0] as u32, i);
    } else {
        assert forall|j: int| 0 <= j < s.drop_first().len() implies #[trigger] s.drop_first()[j]
            != '\0' by {
            assert(s.drop_first()[j] == s[j + 1]);
        }
        lemma_no_zero(s.drop_first(), i - first.len());
    }
}

/// What a zero byte ends can be told from what follows it.
proof fn lemma_split_at_zero(a: Seq<char>, b: Seq<char>, x: Seq<u8>, y: Seq<u8>)
    requires
        no_nul(a),
        no_nul(b),
        encode_utf8(a).push(0) + x == encode_utf8(b).push(0) + y,
    ensures
        a == b,
        x == y,
{
    let ea = encode_utf8(a);
    let eb = encode_utf8(b);
    let l = ea.push(0) + x;
    let r = eb.push(0) + y;
    if ea.len() < eb.len() {
        assert(l[ea.len() as int] == 0);
        assert(r[ea.len() as int] == eb[ea.len() as int]);
        lemma_no_zero(b, ea.len() as int);
    }
    if eb.len() < ea.len() {
        assert(r[eb.len() as int] == 0);
        assert(l[eb.len() as int] == ea[eb.len() as int]);
        lemma_no_zero(a, eb.len() as int);
    }
    assert(ea =~= l.take(ea.len() as int));
    assert(eb =~= r.take(ea.len() as int));
    assert(x =~= l.skip(ea.len() as int + 1));
    assert(y =~= r.skip(ea.len() as int + 1));
    encode_utf8_decode_utf8(a);
    encode_utf8_decode_utf8(b);
}

/// What a cache key is the digest of tells apart all that went into it: the
/// language, the compiler, its version, the flags and the source.
pub proof fn cache_keys_depend_on_all_inputs(
    l1: Language,
    compiler1: Seq<char>,
    version1: Seq<char>,
    flags1: Seq<char>,
    source1: Seq<u8>,
    l2: Language,
    compiler2: Seq<char>,
    version2: Seq<char>,
    flags2: Seq<char>,
    source2: Seq<u8>,
)
    requires
        no_nul(compiler1),
        no_nul(compiler2),
        no_nul(version1),
        no_nul(version2),
        no_nul(flags1),
        no_nul(flags2),
        key_material(l1, compiler1, version1, flags1, source1) == key_material(
            l2,
            compiler2,
            version2,
            flags2,
            source2,
        ),
    ensures
        l1 == l2,
        compiler1 == compiler2,
        version1 == version2,
        flags1 == flags2,
        source1 == source2,
{
    lemma_tag(l1);
    lemma_tag(l2);
    let f1 = encode_utf8(flags1).push(0) + source1;
    let f2 = encode_utf8(flags2).push(0) + source2;
    let v1 = encode_utf8(version1).push(0) + f1;
    let v2 = encode_utf8(version2).push(0) + f2;
    let c1 = encode_utf8(compiler1).push(0) + v1;
    let c2 = encode_utf8(compiler2).push(0) + v2;
    lemma_split_at_zero(language_tag(l1), language_tag(l2), c1, c2);
    lemma_split_at_zero(compiler1, compiler2, v1, v2);
    lemma_split_at_zero(version1, version2, f1, f2);
    lemma_split_at_zero(flags1, flags2, source1, source2);
    crate::lang::tags_are_distinct(l1, l2);
}

proof fn lemma_tag(l: Language)
    ensures
        no_nul(language_tag(l)),
{
    reveal_strlit("c");
    reveal_strlit("cpp");
    reveal_strlit("python");
    reveal_strlit("rust");
    reveal_strlit("java");
    reveal_strlit("js");
    reveal_strlit("go");
    reveal_strlit("binary");
}

/// Different digests are written differently, so that two programs share a
/// directory only where their digests agree.
pub proof fn different_digests_are_written_differently(a: Seq<u8>, b: Seq<u8>)
    requires
        hex(a) == hex(b),
    ensures
        a == b,
    decreases a.len(),
{
    lemma_hex_len(a);
    lemma_hex_len(b);
    if a.len() > 0 {
        let n = hex(a).len();
        assert(b.len() > 0);
        assert(hex(a)[n - 1] == hex_digit(a.last() % 16) && hex(b)[n - 1] == hex_digit(
            b.last() % 16,
        ));
        assert(hex(a)[n - 2] == hex_digit(a.last() / 16) && hex(b)[n - 2] == hex_digit(
            b.last() / 16,
        ));
        assert(hex(a.drop_last()) =~= hex(a).take(n - 2));
        assert(hex(b.drop_last()) =~= hex(b).take(n - 2));
        different_digests_are_written_differently(a.drop_last(), b.drop_last());
        lemma_hex_digit(a.last() / 16, b.last() / 16);
        lemma_hex_digit(a.last() % 16, b.last() % 16);
        assert(a =~= a.drop_last().push(a.last()));
        assert(b =~= b.drop_last().push(b.last()));
    } else {
        assert(a =~= b);
    }
}

proof fn lemma_hex_digit(n: u8, m: u8)
    requires
        n < 16,
        m < 16,
        hex_digit(n) == hex_digit(m),
    ensures
        n == m,
{
    assert(hex_digit(n) as int == if n < 10 {
        48 + n
    } else {
        87 + n
    });
    assert(hex_digit(m) as int == if m < 10 {
        48 + m
    } else {
        87 + m
    });
}

proof fn lemma_hex_len(a: Seq<u8>)
    ensures
        hex(a).len() == 2 * a.len(),
        forall|i: int|
            0 <= i < hex(a).len() ==> '0' <= #[trigger] hex(a)[i] <= '9' || 'a' <= hex(a)[i]
                <= 'f',
    decreases a.len(),
{
    if a.len() > 0 {
        lemma_hex_len(a.drop_last());
    }
}

// ---------------------------------------------------------------------------
// What is read on the way
// ---------------------------------------------------------------------------

/// The first line of a text, without the white space around it.
pub open spec fn first_line(text: Seq<char>) -> Seq<char> {
    if lines_of(text).len() == 0 {
        ""@
    } else {
        trimmed(lines_of(text)[0])
    }
}

/// The first line of a text, without the white space around it.
pub fn version_line(text: &str) -> (res: String)
    ensures
        res@ == first_line(text@),
{
    let all = lines(text);
    if all.len() == 0 {
        "".to_owned()
    } else {
        assert(texts(all@)[0] == all@[0]@);
        trim(all[0].as_str())
    }
}

/// What tells one version of a compiler from another: the first line that it
/// printed when asked, or nothing where it failed.
pub open spec fn identity_of(succeeded: bool, stdout: Seq<u8>) -> Seq<char> {
    if succeeded {
        first_line(lossy_form(stdout))
    } else {
        ""@
    }
}

/// What tells one version of a compiler from another.
pub fn compiler_identity(succeeded: bool, stdout: &[u8]) -> (res: String)
    ensures
        res@ == identity_of(succeeded, stdout@),
{
    if succeeded {
        version_line(lossy(stdout).as_str())
    } else {
        "".to_owned()
    }
}

/// The last position up to `n` at which a character starts.
pub open spec fn boundary_before(bytes: Seq<u8>, n: nat) -> nat
    decreases n,
{
    if n == 0 || is_char_boundary(bytes, n as int) {
        n
    } else {
        boundary_before(bytes, (n - 1) as nat)
    }
}

/// A text cut to `max` bytes, at the start of a character, with a mark behind
/// it where something was cut off. A text that fits only loses the white space
/// at its end.
pub open spec fn head(s: Seq<char>, max: nat) -> Seq<char> {
    let bytes = encode_utf8(s);
    if bytes.len() <= max {
        trimmed_end(s)
    } else {
        decode_utf8(bytes.take(boundary_before(bytes, max) as int)) + "\n..."@
    }
}

/// A text cut to `max` bytes.
pub fn truncate_head(s: &str, max: usize) -> (res: String)
    ensures
        res@ == head(s@, max as nat),
{
    let bytes = s.as_bytes();
    if bytes.len() <= max {
        return trim_end(s);
    }
    proof {
        encode_utf8_valid_utf8(s@);
    }
    let mut cut: usize = max;
    while cut > 0 && !s.is_char_boundary(cut)
        invariant
            bytes@ == s.spec_bytes(),
            cut <= max,
            boundary_before(bytes@, max as nat) == boundary_before(bytes@, cut as nat),
        decreases cut,
    {
        cut -= 1;
    }
    proof {
        is_char_boundary_start_end_of_seq(bytes@);
    }
    let (front, _back) = s.split_at(cut);
    proof {
        encode_utf8_decode_utf8(front@);
        assert(bytes@.subrange(0, cut as int) =~= bytes@.take(cut as int));
    }
    let mut res = front.to_owned();
    res.append("\n...");
    res
}

/// The directory for compiled programs where none was given: one of ours in
/// the system's cache directory, or in the directory for temporary files where
/// the system has no such.
pub fn default_cache_dir(p: Platform, system: &Option<Vec<u8>>, temporary: &[u8]) -> (res: Vec<u8>)
    ensures
        res@ == path_in(
            p,
            match *system {
                Some(dir) => dir@,
                None => temporary@,
            },
            encode_utf8("stress-tester"@),
        ),
{
    proof {
        reveal_strlit("stress-tester");
        lemma_ascii_component(p, "stress-tester"@);
    }
    match system {
        Some(dir) => join_text(p, dir, "stress-tester"),
        None => join_text(p, temporary, "stress-tester"),
    }
}

/// Whether the encoding of a surrogate starts at a place of a Windows name. In
/// such a name it stands for half of a character whose other half is missing.
pub open spec fn surrogate_at(name: Seq<u8>, at: int) -> bool {
    &&& at + 3 <= name.len()
    &&& name[at] == 0xed
    &&& 0xa0 <= name[at + 1] <= 0xbf
    &&& 0x80 <= name[at + 2] <= 0xbf
}

/// `name[from..]` with each surrogate replaced by the replacement character.
pub open spec fn paired(name: Seq<u8>, from: int) -> Seq<u8>
    decreases name.len() - from,
{
    if from >= name.len() {
        seq![]
    } else if surrogate_at(name, from) {
        seq![0xefu8, 0xbf, 0xbd] + paired(name, from + 3)
    } else {
        seq![name[from]] + paired(name, from + 1)
    }
}

/// The bytes of a file name that are shown as text: on Windows one replacement
/// character stands for each surrogate.
pub open spec fn shown_bytes(p: Platform, name: Seq<u8>) -> Seq<u8> {
    if p == Platform::Windows {
        paired(name, 0)
    } else {
        name
    }
}

/// The name under which a program is shown: that of its file.
pub open spec fn shown_name(p: Platform, source: Seq<u8>) -> Seq<char> {
    lossy_form(
        shown_bytes(
            p,
            match file_name_of(p, source) {
                Some(name) => name,
                None => seq![],
            },
        ),
    )
}

fn replace_surrogates(name: &[u8]) -> (res: Vec<u8>)
    ensures
        res@ == paired(name@, 0),
{
    let mut res: Vec<u8> = Vec::new();
    let mut i: usize = 0;
    while i < name.len()
        invariant
            i <= name@.len(),
            res@ + paired(name@, i as int) =~= paired(name@, 0),
        decreases name@.len() - i,
    {
        if name.len() - i >= 3 && name[i] == 0xed && 0xa0 <= name[i + 1] && name[i + 1] <= 0xbf
            && 0x80 <= name[i + 2] && name[i + 2] <= 0xbf {
            res.push(0xef);
            res.push(0xbf);
            res.push(0xbd);
            i += 3;
        } else {
            res.push(name[i]);
            i += 1;
        }
    }
    res
}

/// The name under which a program is shown.
pub fn display_name(p: Platform, source: &[u8]) -> (res: String)
    ensures
        res@ == shown_name(p, source@),
{
    let name: Vec<u8> = match file_name(p, source) {
        Some(name) => name,
        None => Vec::new(),
    };
    assert(file_name_of(p, source@) is None ==> name@ =~= seq![]);
    match p {
        Platform::Windows => lossy(&replace_surrogates(&name)),
        _ => lossy(&name),
    }
}

// ---------------------------------------------------------------------------
// Compiling
// ---------------------------------------------------------------------------

/// How a program is compiled: into which directory, by which command, and how
/// the result is run.
pub struct CompileJob {
    pub dir: Vec<u8>,
    /// The file that tells that `dir` holds a complete build.
    pub marker: Vec<u8>,
    pub compile: Vec<Vec<u8>>,
    pub run: Vec<Vec<u8>>,
    pub stdout_log: Vec<u8>,
    pub stderr_log: Vec<u8>,
}

/// The flags that a program is compiled with.
pub open spec fn effective_flags(l: Language, given: Option<&str>) -> Seq<char> {
    match given {
        Some(flags) => flags@,
        None => flags_of(l),
    }
}

/// Everything that decides where a compiled program is kept.
pub struct BuildInputs {
    pub language: Language,
    pub cache_dir: Seq<u8>,
    pub compiler: Seq<char>,
    pub version: Seq<char>,
    pub flags: Seq<char>,
    pub contents: Seq<u8>,
}

/// The inputs of a build with these options.
pub open spec fn inputs_of(
    l: Language,
    opts: BuildOptions,
    compiler: Seq<char>,
    version: Seq<char>,
    contents: Seq<u8>,
) -> BuildInputs {
    BuildInputs {
        language: l,
        cache_dir: opts.cache_dir@,
        compiler,
        version,
        flags: effective_flags(l, opts.flags),
        contents,
    }
}

/// What the name of the directory is the digest of.
pub open spec fn material_of(i: BuildInputs) -> Seq<u8> {
    key_material(i.language, i.compiler, i.version, i.flags, i.contents)
}

/// The directory that a program is compiled into.
pub open spec fn build_dir(p: Platform, i: BuildInputs) -> Seq<u8> {
    path_in(
        p,
        i.cache_dir,
        encode_utf8(cache_key(i.language, i.compiler, i.version, i.flags, i.contents)),
    )
}

/// The file that tells that the directory holds a complete build.
pub open spec fn marker_of(p: Platform, i: BuildInputs) -> Seq<u8> {
    path_in(p, build_dir(p, i), encode_utf8(".built"@))
}

/// Whether a job is how a source at `source` is compiled from these inputs.
pub open spec fn is_job(
    job: CompileJob,
    p: Platform,
    i: BuildInputs,
    launcher: Option<Seq<char>>,
    source: Seq<u8>,
) -> bool {
    let dir = build_dir(p, i);
    &&& job.dir@ == dir
    &&& job.marker@ == marker_of(p, i)
    &&& job.stdout_log@ == path_in(p, dir, encode_utf8("build.stdout"@))
    &&& job.stderr_log@ == path_in(p, dir, encode_utf8("build.stderr"@))
    &&& blobs(job.compile@) == compile_command(p, i.language, i.compiler, i.flags, source, dir)
    &&& blobs(job.run@) == run_command(p, i.language, launcher->0, class_of(p, source)->0, dir)
}

proof fn lemma_key_component(p: Platform, bytes: Seq<u8>)
    requires
        hex(bytes).len() == 64,
    ensures
        is_component(p, encode_utf8(hex(bytes))),
{
    lemma_hex_len(bytes);
    lemma_ascii_component(p, hex(bytes));
}

/// Works out how a source is compiled. `contents` is what the source holds.
pub fn compile_job(
    p: Platform,
    l: Language,
    opts: &BuildOptions,
    java_found: bool,
    tool: &str,
    version: &str,
    source: &[u8],
    contents: &[u8],
) -> (res: Result<CompileJob, BuildError>)
    ensures
        match res {
            Ok(job) => {
                &&& recipe_error(p, l, *opts.compilers, java_found, source@) is None
                &&& is_job(
                    job,
                    p,
                    inputs_of(l, *opts, tool@, version@, contents@),
                    chosen_launcher(*opts.compilers, java_found),
                    source@,
                )
            },
            Err(e) => recipe_error(p, l, *opts.compilers, java_found, source@) == Some(e),
        },
{
    let flags = match opts.flags {
        Some(flags) => flags,
        None => l.default_flags(),
    };
    let key = cache_hash(l, tool, version, flags, contents);
    proof {
        lemma_key_component(p, sha256(key_material(l, tool@, version@, flags@, contents@)));
        reveal_strlit(".built");
        reveal_strlit("build.stdout");
        reveal_strlit("build.stderr");
        lemma_ascii_component(p, ".built"@);
        lemma_ascii_component(p, "build.stdout"@);
        lemma_ascii_component(p, "build.stderr"@);
    }
    let dir = join_text(p, opts.cache_dir, key.as_str());
    match recipe(p, l, tool, opts.compilers, java_found, flags, source, &dir) {
        Err(e) => Err(e),
        Ok((compile, run)) => {
            let marker = join_text(p, &dir, ".built");
            let stdout_log = join_text(p, &dir, "build.stdout");
            let stderr_log = join_text(p, &dir, "build.stderr");
            Ok(CompileJob { dir, marker, compile, run, stdout_log, stderr_log })
        },
    }
}

impl CompileJob {
    /// How the compiler is run: for two minutes at most by the clock on the
    /// wall, and without any other limit.
    pub fn run_spec(&self) -> (res: RunSpec)
        ensures
            blobs(res.argv@) == blobs(self.compile@),
            res.stdin_file is None,
            res.stdout_file is Some && res.stdout_file->0@ == self.stdout_log@,
            res.stderr_file is Some && res.stderr_file->0@ == self.stderr_log@,
            res.cpu_limit@ == max_nanos(),
            res.wall_limit@ == 120_000_000_000,
            res.memory_limit == u64::MAX,
    {
        RunSpec {
            argv: copy_blobs(&self.compile),
            stdin_file: None,
            stdout_file: Some(bytes_of(&self.stdout_log)),
            stderr_file: Some(bytes_of(&self.stderr_log)),
            cpu_limit: Duration::max(),
            wall_limit: Duration::from_millis(120_000),
            memory_limit: u64::MAX,
        }
    }
}

/// The command that runs an already-built program. It has to be a path: a bare
/// name would be looked for on the search path.
fn prebuilt_argv(absolute: &[u8]) -> (res: Vec<Vec<u8>>)
    ensures
        blobs(res@) == seq![absolute@],
{
    let mut res: Vec<Vec<u8>> = Vec::new();
    push_blob(&mut res, absolute);
    assert(blobs(res@) =~= seq![absolute@]);
    res
}

/// The command that runs a source through its interpreter.
fn interpreted_argv(interpreter: &str, source: &[u8]) -> (res: Vec<Vec<u8>>)
    ensures
        blobs(res@) == seq![encode_utf8(interpreter@), source@],
{
    let mut res: Vec<Vec<u8>> = Vec::new();
    push_blob(&mut res, interpreter.as_bytes());
    push_blob(&mut res, source);
    assert(blobs(res@) =~= seq![encode_utf8(interpreter@), source@]);
    res
}

// ---------------------------------------------------------------------------
// The order of events
// ---------------------------------------------------------------------------

/// Where a build stands, and so what is done next.
#[derive(Debug, Clone, Copy, PartialEq, Eq, Structural)]
pub enum BuildStep {
    /// Look at the source file.
    Inspect,
    /// Find the absolute path of an already-built program.
    Locate,
    /// Find the interpreter.
    Interpret(Language),
    /// Find the compiler, ask for its version, read the source and work out
    /// how it is compiled.
    Prepare(Language),
    /// See whether the marker of a complete build is there.
    Probe(Language),
    /// Create the directory and compile into it.
    Compile(Language),
    /// Delete the compiler's logs and write the marker.
    Mark(Language),
    /// Delete the directory.
    Abandon(BuildError),
    Done { language: Language, cached: bool },
    Failed(BuildError),
}

/// What came of a step.
#[derive(Debug, Clone, Copy, PartialEq, Eq, Structural)]
pub enum BuildEvent {
    Inspected { exists: bool, info: FileInfo },
    Located,
    /// The toolchain and, where there is one, the recipe; or what stood in the
    /// way.
    Prepared(Option<BuildError>),
    Probed(bool),
    Compiled { timed_out: bool, exit: ExitKind },
    Marked,
    Abandoned,
}

/// Whether an event can come of a step.
pub open spec fn answers(step: BuildStep, event: BuildEvent) -> bool {
    match step {
        BuildStep::Inspect => event is Inspected,
        BuildStep::Locate => event is Located,
        BuildStep::Interpret(_) => event is Prepared,
        BuildStep::Prepare(_) => event is Prepared,
        BuildStep::Probe(_) => event is Probed,
        BuildStep::Compile(_) => event is Compiled,
        BuildStep::Mark(_) => event is Marked,
        BuildStep::Abandon(_) => event is Abandoned,
        _ => false,
    }
}

/// The step that follows.
pub open spec fn step_after(
    p: Platform,
    source: Seq<u8>,
    step: BuildStep,
    event: BuildEvent,
) -> BuildStep {
    match (step, event) {
        (BuildStep::Inspect, BuildEvent::Inspected { exists, info }) => if !exists {
            BuildStep::Failed(BuildError::FileNotFound)
        } else {
            match language_of(p, source, info) {
                None => BuildStep::Failed(BuildError::UnknownLanguage),
                Some(l) => if l == Language::Binary {
                    BuildStep::Locate
                } else if is_interpreted(l) {
                    BuildStep::Interpret(l)
                } else {
                    BuildStep::Prepare(l)
                },
            }
        },
        (BuildStep::Locate, _) => BuildStep::Done { language: Language::Binary, cached: false },
        (BuildStep::Interpret(l), BuildEvent::Prepared(problem)) => match problem {
            Some(e) => BuildStep::Failed(e),
            None => BuildStep::Done { language: l, cached: false },
        },
        (BuildStep::Prepare(l), BuildEvent::Prepared(problem)) => match problem {
            Some(e) => BuildStep::Failed(e),
            None => BuildStep::Probe(l),
        },
        (BuildStep::Probe(l), BuildEvent::Probed(there)) => if there {
            BuildStep::Done { language: l, cached: true }
        } else {
            BuildStep::Compile(l)
        },
        (BuildStep::Compile(l), BuildEvent::Compiled { timed_out, exit }) => if timed_out {
            BuildStep::Abandon(BuildError::TimedOut)
        } else if exit != ExitKind::Code(0) {
            BuildStep::Abandon(BuildError::Failed(exit))
        } else {
            BuildStep::Mark(l)
        },
        (BuildStep::Mark(l), _) => BuildStep::Done { language: l, cached: false },
        (BuildStep::Abandon(e), _) => BuildStep::Failed(e),
        _ => step,
    }
}

impl BuildStep {
    /// The step that follows, for a source at `source`.
    pub fn next(self, p: Platform, source: &[u8], event: BuildEvent) -> (res: Self)
        requires
            answers(self, event),
        ensures
            res == step_after(p, source@, self, event),
    {
        match (self, event) {
            (BuildStep::Inspect, BuildEvent::Inspected { exists, info }) => if !exists {
                BuildStep::Failed(BuildError::FileNotFound)
            } else {
                match detect_language(p, source, info) {
                    Err(e) => BuildStep::Failed(e),
                    Ok(l) => if l == Language::Binary {
                        BuildStep::Locate
                    } else if l.interpreted() {
                        BuildStep::Interpret(l)
                    } else {
                        BuildStep::Prepare(l)
                    },
                }
            },
            (BuildStep::Locate, _) => BuildStep::Done { language: Language::Binary, cached: false },
            (BuildStep::Interpret(l), BuildEvent::Prepared(problem)) => match problem {
                Some(e) => BuildStep::Failed(e),
                None => BuildStep::Done { language: l, cached: false },
            },
            (BuildStep::Prepare(l), BuildEvent::Prepared(problem)) => match problem {
                Some(e) => BuildStep::Failed(e),
                None => BuildStep::Probe(l),
            },
            (BuildStep::Probe(l), BuildEvent::Probed(there)) => if there {
                BuildStep::Done { language: l, cached: true }
            } else {
                BuildStep::Compile(l)
            },
            (BuildStep::Compile(l), BuildEvent::Compiled { timed_out, exit }) => if timed_out {
                BuildStep::Abandon(BuildError::TimedOut)
            } else if exit != ExitKind::Code(0) {
                BuildStep::Abandon(BuildError::Failed(exit))
            } else {
                BuildStep::Mark(l)
            },
            (BuildStep::Mark(l), _) => BuildStep::Done { language: l, cached: false },
            (BuildStep::Abandon(e), _) => BuildStep::Failed(e),
            _ => self,
        }
    }
}

/// Where a build stands after a series of events, if each came of the step
/// that was due.
pub open spec fn step_reached(p: Platform, source: Seq<u8>, events: Seq<BuildEvent>) -> Option<
    BuildStep,
>
    decreases events.len(),
{
    if events.len() == 0 {
        Some(BuildStep::Inspect)
    } else {
        match step_reached(p, source, events.drop_last()) {
            None => None,
            Some(step) => if answers(step, events.last()) {
                Some(step_after(p, source, step, events.last()))
            } else {
                None
            },
        }
    }
}

/// A compiler's run that succeeded.
pub open spec fn compiled_well(event: BuildEvent) -> bool {
    event == (BuildEvent::Compiled { timed_out: false, exit: ExitKind::Code(0) })
}

/// Only a compiler that ran to its end and reported success has its result
/// marked as complete.
pub proof fn only_complete_builds_are_marked(
    p: Platform,
    source: Seq<u8>,
    events: Seq<BuildEvent>,
    l: Language,
)
    requires
        step_reached(p, source, events) == Some(BuildStep::Mark(l)),
    ensures
        events.len() > 0,
        compiled_well(events.last()),
{
}

/// A result is taken from the cache only where the marker was there.
pub proof fn cached_results_were_marked(
    p: Platform,
    source: Seq<u8>,
    events: Seq<BuildEvent>,
    l: Language,
)
    requires
        step_reached(p, source, events) == Some(BuildStep::Done { language: l, cached: true }),
    ensures
        events.len() > 0,
        events.last() == BuildEvent::Probed(true),
{
}

/// A program that was not cached, prebuilt or interpreted is there only after
/// the compiler succeeded and the result was marked.
pub proof fn fresh_results_were_compiled(
    p: Platform,
    source: Seq<u8>,
    events: Seq<BuildEvent>,
    l: Language,
)
    requires
        step_reached(p, source, events) == Some(BuildStep::Done { language: l, cached: false }),
        l != Language::Binary,
        !is_interpreted(l),
    ensures
        events.len() >= 2,
        events.last() == BuildEvent::Marked,
        compiled_well(events[events.len() - 2]),
{
    let before = events.drop_last();
    let step = step_reached(p, source, before)->0;
    if step is Interpret {
        lemma_interpreted(p, source, before, step->Interpret_0);
    } else {
        only_complete_builds_are_marked(p, source, before, l);
    }
}

proof fn lemma_interpreted(p: Platform, source: Seq<u8>, events: Seq<BuildEvent>, l: Language)
    requires
        step_reached(p, source, events) == Some(BuildStep::Interpret(l)),
    ensures
        is_interpreted(l),
{
}

/// A compilation that failed leaves nothing behind: its directory is deleted
/// before the build ends.
pub proof fn failed_compilations_are_abandoned(
    p: Platform,
    source: Seq<u8>,
    events: Seq<BuildEvent>,
)
    requires
        step_reached(p, source, events) is Some,
        events.len() > 0,
        events.last() is Compiled,
        !compiled_well(events.last()),
    ensures
        step_reached(p, source, events)->0 is Abandon,
{
}

/// Whether the answers to "is the marker there?" on a build in `dir` are those of
/// a cache in which these directories hold a marker.
pub open spec fn truthful(events: Seq<BuildEvent>, cache: Set<Seq<u8>>, dir: Seq<u8>) -> bool {
    forall|k: int|
        0 <= k < events.len() && (#[trigger] events[k]) is Probed ==> events[k] == (
        BuildEvent::Probed(cache.contains(dir)))
}

/// The directories of the cache that hold a marker after a build in `dir`.
pub open spec fn cache_after(
    cache: Set<Seq<u8>>,
    dir: Seq<u8>,
    events: Seq<BuildEvent>,
) -> Set<Seq<u8>> {
    if exists|k: int| 0 <= k < events.len() && #[trigger] events[k] is Marked {
        cache.insert(dir)
    } else {
        cache
    }
}

/// A program that was compiled leaves a marker in its directory.
proof fn lemma_built_is_marked(
    p: Platform,
    source: Seq<u8>,
    events: Seq<BuildEvent>,
    l: Language,
    cached: bool,
    cache: Set<Seq<u8>>,
    dir: Seq<u8>,
)
    requires
        step_reached(p, source, events) == Some(BuildStep::Done { language: l, cached }),
        l != Language::Binary,
        !is_interpreted(l),
        truthful(events, cache, dir),
    ensures
        cache_after(cache, dir, events).contains(dir),
{
    let last = events.len() - 1;
    if cached {
        cached_results_were_marked(p, source, events, l);
        assert(events[last] == BuildEvent::Probed(true));
    } else {
        fresh_results_were_compiled(p, source, events, l);
        assert(events[last] is Marked);
    }
}

/// What the first two events of a build of a compiled language are.
proof fn lemma_opening(p: Platform, source: Seq<u8>, events: Seq<BuildEvent>)
    requires
        step_reached(p, source, events) is Some,
    ensures
        events.len() >= 1 ==> step_reached(p, source, events.take(1)) == Some(
            step_after(p, source, BuildStep::Inspect, events[0]),
        ),
        events.len() >= 2 ==> step_reached(p, source, events.take(2)) is Some,
        events.len() >= 3 ==> step_reached(p, source, events.take(3)) is Some,
    decreases events.len(),
{
    if events.len() == 1 {
        assert(events.take(1) =~= events);
        assert(events.drop_last() =~= Seq::<BuildEvent>::empty());
    }
    if events.len() > 1 {
        let before = events.drop_last();
        lemma_opening(p, source, before);
        assert(before.take(1) =~= events.take(1));
        if events.len() == 2 {
            assert(events.take(2) =~= events);
        } else {
            assert(before.take(2) =~= events.take(2));
            if events.len() == 3 {
                assert(events.take(3) =~= events);
            } else {
                assert(before.take(3) =~= events.take(3));
            }
        }
    }
}

/// A second build of an unchanged program comes from the cache, and runs the
/// same command. The first build ended well; since then the source, the
/// options, the compiler, its version and the cache are the same, so that what
/// is inspected and prepared is the same too, and the cache holds what the
/// first build left. Then the second build asks for the marker, finds it, and is
/// done without any compiler run.
pub proof fn unchanged_programs_come_from_the_cache(
    p: Platform,
    source: Seq<u8>,
    i: BuildInputs,
    launcher: Option<Seq<char>>,
    first_job: CompileJob,
    first: Seq<BuildEvent>,
    cached: bool,
    cache: Set<Seq<u8>>,
    second_job: CompileJob,
    second: Seq<BuildEvent>,
)
    requires
        i.language != Language::Binary,
        !is_interpreted(i.language),
        is_job(first_job, p, i, launcher, source),
        is_job(second_job, p, i, launcher, source),
        step_reached(p, source, first) == Some(BuildStep::Done { language: i.language, cached }),
        truthful(first, cache, first_job.dir@),
        step_reached(p, source, second) is Some,
        second.len() >= 3,
        second.take(2) == first.take(2),
        truthful(second, cache_after(cache, first_job.dir@, first), second_job.dir@),
    ensures
        second_job.dir@ == first_job.dir@,
        second_job.marker@ == first_job.marker@,
        blobs(second_job.run@) == blobs(first_job.run@),
        second == first.take(2).push(BuildEvent::Probed(true)),
        step_reached(p, source, second) == Some(
            BuildStep::Done { language: i.language, cached: true },
        ),
        forall|k: int| 0 <= k < second.len() ==> !(#[trigger] second[k] is Compiled),
{
    lemma_built_is_marked(p, source, first, i.language, cached, cache, first_job.dir@);
    lemma_compiled_course(p, source, first, i.language, cached);
    lemma_opening(p, source, second);
    let two = second.take(2);
    let three = second.take(3);
    assert(three.drop_last() =~= two);
    assert(step_reached(p, source, two) == Some(BuildStep::Probe(i.language)));
    assert(three.last() == second[2]);
    assert(second[2] is Probed);
    assert(second[2] == BuildEvent::Probed(true));
    assert(step_reached(p, source, three) == Some(
        BuildStep::Done { language: i.language, cached: true },
    ));
    lemma_nothing_follows(p, source, second, 3);
    assert(second =~= three);
    assert(second =~= first.take(2).push(BuildEvent::Probed(true)));
    assert(second[0] == first.take(2)[0] && second[1] == first.take(2)[1]);
}

/// A compiled program was inspected and prepared before anything else.
proof fn lemma_compiled_course(
    p: Platform,
    source: Seq<u8>,
    events: Seq<BuildEvent>,
    l: Language,
    cached: bool,
)
    requires
        step_reached(p, source, events) == Some(BuildStep::Done { language: l, cached }),
        l != Language::Binary,
        !is_interpreted(l),
    ensures
        events.len() >= 3,
        events[0] is Inspected,
        events[1] == BuildEvent::Prepared(None),
        step_reached(p, source, events.take(2)) == Some(BuildStep::Probe(l)),
{
    lemma_course(p, source, events);
}

/// How every build comes to its steps on a compiled language.
proof fn lemma_course(p: Platform, source: Seq<u8>, events: Seq<BuildEvent>)
    requires
        step_reached(p, source, events) is Some,
    ensures
        match step_reached(p, source, events)->0 {
            BuildStep::Inspect => events.len() == 0,
            BuildStep::Interpret(l) => is_interpreted(l),
            BuildStep::Prepare(l) => events.len() == 1 && events[0] is Inspected,
            BuildStep::Probe(l) => events.len() == 2 && prepared(p, source, events, l),
            BuildStep::Compile(l) => events.len() >= 3 && prepared(p, source, events, l),
            BuildStep::Mark(l) => events.len() >= 3 && prepared(p, source, events, l),
            BuildStep::Done { language, .. } => language == Language::Binary || is_interpreted(
                language,
            ) || (events.len() >= 3 && prepared(p, source, events, language)),
            _ => true,
        },
    decreases events.len(),
{
    if events.len() > 0 {
        let before = events.drop_last();
        lemma_course(p, source, before);
        if events.len() == 2 {
            assert(events.take(2) =~= events);
        }
        if events.len() >= 3 {
            assert(events.take(2) =~= before.take(2));
        }
    }
}

/// A build of a compiled language that was inspected and prepared.
spec fn prepared(p: Platform, source: Seq<u8>, events: Seq<BuildEvent>, l: Language) -> bool {
    &&& events[0] is Inspected
    &&& events[1] == BuildEvent::Prepared(None)
    &&& step_reached(p, source, events.take(2)) == Some(BuildStep::Probe(l))
}

/// Nothing follows once a build is done.
proof fn lemma_nothing_follows(p: Platform, source: Seq<u8>, events: Seq<BuildEvent>, n: int)
    requires
        step_reached(p, source, events) is Some,
        0 <= n <= events.len(),
        step_reached(p, source, events.take(n)) is Some,
        step_reached(p, source, events.take(n))->0 is Done,
    ensures
        events.len() == n,
    decreases events.len(),
{
    if n < events.len() {
        let before = events.drop_last();
        if n < before.len() {
            assert(before.take(n) =~= events.take(n));
            lemma_nothing_follows(p, source, before, n);
        } else {
            assert(events.take(n) =~= before);
        }
    }
}

/// Whether a build's inputs are free of NUL.
pub open spec fn inputs_ok(i: BuildInputs) -> bool {
    no_nul(i.compiler) && no_nul(i.version) && no_nul(i.flags)
}

/// The bytes of a cache key.
spec fn key_of(i: BuildInputs) -> Seq<u8> {
    encode_utf8(hex(sha256(material_of(i))))
}

/// A directory of the cache tells the digest it is named after.
proof fn lemma_dirs(p: Platform, a: BuildInputs, b: BuildInputs)
    requires
        a.cache_dir == b.cache_dir,
        build_dir(p, a) == build_dir(p, b),
    ensures
        hex(sha256(material_of(a))) == hex(sha256(material_of(b))),
{
    let front = front_of(p, a.cache_dir);
    assert(key_of(a) =~= build_dir(p, a).skip(front.len() as int));
    assert(key_of(b) =~= build_dir(p, b).skip(front.len() as int));
    encode_utf8_decode_utf8(hex(sha256(material_of(a))));
    encode_utf8_decode_utf8(hex(sha256(material_of(b))));
}

/// Two programs with different inputs are kept in different directories, unless
/// SHA-256 gives their different materials the same digest.
pub proof fn changed_programs_have_a_directory_of_their_own(
    p: Platform,
    a: BuildInputs,
    b: BuildInputs,
)
    requires
        a.cache_dir == b.cache_dir,
        a != b,
        inputs_ok(a),
        inputs_ok(b),
    ensures
        material_of(a) != material_of(b),
        build_dir(p, a) == build_dir(p, b) ==> sha256(material_of(a)) == sha256(material_of(b)),
{
    if material_of(a) == material_of(b) {
        cache_keys_depend_on_all_inputs(
            a.language,
            a.compiler,
            a.version,
            a.flags,
            a.contents,
            b.language,
            b.compiler,
            b.version,
            b.flags,
            b.contents,
        );
    }
    if build_dir(p, a) == build_dir(p, b) {
        lemma_dirs(p, a, b);
        different_digests_are_written_differently(
            sha256(material_of(a)),
            sha256(material_of(b)),
        );
    }
}

/// The directories of programs that were built.
pub open spec fn dirs_of(p: Platform, built: Set<BuildInputs>) -> Set<Seq<u8>> {
    Set::new(
        |d: Seq<u8>| exists|b: BuildInputs| #[trigger] built.contains(b) && d == build_dir(p, b),
    )
}

/// A program whose inputs were never built before does not come from the cache:
/// where the cache holds builds of other inputs only, and SHA-256 gives no
/// two of these materials the same digest, a build that ends well ends with the
/// compiler's result.
pub proof fn new_programs_are_compiled(
    p: Platform,
    source: Seq<u8>,
    i: BuildInputs,
    built: Set<BuildInputs>,
    events: Seq<BuildEvent>,
    cached: bool,
)
    requires
        i.language != Language::Binary,
        !is_interpreted(i.language),
        inputs_ok(i),
        !built.contains(i),
        forall|b: BuildInputs| #[trigger]
            built.contains(b) ==> inputs_ok(b) && b.cache_dir == i.cache_dir && (sha256(
                material_of(b),
            ) == sha256(material_of(i)) ==> material_of(b) == material_of(i)),
        truthful(events, dirs_of(p, built), build_dir(p, i)),
        step_reached(p, source, events) == Some(BuildStep::Done { language: i.language, cached }),
    ensures
        !cached,
        compiled_well(events[events.len() - 2]),
{
    if cached {
        cached_results_were_marked(p, source, events, i.language);
        assert(events[events.len() - 1] == BuildEvent::Probed(true));
        let b = choose|b: BuildInputs| #[trigger]
            built.contains(b) && build_dir(p, i) == build_dir(p, b);
        changed_programs_have_a_directory_of_their_own(p, i, b);
    }
    fresh_results_were_compiled(p, source, events, i.language);
}

/// How many steps a build takes at most from here.
pub open spec fn steps_left(step: BuildStep) -> nat {
    match step {
        BuildStep::Inspect => 5,
        BuildStep::Prepare(_) => 4,
        BuildStep::Probe(_) => 3,
        BuildStep::Compile(_) => 2,
        BuildStep::Done { .. } => 0,
        BuildStep::Failed(_) => 0,
        _ => 1,
    }
}

/// Every build ends, after five steps at most.
pub proof fn builds_end(p: Platform, source: Seq<u8>, events: Seq<BuildEvent>)
    requires
        step_reached(p, source, events) is Some,
    ensures
        events.len() + steps_left(step_reached(p, source, events)->0) <= 5,
    decreases events.len(),
{
    if events.len() > 0 {
        builds_end(p, source, events.drop_last());
    }
}

// ---------------------------------------------------------------------------
// A build under way
// ---------------------------------------------------------------------------

/// A build under way: the step it stands at, and what its result will be made
/// of.
pub struct Build<'a> {
    pub platform: Platform,
    pub source: &'a [u8],
    pub opts: &'a BuildOptions<'a>,
    pub step: BuildStep,
    /// The compiler, once it was found.
    pub tool: Option<String>,
    /// How the program is compiled, once that was worked out.
    pub job: Option<CompileJob>,
    /// The command that runs the program, once it is known.
    pub argv: Vec<Vec<u8>>,
    pub events: Ghost<Seq<BuildEvent>>,
}

impl<'a> Build<'a> {
    /// Whether a program of a compiled language has its job, and is run as the
    /// job says.
    pub open spec fn compiles(self, l: Language) -> bool {
        &&& l != Language::Binary
        &&& !is_interpreted(l)
        &&& self.job is Some
        &&& blobs(self.argv@) == blobs(self.job->0.run@)
    }

    /// The invariant of a build: its step is the one that its events lead to, and
    /// from the first look for a marker on it has a job whose command it will
    /// run.
    pub open spec fn ok(self) -> bool {
        &&& step_reached(self.platform, self.source@, self.events@) == Some(self.step)
        &&& match self.step {
            BuildStep::Interpret(l) => is_interpreted(l),
            BuildStep::Prepare(l) => l != Language::Binary && !is_interpreted(l),
            BuildStep::Probe(l) => self.compiles(l),
            BuildStep::Compile(l) => self.compiles(l),
            BuildStep::Mark(l) => self.compiles(l),
            BuildStep::Abandon(_) => self.job is Some,
            BuildStep::Done { language, .. } => language == Language::Binary || is_interpreted(
                language,
            ) || self.compiles(language),
            _ => true,
        }
    }

    /// Whether two states are of the build of one source with the same options.
    pub open spec fn same_build(self, other: Self) -> bool {
        &&& self.platform == other.platform
        &&& self.source == other.source
        &&& self.opts == other.opts
    }

    /// The build of a source, of which nothing is known yet.
    pub fn start(platform: Platform, source: &'a [u8], opts: &'a BuildOptions<'a>) -> (res: Self)
        ensures
            res.ok(),
            res.platform == platform,
            res.source == source,
            res.opts == opts,
            res.step == BuildStep::Inspect,
            res.events@ == Seq::<BuildEvent>::empty(),
    {
        Build {
            platform,
            source,
            opts,
            step: BuildStep::Inspect,
            tool: None,
            job: None,
            argv: Vec::new(),
            events: Ghost(Seq::empty()),
        }
    }

    fn take_step(&mut self, event: BuildEvent)
        requires
            step_reached(old(self).platform, old(self).source@, old(self).events@) == Some(
                old(self).step,
            ),
            answers(old(self).step, event),
        ensures
            final(self).same_build(*old(self)),
            final(self).step == step_after(
                old(self).platform,
                old(self).source@,
                old(self).step,
                event,
            ),
            final(self).events@ == old(self).events@.push(event),
            step_reached(final(self).platform, final(self).source@, final(self).events@) == Some(
                final(self).step,
            ),
            final(self).tool == old(self).tool,
            final(self).job == old(self).job,
            final(self).argv == old(self).argv,
    {
        let ghost before = self.events@;
        self.step = self.step.next(self.platform, self.source, event);
        proof {
            assert(before.push(event).drop_last() =~= before);
            assert(before.push(event).last() == event);
        }
        self.events = Ghost(before.push(event));
    }

    /// What came of a step that neither finds a program nor works out how one is
    /// compiled.
    pub fn happened(&mut self, event: BuildEvent)
        requires
            old(self).ok(),
            answers(old(self).step, event),
            !(event is Located || event is Prepared),
        ensures
            final(self).ok(),
            final(self).same_build(*old(self)),
            final(self).step == step_after(
                old(self).platform,
                old(self).source@,
                old(self).step,
                event,
            ),
            final(self).events@ == old(self).events@.push(event),
            final(self).tool == old(self).tool,
            final(self).job == old(self).job,
            final(self).argv == old(self).argv,
    {
        self.take_step(event);
    }

    /// An already-built program was found at an absolute path: that is what is
    /// run.
    pub fn located(&mut self, absolute: &[u8])
        requires
            old(self).ok(),
            old(self).step == BuildStep::Locate,
        ensures
            final(self).ok(),
            final(self).same_build(*old(self)),
            final(self).step == (BuildStep::Done { language: Language::Binary, cached: false }),
            final(self).events@ == old(self).events@.push(BuildEvent::Located),
            blobs(final(self).argv@) == seq![absolute@],
    {
        self.argv = prebuilt_argv(absolute);
        self.take_step(BuildEvent::Located);
    }

    /// An interpreter was looked for. `variable` and `found` are as for
    /// `resolve_compiler`. Where there is one, it runs the source.
    pub fn interpreted(&mut self, variable: &Option<String>, found: &[bool])
        requires
            old(self).ok(),
            old(self).step is Interpret,
        ensures
            final(self).ok(),
            final(self).same_build(*old(self)),
            ({
                let l = old(self).step->Interpret_0;
                match chosen_tool(l, *old(self).opts.compilers, text_if_any(*variable), found@) {
                    None => {
                        let e = BuildError::NoToolchain(l);
                        &&& final(self).step == BuildStep::Failed(e)
                        &&& final(self).events@ == old(self).events@.push(
                            BuildEvent::Prepared(Some(e)),
                        )
                    },
                    Some(tool) => {
                        &&& final(self).step == (BuildStep::Done { language: l, cached: false })
                        &&& final(self).events@ == old(self).events@.push(
                            BuildEvent::Prepared(None),
                        )
                        &&& blobs(final(self).argv@) == seq![
                            encode_utf8(tool),
                            old(self).source@,
                        ]
                    },
                }
            }),
    {
        if let BuildStep::Interpret(l) = self.step {
            match resolve_compiler(l, self.opts.compilers, variable, found) {
                Err(e) => self.take_step(BuildEvent::Prepared(Some(e))),
                Ok(tool) => {
                    self.argv = interpreted_argv(tool.as_str(), self.source);
                    self.take_step(BuildEvent::Prepared(None));
                },
            }
        }
    }

    /// A compiler was looked for. `variable` and `found` are as for
    /// `resolve_compiler`. Where there is none the build has failed; otherwise
    /// the compiler is known from here on.
    pub fn sought(&mut self, variable: &Option<String>, found: &[bool])
        requires
            old(self).ok(),
            old(self).step is Prepare,
        ensures
            final(self).ok(),
            final(self).same_build(*old(self)),
            ({
                let l = old(self).step->Prepare_0;
                match chosen_tool(l, *old(self).opts.compilers, text_if_any(*variable), found@) {
                    None => {
                        let e = BuildError::NoToolchain(l);
                        &&& final(self).step == BuildStep::Failed(e)
                        &&& final(self).events@ == old(self).events@.push(
                            BuildEvent::Prepared(Some(e)),
                        )
                    },
                    Some(tool) => {
                        &&& final(self).step == old(self).step
                        &&& final(self).events == old(self).events
                        &&& final(self).tool is Some && final(self).tool->0@ == tool
                    },
                }
            }),
    {
        if let BuildStep::Prepare(l) = self.step {
            match resolve_compiler(l, self.opts.compilers, variable, found) {
                Err(e) => self.take_step(BuildEvent::Prepared(Some(e))),
                Ok(tool) => {
                    self.tool = Some(tool);
                },
            }
        }
    }

    /// The compiler was asked for its version and the source was read: how the
    /// program is compiled and run follows. `version` is whether the compiler
    /// answered well, and what it printed.
    pub fn prepared(&mut self, java_found: bool, version: (bool, &[u8]), contents: &[u8])
        requires
            old(self).ok(),
            old(self).step is Prepare,
            old(self).tool is Some,
        ensures
            final(self).ok(),
            final(self).same_build(*old(self)),
            ({
                let b = *old(self);
                let l = b.step->Prepare_0;
                match recipe_error(b.platform, l, *b.opts.compilers, java_found, b.source@) {
                    Some(e) => {
                        &&& final(self).step == BuildStep::Failed(e)
                        &&& final(self).events@ == b.events@.push(BuildEvent::Prepared(Some(e)))
                    },
                    None => {
                        &&& final(self).step == BuildStep::Probe(l)
                        &&& final(self).events@ == b.events@.push(BuildEvent::Prepared(None))
                        &&& is_job(
                            final(self).job->0,
                            b.platform,
                            inputs_of(
                                l,
                                *b.opts,
                                b.tool->0@,
                                identity_of(version.0, version.1@),
                                contents@,
                            ),
                            chosen_launcher(*b.opts.compilers, java_found),
                            b.source@,
                        )
                    },
                }
            }),
    {
        if let BuildStep::Prepare(l) = self.step {
            let identity = compiler_identity(version.0, version.1);
            let job = match &self.tool {
                Some(tool) => compile_job(
                    self.platform,
                    l,
                    self.opts,
                    java_found,
                    tool.as_str(),
                    identity.as_str(),
                    self.source,
                    contents,
                ),
                None => Err(BuildError::NoToolchain(l)),
            };
            match job {
                Err(e) => self.take_step(BuildEvent::Prepared(Some(e))),
                Ok(job) => {
                    self.argv = copy_blobs(&job.run);
                    self.job = Some(job);
                    self.take_step(BuildEvent::Prepared(None));
                },
            }
        }
    }

    /// The result of a build that is over: the program under the name of its
    /// source's file, run as was found out on the way, or what went wrong. A
    /// compiled program is run as its job says, whether it was in the cache or
    /// not.
    pub fn result(&self) -> (res: Option<Result<BuildResult, BuildError>>)
        requires
            self.ok(),
        ensures
            match self.step {
                BuildStep::Done { language, cached } => {
                    &&& res matches Some(Ok(r))
                    &&& r.language == language
                    &&& r.cached == cached
                    &&& blobs(r.program.argv@) == blobs(self.argv@)
                    &&& language == Language::Binary || is_interpreted(language) || (self.job is Some
                        && blobs(r.program.argv@) == blobs(self.job->0.run@))
                    &&& r.program.display@ == shown_name(self.platform, self.source@)
                },
                BuildStep::Failed(e) => res == Some(Err::<BuildResult, BuildError>(e)),
                _ => res is None,
            },
    {
        match self.step {
            BuildStep::Done { language, cached } => {
                let display = display_name(self.platform, self.source);
                let program = Program { argv: copy_blobs(&self.argv), display };
                Some(Ok(BuildResult { program, language, cached }))
            },
            BuildStep::Failed(e) => Some(Err(e)),
            _ => None,
        }
    }
}

// ---------------------------------------------------------------------------
// What is said of a failure
// ---------------------------------------------------------------------------

/// How a compiler's end is described.
pub open spec fn exit_text(exit: ExitKind) -> Seq<char> {
    match exit {
        ExitKind::Code(c) => "exit code "@ + int_text(c as int),
        ExitKind::Signal(s) => "killed by signal "@ + int_text(s as int),
    }
}

/// What the user is told. `shown` is the path of the source, `display` the name
/// of its file and `log` what the compiler wrote to its standard error.
pub open spec fn error_text(
    e: BuildError,
    shown: Seq<char>,
    display: Seq<char>,
    log: Seq<char>,
) -> Seq<char> {
    match e {
        BuildError::FileNotFound => "file not found: "@ + shown,
        BuildError::UnknownLanguage => "cannot detect language of "@ + shown
            + " (supported: .c .cpp .cc .cxx .py .rs .java .js .go, or an already-executable file)"@,
        BuildError::NoToolchain(l) => match l {
            Language::C => "no C compiler found; install one or pass --cc"@,
            Language::Cpp => "no C++ compiler found; install one or pass --cxx"@,
            Language::Rust => "rustc not found; install Rust or pass --rustc"@,
            Language::Python => "Python interpreter not found; pass --python"@,
            Language::Java => "javac not found; install a JDK or pass --javac"@,
            Language::JavaScript => "node not found; install Node.js or pass --node"@,
            Language::Go => "go not found; install Go or pass --go"@,
            Language::Binary => "internal error: a binary needs no toolchain"@,
        },
        BuildError::NoLauncher => "java not found; install a JRE or pass --java"@,
        BuildError::NoClassName => shown + " has no file stem to use as a class name"@,
        BuildError::NoCompileStep(l) => "internal error: "@ + language_name(l)
            + " has no compile step"@,
        BuildError::TimedOut => "compilation of "@ + display + " timed out"@,
        BuildError::Failed(exit) => "compilation of "@ + display + " failed ("@ + exit_text(exit)
            + "):\n"@ + head(log, 4000),
    }
}

impl BuildError {
    /// What the user is told.
    pub fn message(self, shown: &str, display: &str, log: &str) -> (res: String)
        ensures
            res@ == error_text(self, shown@, display@, log@),
    {
        let mut res = String::new();
        match self {
            BuildError::FileNotFound => {
                res.append("file not found: ");
                res.append(shown);
            },
            BuildError::UnknownLanguage => {
                res.append("cannot detect language of ");
                res.append(shown);
                res.append(
                    " (supported: .c .cpp .cc .cxx .py .rs .java .js .go, or an already-executable file)",
                );
            },
            BuildError::NoToolchain(l) => {
                res.append(
                    match l {
                        Language::C => "no C compiler found; install one or pass --cc",
                        Language::Cpp => "no C++ compiler found; install one or pass --cxx",
                        Language::Rust => "rustc not found; install Rust or pass --rustc",
                        Language::Python => "Python interpreter not found; pass --python",
                        Language::Java => "javac not found; install a JDK or pass --javac",
                        Language::JavaScript => "node not found; install Node.js or pass --node",
                        Language::Go => "go not found; install Go or pass --go",
                        Language::Binary => "internal error: a binary needs no toolchain",
                    },
                );
            },
            BuildError::NoLauncher => res.append("java not found; install a JRE or pass --java"),
            BuildError::NoClassName => {
                res.append(shown);
                res.append(" has no file stem to use as a class name");
            },
            BuildError::NoCompileStep(l) => {
                res.append("internal error: ");
                res.append(l.name());
                res.append(" has no compile step");
            },
            BuildError::TimedOut => {
                res.append("compilation of ");
                res.append(display);
                res.append(" timed out");
            },
            BuildError::Failed(exit) => {
                res.append("compilation of ");
                res.append(display);
                res.append(" failed (");
                match exit {
                    ExitKind::Code(c) => {
                        res.append("exit code ");
                        push_int(&mut res, c as i64);
                    },
                    ExitKind::Signal(s) => {
                        res.append("killed by signal ");
                        push_int(&mut res, s as i64);
                    },
                }
                res.append("):\n");
                let log = truncate_head(log, 4000);
                res.append(log.as_str());
            },
        }
        assert(res@ =~= error_text(self, shown@, display@, log@));
        res
    }
}

} // verus!
