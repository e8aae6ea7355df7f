//! File paths as the bytes the operating system encodes them in.
//!
//! A Windows path can start with a prefix: a drive (`C:`), a share
//! (`\\server\share`), a device (`\\.\COM1`) or, in a verbatim path, whatever
//! follows `\\?\`. No prefix belongs to the name of a file, and behind a verbatim
//! one only the backslash separates.

use vstd::prelude::*;

verus! {

/// What the rules of paths, programs and measurements depend on.
#[derive(Debug, Clone, Copy, PartialEq, Eq, Structural)]
pub enum Platform {
    Linux,
    /// A Unix other than Linux.
    Unix,
    Windows,
}

/// Whether a byte separates the components of a path.
pub open spec fn is_separator(p: Platform, b: u8) -> bool {
    b == '/' as u8 || (p == Platform::Windows && b == '\\' as u8)
}

/// The separator that is put between components.
pub open spec fn separator(p: Platform) -> u8 {
    if p == Platform::Windows {
        '\\' as u8
    } else {
        '/' as u8
    }
}

/// Whether a drive, such as `C:`, stands at a place of a path.
pub open spec fn drive_at(path: Seq<u8>, at: nat) -> bool {
    &&& at + 2 <= path.len()
    &&& 'A' as u8 <= path[at as int] <= 'Z' as u8 || 'a' as u8 <= path[at as int] <= 'z' as u8
    &&& path[at as int + 1] == ':' as u8
}

/// What a path can start with in front of its components.
#[derive(Debug, Clone, Copy, PartialEq, Eq, Structural)]
pub enum PrefixKind {
    Absent,
    /// A drive: `C:`.
    Drive,
    /// A share or a device: `\\server\share`, `\\.\COM1`.
    Named,
    /// What is to be taken literally: `\\?\C:`, `\\?\UNC\server\share`, `\\?\name`.
    Verbatim,
}

/// Whether a path is a verbatim one. A slash would make it an ordinary one.
pub open spec fn is_verbatim(p: Platform, path: Seq<u8>) -> bool {
    &&& p == Platform::Windows
    &&& path.len() >= 4
    &&& path[0] == '\\' as u8
    &&& path[1] == '\\' as u8
    &&& path[2] == '?' as u8
    &&& path[3] == '\\' as u8
}

/// Whether a byte separates the components of a path that is verbatim or not.
pub open spec fn splits(p: Platform, verbatim: bool, b: u8) -> bool {
    if verbatim {
        b == '\\' as u8
    } else {
        is_separator(p, b)
    }
}

/// Where the component that starts at `from` ends.
pub open spec fn component_end(p: Platform, verbatim: bool, path: Seq<u8>, from: nat) -> nat
    decreases path.len() - from,
{
    if from >= path.len() || splits(p, verbatim, path[from as int]) {
        from
    } else {
        component_end(p, verbatim, path, from + 1)
    }
}

/// Where what follows a component starts that ends at `end`.
pub open spec fn behind(path: Seq<u8>, end: nat) -> nat {
    if end < path.len() {
        end + 1
    } else {
        path.len()
    }
}

/// The end of the two components, a server and its share, that start at `from`.
/// There is no share where the second one is empty.
pub open spec fn share_end(p: Platform, verbatim: bool, path: Seq<u8>, from: nat) -> Option<nat> {
    let second = behind(path, component_end(p, verbatim, path, from));
    let end = component_end(p, verbatim, path, second);
    if end > second {
        Some(end)
    } else {
        None
    }
}

/// Whether `UNC` and a separator follow the start of a verbatim path.
pub open spec fn has_unc(p: Platform, path: Seq<u8>) -> bool {
    &&& path.len() >= 8
    &&& path[4] == 'U' as u8
    &&& path[5] == 'N' as u8
    &&& path[6] == 'C' as u8
    &&& is_separator(p, path[7])
}

/// How long the prefix of a verbatim path is.
pub open spec fn verbatim_len(p: Platform, path: Seq<u8>) -> nat {
    if has_unc(p, path) {
        match share_end(p, true, path, 8) {
            Some(end) => end,
            None => component_end(p, true, path, 8),
        }
    } else if drive_at(path, 4) && (path.len() == 6 || is_separator(p, path[6])) {
        6
    } else {
        component_end(p, true, path, 4)
    }
}

/// What a path starts with in front of its components, and how long that is.
pub open spec fn prefix_of(p: Platform, path: Seq<u8>) -> (PrefixKind, nat) {
    if p != Platform::Windows {
        (PrefixKind::Absent, 0)
    } else if is_verbatim(p, path) {
        (PrefixKind::Verbatim, verbatim_len(p, path))
    } else if path.len() >= 2 && is_separator(p, path[0]) && is_separator(p, path[1]) {
        if path.len() >= 4 && path[2] == '.' as u8 && is_separator(p, path[3]) {
            (PrefixKind::Named, component_end(p, false, path, 4))
        } else if component_end(p, false, path, 2) > 2 && share_end(p, false, path, 2) is Some {
            (PrefixKind::Named, share_end(p, false, path, 2)->0)
        } else {
            (PrefixKind::Absent, 0)
        }
    } else if drive_at(path, 0) {
        (PrefixKind::Drive, 2)
    } else {
        (PrefixKind::Absent, 0)
    }
}

/// Where the components of a path start: behind its prefix and its root.
pub open spec fn body_start(p: Platform, path: Seq<u8>) -> nat {
    let (kind, n) = prefix_of(p, path);
    if n < path.len() && is_separator(p, path[n as int]) {
        n + 1
    } else {
        n
    }
}

/// Whether a name is a single component that names something.
pub open spec fn is_component(p: Platform, name: Seq<u8>) -> bool {
    &&& name.len() > 0
    &&& name != seq!['.' as u8]
    &&& name != seq!['.' as u8, '.' as u8]
    &&& !(p == Platform::Windows && drive_at(name, 0))
    &&& forall|i: int| 0 <= i < name.len() ==> !is_separator(p, #[trigger] name[i])
}

/// The components of a verbatim path from `from` on, each with a separator
/// behind it.
pub open spec fn tidied(p: Platform, path: Seq<u8>, from: nat) -> Seq<u8>
    decreases path.len() - from,
{
    if from >= path.len() {
        seq![]
    } else {
        proof {
            lemma_component_end(p, true, path, from);
        }
        let end = component_end(p, true, path, from);
        let rest = tidied(p, path, behind(path, end));
        if end == from {
            rest
        } else {
            path.subrange(from as int, end as int).push('\\' as u8) + rest
        }
    }
}

/// What stands in front of the name of a file that is in `dir`. A verbatim
/// directory is written anew, without empty components.
pub open spec fn front_of(p: Platform, dir: Seq<u8>) -> Seq<u8> {
    let (kind, n) = prefix_of(p, dir);
    if kind == PrefixKind::Verbatim {
        dir.take(n as int).push('\\' as u8) + tidied(p, dir, body_start(p, dir))
    } else if dir.len() == 0 || is_separator(p, dir.last()) || (kind == PrefixKind::Drive
        && dir.len() == 2) {
        dir
    } else {
        dir.push(separator(p))
    }
}

/// The path of `name`, a single component, in `dir`.
pub open spec fn path_in(p: Platform, dir: Seq<u8>, name: Seq<u8>) -> Seq<u8> {
    front_of(p, dir) + name
}

/// A component ends in its path, and not in front of its start.
pub proof fn lemma_component_end(p: Platform, verbatim: bool, path: Seq<u8>, from: nat)
    ensures
        component_end(p, verbatim, path, from) >= from,
        from <= path.len() ==> component_end(p, verbatim, path, from) <= path.len(),
    decreases path.len() - from,
{
    if from < path.len() && !splits(p, verbatim, path[from as int]) {
        lemma_component_end(p, verbatim, path, from + 1);
    }
}

fn has_drive_at(path: &[u8], at: usize) -> (res: bool)
    requires
        at <= path@.len(),
    ensures
        res == drive_at(path@, at as nat),
{
    path.len() - at >= 2 && ((0x41 <= path[at] && path[at] <= 0x5a) || (0x61 <= path[at] && path[at]
        <= 0x7a)) && path[at + 1] == 0x3a
}

fn separates(p: Platform, b: u8) -> (res: bool)
    ensures
        res == is_separator(p, b),
{
    b == 0x2f || (p == Platform::Windows && b == 0x5c)
}

fn splits_at(p: Platform, verbatim: bool, b: u8) -> (res: bool)
    ensures
        res == splits(p, verbatim, b),
{
    if verbatim {
        b == 0x5c
    } else {
        separates(p, b)
    }
}

fn find_end(p: Platform, verbatim: bool, path: &[u8], from: usize) -> (res: usize)
    requires
        from <= path@.len(),
    ensures
        res == component_end(p, verbatim, path@, from as nat),
        from <= res <= path@.len(),
{
    let mut i: usize = from;
    while i < path.len() && !splits_at(p, verbatim, path[i])
        invariant
            from <= i <= path@.len(),
            component_end(p, verbatim, path@, from as nat) == component_end(
                p,
                verbatim,
                path@,
                i as nat,
            ),
        decreases path@.len() - i,
    {
        i += 1;
    }
    i
}

fn find_share(p: Platform, verbatim: bool, path: &[u8], from: usize) -> (res: Option<usize>)
    requires
        from <= path@.len(),
    ensures
        match res {
            Some(end) => share_end(p, verbatim, path@, from as nat) == Some(end as nat) && end
                <= path@.len(),
            None => share_end(p, verbatim, path@, from as nat) is None,
        },
{
    let first = find_end(p, verbatim, path, from);
    let second: usize = if first < path.len() {
        first + 1
    } else {
        path.len()
    };
    let end = find_end(p, verbatim, path, second);
    if end > second {
        Some(end)
    } else {
        None
    }
}

fn find_verbatim_len(p: Platform, path: &[u8]) -> (res: usize)
    requires
        is_verbatim(p, path@),
    ensures
        res == verbatim_len(p, path@),
        res <= path@.len(),
{
    if path.len() >= 8 && path[4] == 0x55 && path[5] == 0x4e && path[6] == 0x43 && separates(
        p,
        path[7],
    ) {
        match find_share(p, true, path, 8) {
            Some(end) => end,
            None => find_end(p, true, path, 8),
        }
    } else if has_drive_at(path, 4) && (path.len() == 6 || separates(p, path[6])) {
        6
    } else {
        find_end(p, true, path, 4)
    }
}

/// What a path starts with in front of its components, and how long that is.
pub fn prefix(p: Platform, path: &[u8]) -> (res: (PrefixKind, usize))
    ensures
        (res.0, res.1 as nat) == prefix_of(p, path@),
        res.1 <= path@.len(),
{
    if p != Platform::Windows {
        return (PrefixKind::Absent, 0);
    }
    let n = path.len();
    if n >= 4 && path[0] == 0x5c && path[1] == 0x5c && path[2] == 0x3f && path[3] == 0x5c {
        (PrefixKind::Verbatim, find_verbatim_len(p, path))
    } else if n >= 2 && separates(p, path[0]) && separates(p, path[1]) {
        if n >= 4 && path[2] == 0x2e && separates(p, path[3]) {
            (PrefixKind::Named, find_end(p, false, path, 4))
        } else if find_end(p, false, path, 2) > 2 {
            match find_share(p, false, path, 2) {
                Some(end) => (PrefixKind::Named, end),
                None => (PrefixKind::Absent, 0),
            }
        } else {
            (PrefixKind::Absent, 0)
        }
    } else if has_drive_at(path, 0) {
        (PrefixKind::Drive, 2)
    } else {
        (PrefixKind::Absent, 0)
    }
}

fn find_body(p: Platform, path: &[u8]) -> (res: usize)
    ensures
        res == body_start(p, path@),
        res <= path@.len(),
{
    let (_, n) = prefix(p, path);
    if n < path.len() && separates(p, path[n]) {
        n + 1
    } else {
        n
    }
}

/// Appends bytes.
pub fn push_bytes(out: &mut Vec<u8>, more: &[u8])
    ensures
        final(out)@ == old(out)@ + more@,
{
    let ghost before = out@;
    let mut i: usize = 0;
    while i < more.len()
        invariant
            i <= more@.len(),
            out@ =~= before + more@.take(i as int),
        decreases more@.len() - i,
    {
        out.push(more[i]);
        i += 1;
    }
    assert(out@ =~= before + more@);
}

/// A copy of the bytes.
pub fn bytes_of(b: &[u8]) -> (res: Vec<u8>)
    ensures
        res@ == b@,
{
    let mut res: Vec<u8> = Vec::new();
    push_bytes(&mut res, b);
    assert(res@ =~= b@);
    res
}

/// Whether two byte strings are the same.
pub fn same_bytes(a: &[u8], b: &[u8]) -> (res: bool)
    ensures
        res == (a@ == b@),
{
    if a.len() != b.len() {
        return false;
    }
    let mut i: usize = 0;
    while i < a.len()
        invariant
            i <= a@.len(),
            a@.len() == b@.len(),
            a@.take(i as int) =~= b@.take(i as int),
        decreases a@.len() - i,
    {
        if a[i] != b[i] {
            return false;
        }
        i += 1;
        assert(a@.take(i as int) =~= a@.take(i - 1).push(a@[i - 1]));
        assert(b@.take(i as int) =~= b@.take(i - 1).push(b@[i - 1]));
    }
    assert(a@ =~= b@) by {
        assert(a@.take(i as int) =~= a@);
        assert(b@.take(i as int) =~= b@);
    }
    true
}

/// The contents of the byte strings in a vector.
pub open spec fn blobs(v: Seq<Vec<u8>>) -> Seq<Seq<u8>> {
    v.map_values(|b: Vec<u8>| b@)
}

/// Appends a copy of a byte string.
pub fn push_blob(v: &mut Vec<Vec<u8>>, b: &[u8])
    ensures
        blobs(final(v)@) == blobs(old(v)@).push(b@),
{
    let ghost before = blobs(v@);
    let c = bytes_of(b);
    v.push(c);
    assert(blobs(v@) =~= before.push(c@));
}

/// A copy of the byte strings.
pub fn copy_blobs(v: &Vec<Vec<u8>>) -> (res: Vec<Vec<u8>>)
    ensures
        blobs(res@) == blobs(v@),
{
    let mut res: Vec<Vec<u8>> = Vec::new();
    let mut i: usize = 0;
    assert(blobs(res@) =~= blobs(v@).take(0));
    while i < v.len()
        invariant
            i <= v@.len(),
            blobs(res@) == blobs(v@).take(i as int),
        decreases v@.len() - i,
    {
        push_blob(&mut res, &v[i]);
        assert(blobs(v@).take(i + 1) =~= blobs(v@).take(i as int).push(blobs(v@)[i as int]));
        i += 1;
    }
    assert(blobs(v@).take(i as int) =~= blobs(v@));
    res
}

fn push_tidied(p: Platform, out: &mut Vec<u8>, path: &[u8], from: usize)
    requires
        from <= path@.len(),
    ensures
        final(out)@ == old(out)@ + tidied(p, path@, from as nat),
{
    let ghost before = out@;
    let mut i: usize = from;
    while i < path.len()
        invariant
            i <= path@.len(),
            out@ + tidied(p, path@, i as nat) =~= before + tidied(p, path@, from as nat),
        decreases path@.len() - i,
    {
        let end = find_end(p, true, path, i);
        if end > i {
            push_bytes(out, &path[i..end]);
            out.push(0x5c);
        }
        i = if end < path.len() {
            end + 1
        } else {
            path.len()
        };
    }
}

/// The path of `name`, a single component, in `dir`.
pub fn join_path(p: Platform, dir: &[u8], name: &[u8]) -> (res: Vec<u8>)
    requires
        is_component(p, name@),
    ensures
        res@ == path_in(p, dir@, name@),
{
    let (kind, n) = prefix(p, dir);
    let mut res: Vec<u8> = Vec::new();
    if kind == PrefixKind::Verbatim {
        push_bytes(&mut res, &dir[0..n]);
        res.push(0x5c);
        push_tidied(p, &mut res, dir, find_body(p, dir));
        assert(dir@.subrange(0, n as int) =~= dir@.take(n as int));
    } else {
        push_bytes(&mut res, dir);
        let len = dir.len();
        if !(len == 0 || separates(p, dir[len - 1]) || (kind == PrefixKind::Drive && len == 2)) {
            let sep: u8 = if p == Platform::Windows {
                0x5c
            } else {
                0x2f
            };
            res.push(sep);
        }
    }
    assert(res@ =~= front_of(p, dir@));
    push_bytes(&mut res, name);
    res
}

/// Where the last component of `path[low..n]` starts.
pub open spec fn component_start(
    p: Platform,
    verbatim: bool,
    path: Seq<u8>,
    low: nat,
    n: nat,
) -> nat
    decreases n,
{
    if n <= low || splits(p, verbatim, path[n - 1]) {
        n
    } else {
        component_start(p, verbatim, path, low, (n - 1) as nat)
    }
}

/// Whether a component stands for the directory it is in. In a verbatim path
/// only an empty one is passed over.
pub open spec fn is_here(verbatim: bool, c: Seq<u8>) -> bool {
    c.len() == 0 || (!verbatim && c == seq!['.' as u8])
}

/// The last component of `path[low..n]` that is not passed over, or nothing.
pub open spec fn last_name(
    p: Platform,
    verbatim: bool,
    path: Seq<u8>,
    low: nat,
    n: nat,
) -> Seq<u8>
    decreases n,
{
    let start = component_start(p, verbatim, path, low, n);
    let component = path.subrange(start as int, n as int);
    if !is_here(verbatim, component) {
        component
    } else if start <= low {
        seq![]
    } else {
        proof {
            lemma_component_start(p, verbatim, path, low, n);
        }
        last_name(p, verbatim, path, low, (start - 1) as nat)
    }
}

/// The name of the file that a path leads to. There is none where the path
/// ends in `..` or has no component at all.
pub open spec fn file_name_of(p: Platform, path: Seq<u8>) -> Option<Seq<u8>> {
    let name = last_name(p, is_verbatim(p, path), path, body_start(p, path), path.len());
    if name.len() == 0 || name == seq!['.' as u8] || name == seq!['.' as u8, '.' as u8] {
        None
    } else {
        Some(name)
    }
}

/// A component does not start behind its end.
pub proof fn lemma_component_start(
    p: Platform,
    verbatim: bool,
    path: Seq<u8>,
    low: nat,
    n: nat,
)
    ensures
        component_start(p, verbatim, path, low, n) <= n,
    decreases n,
{
    if n > low && !splits(p, verbatim, path[n - 1]) {
        lemma_component_start(p, verbatim, path, low, (n - 1) as nat);
    }
}

/// The name of the file that a path leads to.
pub fn file_name(p: Platform, path: &[u8]) -> (res: Option<Vec<u8>>)
    ensures
        file_name_of(p, path@) == (match res {
            Some(v) => Some(v@),
            None => None,
        }),
{
    let low = find_body(p, path);
    let (kind, _) = prefix(p, path);
    let verbatim = kind == PrefixKind::Verbatim;
    let mut n: usize = path.len();
    loop
        invariant
            low <= n <= path@.len(),
            last_name(p, verbatim, path@, low as nat, path@.len()) == last_name(
                p,
                verbatim,
                path@,
                low as nat,
                n as nat,
            ),
            verbatim == is_verbatim(p, path@),
            low == body_start(p, path@),
        decreases n,
    {
        let mut start: usize = n;
        while start > low && !splits_at(p, verbatim, path[start - 1])
            invariant
                low <= start <= n <= path@.len(),
                component_start(p, verbatim, path@, low as nat, n as nat) == component_start(
                    p,
                    verbatim,
                    path@,
                    low as nat,
                    start as nat,
                ),
            decreases start,
        {
            start -= 1;
        }
        let name = &path[start..n];
        let dot = name.len() == 1 && name[0] == 0x2e;
        let dots = name.len() == 2 && name[0] == 0x2e && name[1] == 0x2e;
        proof {
            if dot {
                assert(name@ =~= seq!['.' as u8]);
            }
            if dots {
                assert(name@ =~= seq!['.' as u8, '.' as u8]);
            }
        }
        if name.len() == 0 || (dot && !verbatim) {
            if start == low {
                return None;
            }
            n = start - 1;
        } else if dot || dots {
            return None;
        } else {
            return Some(bytes_of(name));
        }
    }
}

/// The position of the last dot of a name, or its length.
pub open spec fn last_dot(name: Seq<u8>, n: nat) -> nat
    decreases n,
{
    if n == 0 {
        name.len()
    } else if name[n - 1] == '.' as u8 {
        (n - 1) as nat
    } else {
        last_dot(name, (n - 1) as nat)
    }
}

/// What follows the last dot of a name, unless that dot opens the name.
pub open spec fn extension_of(name: Seq<u8>) -> Option<Seq<u8>> {
    let dot = last_dot(name, name.len());
    if 0 < dot < name.len() {
        Some(name.skip(dot as int + 1))
    } else {
        None
    }
}

/// A name without its extension.
pub open spec fn stem_of(name: Seq<u8>) -> Seq<u8> {
    let dot = last_dot(name, name.len());
    if 0 < dot < name.len() {
        name.take(dot as int)
    } else {
        name
    }
}

fn find_last_dot(name: &[u8]) -> (res: usize)
    ensures
        res == last_dot(name@, name@.len()),
        res <= name@.len(),
{
    let mut n: usize = name.len();
    while n > 0 && name[n - 1] != 0x2e
        invariant
            n <= name@.len(),
            last_dot(name@, name@.len()) == last_dot(name@, n as nat),
        decreases n,
    {
        n -= 1;
    }
    if n == 0 {
        name.len()
    } else {
        n - 1
    }
}

/// The extension of a file name.
pub fn extension(name: &[u8]) -> (res: Option<Vec<u8>>)
    ensures
        extension_of(name@) == (match res {
            Some(v) => Some(v@),
            None => None,
        }),
{
    let dot = find_last_dot(name);
    if 0 < dot && dot < name.len() {
        assert(name@.subrange(dot + 1, name@.len() as int) =~= name@.skip(dot + 1));
        Some(bytes_of(&name[dot + 1..name.len()]))
    } else {
        None
    }
}

/// A file name without its extension.
pub fn stem(name: &[u8]) -> (res: Vec<u8>)
    ensures
        res@ == stem_of(name@),
{
    let dot = find_last_dot(name);
    if 0 < dot && dot < name.len() {
        assert(name@.subrange(0, dot as int) =~= name@.take(dot as int));
        bytes_of(&name[0..dot])
    } else {
        bytes_of(name)
    }
}

} // verus!
