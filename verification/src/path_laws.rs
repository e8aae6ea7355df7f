//! What holds of paths that are put together from known parts.

use vstd::prelude::*;

use crate::path::{
    body_start, component_end, component_start, drive_at, file_name, file_name_of, front_of,
    is_verbatim, join_path, last_name, lemma_component_start, prefix, prefix_of, splits, tidied,
    Platform, PrefixKind,
};

verus! {

/// Whether a byte is a slash, or on Windows a backslash.
pub open spec fn is_slash(p: Platform, b: u8) -> bool {
    b == 47 || (p == Platform::Windows && b == 92)
}

/// Whether a name is a single component: not empty, free of separators, and
/// neither `.` nor `..`.
pub open spec fn is_plain_name(p: Platform, name: Seq<u8>) -> bool {
    &&& name.len() > 0
    &&& forall|i: int| 0 <= i < name.len() ==> !is_slash(p, #[trigger] name[i])
    &&& name != seq![46u8]
    &&& name != seq![46u8, 46u8]
}

/// Whether bytes are separators throughout, or none.
pub open spec fn are_slashes(p: Platform, s: Seq<u8>) -> bool {
    forall|i: int| 0 <= i < s.len() ==> is_slash(p, #[trigger] s[i])
}

/// Whether a path starts with two separators, as shares and devices do.
pub open spec fn opens_with_two_slashes(p: Platform, path: Seq<u8>) -> bool {
    path.len() >= 2 && is_slash(p, path[0]) && is_slash(p, path[1])
}

/// Whether a path starts as verbatim ones do.
pub open spec fn opens_verbatim(path: Seq<u8>) -> bool {
    path.len() >= 4 && path[0] == 92 && path[1] == 92 && path[2] == 63 && path[3] == 92
}

/// Whether a path starts with a letter and a colon.
pub open spec fn opens_with_a_drive(path: Seq<u8>) -> bool {
    path.len() >= 2 && (65 <= path[0] <= 90 || 97 <= path[0] <= 122) && path[1] == 58
}

// ---------------------------------------------------------------------------
// Joining
// ---------------------------------------------------------------------------

/// A name is put behind a directory with one separator between them, unless the
/// directory is empty, ends in one, or is a bare Windows drive.
pub proof fn joining_adds_one_separator(
    p: Platform,
    dir: &[u8],
    name: &[u8],
    res: Vec<u8>,
)
    requires
        p != Platform::Windows || !opens_verbatim(dir@),
        call_ensures(join_path, (p, dir, name), res),
    ensures
        ({
            let close = dir@.len() == 0 || is_slash(p, dir@.last()) || (p == Platform::Windows
                && dir@.len() == 2 && opens_with_a_drive(dir@));
            &&& close ==> res@ == dir@ + name@
            &&& !close && p == Platform::Windows ==> res@ == dir@ + seq![92u8] + name@
            &&& !close && p != Platform::Windows ==> res@ == dir@ + seq![47u8] + name@
        }),
{
    assert(dir@.push(92) =~= dir@ + seq![92u8]);
    assert(dir@.push(47) =~= dir@ + seq![47u8]);
}

// ---------------------------------------------------------------------------
// File names
// ---------------------------------------------------------------------------

proof fn lemma_component_start_is(
    p: Platform,
    verbatim: bool,
    path: Seq<u8>,
    low: nat,
    k: nat,
    n: nat,
)
    requires
        low <= k <= n <= path.len(),
        forall|i: int| k <= i < n ==> !splits(p, verbatim, #[trigger] path[i]),
        k == low || splits(p, verbatim, path[k - 1]),
    ensures
        component_start(p, verbatim, path, low, n) == k,
    decreases n,
{
    if n > k {
        assert(!splits(p, verbatim, path[n - 1]));
        lemma_component_start_is(p, verbatim, path, low, k, (n - 1) as nat);
    }
}

/// The last component, with separators behind it.
proof fn lemma_last_name_is(
    p: Platform,
    verbatim: bool,
    path: Seq<u8>,
    low: nat,
    k: nat,
    m: nat,
    n: nat,
)
    requires
        low <= k < m <= n <= path.len(),
        forall|i: int| k <= i < m ==> !splits(p, verbatim, #[trigger] path[i]),
        forall|i: int| m <= i < n ==> splits(p, verbatim, #[trigger] path[i]),
        k == low || splits(p, verbatim, path[k - 1]),
        verbatim || path.subrange(k as int, m as int) != seq![46u8],
    ensures
        last_name(p, verbatim, path, low, n) == path.subrange(k as int, m as int),
    decreases n,
{
    if n > m {
        assert(splits(p, verbatim, path[n - 1]));
        assert(component_start(p, verbatim, path, low, n) == n);
        lemma_last_name_is(p, verbatim, path, low, k, m, (n - 1) as nat);
    } else {
        lemma_component_start_is(p, verbatim, path, low, k, n);
    }
}

/// A path leads to the file of its last component, whatever stands before it and
/// however many separators stand behind it.
pub proof fn a_path_is_named_after_its_last_component(
    p: Platform,
    dir: Seq<u8>,
    sep: u8,
    name: Seq<u8>,
    slashes: Seq<u8>,
    path: &[u8],
    res: Option<Vec<u8>>,
)
    requires
        is_plain_name(p, name),
        is_slash(p, sep),
        are_slashes(p, slashes),
        path@ == dir.push(sep) + name + slashes,
        p != Platform::Windows || !opens_with_two_slashes(p, path@),
        call_ensures(file_name, (p, path), res),
    ensures
        res is Some && res->0@ == name,
{
    let s = path@;
    let k = dir.len() + 1;
    let m = k + name.len();
    assert(s[k - 1] == sep);
    assert forall|i: int| k <= i < m implies !splits(p, false, #[trigger] s[i]) by {
        assert(s[i] == name[i - k]);
    }
    assert forall|i: int| m <= i < s.len() implies splits(p, false, #[trigger] s[i]) by {
        assert(s[i] == slashes[i - m]);
    }
    assert(s.subrange(k as int, m as int) =~= name);
    if p == Platform::Windows && drive_at(s, 0) {
        if dir.len() < 2 {
            assert(s[dir.len() as int] == sep);
        }
    }
    lemma_last_name_is(p, false, s, body_start(p, s), k, m, s.len());
}

/// A name alone is its own file name, also behind a Windows drive.
pub proof fn a_bare_name_is_the_name(
    p: Platform,
    name: Seq<u8>,
    slashes: Seq<u8>,
    path: &[u8],
    res: Option<Vec<u8>>,
)
    requires
        is_plain_name(p, name),
        are_slashes(p, slashes),
        path@ == name + slashes,
        call_ensures(file_name, (p, path), res),
    ensures
        p != Platform::Windows || !opens_with_a_drive(name) ==> res is Some && res->0@ == name,
        p == Platform::Windows && opens_with_a_drive(name) && is_plain_name(p, name.skip(2))
            ==> res is Some && res->0@ == name.skip(2),
{
    let s = path@;
    let m = name.len();
    assert(s[0] == name[0]);
    assert forall|i: int| 0 <= i < m implies !splits(p, false, #[trigger] s[i]) by {
        assert(s[i] == name[i]);
    }
    assert forall|i: int| m <= i < s.len() implies splits(p, false, #[trigger] s[i]) by {
        assert(s[i] == slashes[i - m]);
    }
    if name.len() > 1 {
        assert(s[1] == name[1]);
    }
    if p == Platform::Windows && opens_with_a_drive(name) && is_plain_name(p, name.skip(2)) {
        assert(s.subrange(2, m as int) =~= name.skip(2));
        assert(s[2] == name[2]);
        assert(body_start(p, s) == 2);
        lemma_last_name_is(p, false, s, 2, 2, m, s.len());
    }
    if p != Platform::Windows || !opens_with_a_drive(name) {
        assert(s.subrange(0, m as int) =~= name);
        assert(!drive_at(s, 0) || p != Platform::Windows);
        assert(body_start(p, s) == 0);
        lemma_last_name_is(p, false, s, 0, 0, m, s.len());
    }
}

/// A path that ends in `..` names no file, nor does one of separators alone.
pub proof fn some_paths_name_nothing(
    p: Platform,
    dir: Seq<u8>,
    sep: u8,
    slashes: Seq<u8>,
    path: &[u8],
    res: Option<Vec<u8>>,
)
    requires
        p != Platform::Windows,
        is_slash(p, sep),
        are_slashes(p, slashes),
        path@ == dir.push(sep) + seq![46u8, 46u8] + slashes || path@ == seq![46u8, 46u8] + slashes
            || path@ == slashes,
        call_ensures(file_name, (p, path), res),
    ensures
        res is None,
{
    let s = path@;
    let dots = seq![46u8, 46u8];
    if s == dir.push(sep) + dots + slashes {
        let k = dir.len() + 1;
        let m = k + 2;
        assert(s[k - 1] == sep);
        assert(s[k as int] == 46 && s[k as int + 1] == 46);
        assert forall|i: int| m <= i < s.len() implies splits(p, false, #[trigger] s[i]) by {
            assert(s[i] == slashes[i - m]);
        }
        assert(s.subrange(k as int, m as int) =~= dots);
        assert(dots[1] == 46 && dots.len() == 2);
        lemma_last_name_is(p, false, s, body_start(p, s), k, m, s.len());
    } else if s == dots + slashes {
        assert(s[0] == 46 && s[1] == 46);
        assert forall|i: int| 2 <= i < s.len() implies splits(p, false, #[trigger] s[i]) by {
            assert(s[i] == slashes[i - 2]);
        }
        assert(s.subrange(0, 2) =~= dots);
        lemma_last_name_is(p, false, s, 0, 0, 2, s.len());
    } else {
        lemma_only_slashes(p, s, body_start(p, s), s.len());
    }
}

proof fn lemma_only_slashes(p: Platform, s: Seq<u8>, low: nat, n: nat)
    requires
        are_slashes(p, s),
        low <= n <= s.len(),
    ensures
        last_name(p, false, s, low, n).len() == 0,
    decreases n,
{
    if n > low {
        assert(splits(p, false, s[n - 1]));
        assert(component_start(p, false, s, low, n) == n);
        lemma_only_slashes(p, s, low, (n - 1) as nat);
    } else {
        assert(component_start(p, false, s, low, n) == n);
    }
}

proof fn lemma_last_name_of_front(p: Platform, path: Seq<u8>, more: Seq<u8>, low: nat, n: nat)
    requires
        n <= path.len(),
    ensures
        last_name(p, false, path + more, low, n) == last_name(p, false, path, low, n),
    decreases n,
{
    lemma_start_of_front(p, path, more, low, n);
    lemma_component_start(p, false, path, low, n);
    let k = component_start(p, false, path, low, n);
    assert((path + more).subrange(k as int, n as int) =~= path.subrange(k as int, n as int));
    if k > low {
        lemma_last_name_of_front(p, path, more, low, (k - 1) as nat);
    }
}

proof fn lemma_start_of_front(p: Platform, path: Seq<u8>, more: Seq<u8>, low: nat, n: nat)
    requires
        n <= path.len(),
    ensures
        component_start(p, false, path + more, low, n) == component_start(p, false, path, low, n),
    decreases n,
{
    if n > low {
        assert((path + more)[n - 1] == path[n - 1]);
        lemma_start_of_front(p, path, more, low, (n - 1) as nat);
    }
}

/// A component `.` at the end of a path is passed over.
pub proof fn a_final_point_is_passed_over(p: Platform, dir: Seq<u8>)
    requires
        p != Platform::Windows,
        dir.len() > 0,
    ensures
        file_name_of(p, dir + seq![47u8, 46u8]) == file_name_of(p, dir),
{
    let more = seq![47u8, 46u8];
    let s = dir + more;
    let n = s.len();
    let low = body_start(p, dir);
    assert(s[0] == dir[0]);
    assert(body_start(p, s) == low);
    assert(s[n - 1] == 46 && s[n - 2] == 47);
    lemma_component_start_is(p, false, s, low, (n - 1) as nat, n);
    assert(s.subrange(n - 1, n as int) =~= seq![46u8]);
    assert(last_name(p, false, s, low, n) == last_name(p, false, s, low, (n - 2) as nat));
    lemma_last_name_of_front(p, dir, more, low, dir.len());
}

// ---------------------------------------------------------------------------
// Windows prefixes
// ---------------------------------------------------------------------------

proof fn lemma_component_end_is(p: Platform, verbatim: bool, path: Seq<u8>, from: nat, k: nat)
    requires
        from <= k <= path.len(),
        forall|i: int| from <= i < k ==> !splits(p, verbatim, #[trigger] path[i]),
        k == path.len() || splits(p, verbatim, path[k as int]),
    ensures
        component_end(p, verbatim, path, from) == k,
    decreases k - from,
{
    if from < k {
        assert(!splits(p, verbatim, path[from as int]));
        lemma_component_end_is(p, verbatim, path, from + 1, k);
    }
}

/// On Windows a letter and a colon are a drive, and nothing else of a path is.
pub proof fn drives_are_letters(path: &[u8], res: (PrefixKind, usize))
    requires
        !opens_with_two_slashes(Platform::Windows, path@),
        call_ensures(prefix, (Platform::Windows, path), res),
    ensures
        opens_with_a_drive(path@) ==> res == (PrefixKind::Drive, 2usize),
        !opens_with_a_drive(path@) ==> res == (PrefixKind::Absent, 0usize),
{
    let p = Platform::Windows;
    assert(prefix_of(p, path@) == (res.0, res.1 as nat));
    if is_verbatim(p, path@) {
        assert(is_slash(p, path@[0]) && is_slash(p, path@[1]));
    }
}

/// Elsewhere no path has a prefix.
pub proof fn prefixes_are_of_windows(p: Platform, path: &[u8], res: (PrefixKind, usize))
    requires
        p != Platform::Windows,
        call_ensures(prefix, (p, path), res),
    ensures
        res == (PrefixKind::Absent, 0usize),
{
}

/// Whether what follows a prefix starts with a separator, or nothing follows.
pub open spec fn ends_there(p: Platform, rest: Seq<u8>) -> bool {
    rest.len() == 0 || is_slash(p, rest[0])
}

/// A server and its share, behind two separators, are a prefix; so the share alone
/// names no file.
pub proof fn shares_are_prefixes(
    server: Seq<u8>,
    share: Seq<u8>,
    rest: Seq<u8>,
    a: u8,
    b: u8,
    c: u8,
    path: &[u8],
    res: (PrefixKind, usize),
)
    requires
        is_slash(Platform::Windows, a),
        is_slash(Platform::Windows, b),
        is_slash(Platform::Windows, c),
        is_plain_name(Platform::Windows, server),
        is_plain_name(Platform::Windows, share),
        server != seq![63u8],
        ends_there(Platform::Windows, rest),
        path@ == seq![a, b] + server + seq![c] + share + rest,
        call_ensures(prefix, (Platform::Windows, path), res),
    ensures
        res.0 == PrefixKind::Named,
        res.1 == 3 + server.len() + share.len(),
        are_slashes(Platform::Windows, rest) ==> file_name_of(Platform::Windows, path@) is None,
{
    let p = Platform::Windows;
    let s = path@;
    let k = 2 + server.len();
    let m = k + 1 + share.len();
    assert(s[0] == a && s[1] == b && s[k as int] == c);
    assert forall|i: int| 2 <= i < k implies !splits(p, false, #[trigger] s[i]) by {
        assert(s[i] == server[i - 2]);
    }
    assert forall|i: int| k + 1 <= i < m implies !splits(p, false, #[trigger] s[i]) by {
        assert(s[i] == share[i - k - 1]);
    }
    if rest.len() > 0 {
        assert(s[m as int] == rest[0]);
    }
    lemma_component_end_is(p, false, s, 2, k);
    lemma_component_end_is(p, false, s, k + 1, m);
    assert(s[2] == server[0]);
    if is_verbatim(p, s) {
        if server.len() > 1 {
            assert(s[3] == server[1]);
        } else {
            assert(server =~= seq![63u8]);
        }
    }
    if s[2] == 46 && is_slash(p, s[3]) {
        if server.len() > 1 {
            assert(s[3] == server[1]);
        } else {
            assert(server =~= seq![46u8]);
        }
    }
    assert(prefix_of(p, s) == (PrefixKind::Named, m));
    if are_slashes(p, rest) {
        assert forall|i: int| m <= i < s.len() implies is_slash(p, #[trigger] s[i]) by {
            assert(s[i] == rest[i - m]);
        }
        lemma_nothing_but_slashes(p, false, s, body_start(p, s), s.len());
    }
}

proof fn lemma_nothing_but_slashes(p: Platform, verbatim: bool, s: Seq<u8>, low: nat, n: nat)
    requires
        low <= n <= s.len(),
        forall|i: int| low <= i < s.len() ==> splits(p, verbatim, #[trigger] s[i]),
    ensures
        last_name(p, verbatim, s, low, n).len() == 0,
    decreases n,
{
    if n > low {
        assert(splits(p, verbatim, s[n - 1]));
        assert(component_start(p, verbatim, s, low, n) == n);
        lemma_nothing_but_slashes(p, verbatim, s, low, (n - 1) as nat);
    } else {
        assert(component_start(p, verbatim, s, low, n) == n);
    }
}

/// Behind a prefix that a separator ends, a path is named after its last component.
pub proof fn a_prefix_does_not_belong_to_the_name(
    front: Seq<u8>,
    sep: u8,
    name: Seq<u8>,
    path: &[u8],
    res: (PrefixKind, usize),
    found: Option<Vec<u8>>,
)
    requires
        is_slash(Platform::Windows, sep),
        is_plain_name(Platform::Windows, name),
        path@ == front.push(sep) + name,
        call_ensures(prefix, (Platform::Windows, path), res),
        call_ensures(file_name, (Platform::Windows, path), found),
        res.0 != PrefixKind::Verbatim,
        res.1 <= front.len(),
    ensures
        found is Some && found->0@ == name,
{
    let p = Platform::Windows;
    let s = path@;
    let k = front.len() + 1;
    assert(s[k - 1] == sep);
    assert forall|i: int| k <= i < s.len() implies !splits(p, false, #[trigger] s[i]) by {
        assert(s[i] == name[i - k]);
    }
    assert(s.subrange(k as int, s.len() as int) =~= name);
    assert(prefix_of(p, s) == (res.0, res.1 as nat));
    assert(!is_verbatim(p, s));
    lemma_last_name_is(p, false, s, body_start(p, s), k, s.len(), s.len());
}

/// A device, behind two separators, a point and a separator, is a prefix.
pub proof fn devices_are_prefixes(
    name: Seq<u8>,
    rest: Seq<u8>,
    a: u8,
    b: u8,
    c: u8,
    path: &[u8],
    res: (PrefixKind, usize),
)
    requires
        is_slash(Platform::Windows, a),
        is_slash(Platform::Windows, b),
        is_slash(Platform::Windows, c),
        is_plain_name(Platform::Windows, name),
        ends_there(Platform::Windows, rest),
        path@ == seq![a, b, 46u8, c] + name + rest,
        call_ensures(prefix, (Platform::Windows, path), res),
    ensures
        res.0 == PrefixKind::Named,
        res.1 == 4 + name.len(),
{
    let p = Platform::Windows;
    let s = path@;
    let k = 4 + name.len();
    assert(s[0] == a && s[1] == b && s[2] == 46 && s[3] == c);
    assert forall|i: int| 4 <= i < k implies !splits(p, false, #[trigger] s[i]) by {
        assert(s[i] == name[i - 4]);
    }
    if rest.len() > 0 {
        assert(s[k as int] == rest[0]);
    }
    lemma_component_end_is(p, false, s, 4, k);
    assert(prefix_of(p, s) == (PrefixKind::Named, k));
}

/// Whether what follows starts with a backslash, or nothing follows.
pub open spec fn ends_there_verbatim(rest: Seq<u8>) -> bool {
    rest.len() == 0 || rest[0] == 92
}

/// Whether bytes are free of backslashes, and there are some.
pub open spec fn is_verbatim_name(name: Seq<u8>) -> bool {
    name.len() > 0 && forall|i: int| 0 <= i < name.len() ==> #[trigger] name[i] != 92
}

/// In a verbatim path the prefix is a drive, a server with its share, or one
/// component.
pub proof fn verbatim_prefixes_are_literal(
    name: Seq<u8>,
    share: Seq<u8>,
    rest: Seq<u8>,
    path: &[u8],
    res: (PrefixKind, usize),
)
    requires
        is_verbatim_name(name),
        is_verbatim_name(share),
        ends_there_verbatim(rest),
        call_ensures(prefix, (Platform::Windows, path), res),
    ensures
        opens_with_a_drive(name) && name.len() == 2 && path@ == seq![92u8, 92u8, 63u8, 92u8] + name
            + rest ==> res == (PrefixKind::Verbatim, 6usize),
        path@ == seq![92u8, 92u8, 63u8, 92u8, 85u8, 78u8, 67u8, 92u8] + name + seq![92u8] + share
            + rest ==> res.0 == PrefixKind::Verbatim && res.1 == 9 + name.len() + share.len(),
        name != seq![85u8, 78u8, 67u8] && !(name.len() >= 4 && name[0] == 85 && name[1] == 78
            && name[2] == 67 && name[3] == 47) && !opens_with_a_drive(name) && path@ == seq![
            92u8,
            92u8,
            63u8,
            92u8,
        ] + name + rest ==> res.0 == PrefixKind::Verbatim && res.1 == 4 + name.len(),
{
    let p = Platform::Windows;
    let s = path@;
    let opening = seq![92u8, 92u8, 63u8, 92u8];
    assert(prefix_of(p, s) == (res.0, res.1 as nat));
    if opens_with_a_drive(name) && name.len() == 2 && s == opening + name + rest {
        assert(s[0] == 92 && s[1] == 92 && s[2] == 63 && s[3] == 92);
        assert(s[4] == name[0] && s[5] == name[1]);
        if rest.len() > 0 {
            assert(s[6] == rest[0]);
        }
    }
    let unc = seq![92u8, 92u8, 63u8, 92u8, 85u8, 78u8, 67u8, 92u8];
    if s == unc + name + seq![92u8] + share + rest {
        assert(s[0] == 92 && s[1] == 92 && s[2] == 63 && s[3] == 92);
        assert(s[4] == 85 && s[5] == 78 && s[6] == 67 && s[7] == 92);
        let k = 8 + name.len();
        let m = k + 1 + share.len();
        assert(s[k as int] == 92);
        assert forall|i: int| 8 <= i < k implies !splits(p, true, #[trigger] s[i]) by {
            assert(s[i] == name[i - 8]);
        }
        assert forall|i: int| k + 1 <= i < m implies !splits(p, true, #[trigger] s[i]) by {
            assert(s[i] == share[i - k - 1]);
        }
        if rest.len() > 0 {
            assert(s[m as int] == rest[0]);
        }
        lemma_component_end_is(p, true, s, 8, k);
        lemma_component_end_is(p, true, s, k + 1, m);
    }
    if name != seq![85u8, 78u8, 67u8] && !(name.len() >= 4 && name[0] == 85 && name[1] == 78
        && name[2] == 67 && name[3] == 47) && !opens_with_a_drive(name) && s == opening + name
        + rest {
        assert(s[0] == 92 && s[1] == 92 && s[2] == 63 && s[3] == 92);
        let k = 4 + name.len();
        assert forall|i: int| 4 <= i < k implies s[i] == name[i - 4] by {}
        assert forall|i: int| 4 <= i < k implies !splits(p, true, #[trigger] s[i]) by {
            assert(s[i] == name[i - 4]);
        }
        if rest.len() > 0 {
            assert(s[k as int] == rest[0]);
        }
        lemma_component_end_is(p, true, s, 4, k);
        if s.len() >= 8 && s[4] == 85 && s[5] == 78 && s[6] == 67 && is_slash(p, s[7]) {
            if name.len() == 3 {
                assert(name =~= seq![85u8, 78u8, 67u8]);
            } else if name.len() > 3 {
                assert(s[7] == name[3]);
            } else {
                assert(s[k as int] == 92);
            }
        }
        assert(!drive_at(s, 4)) by {
            if drive_at(s, 4) {
                if name.len() >= 2 {
                    assert(s[4] == name[0] && s[5] == name[1]);
                } else {
                    assert(s[5] == 92);
                }
            }
        }
    }
}

/// Behind a verbatim prefix only a backslash separates: the name is what follows the
/// last one, slashes and all.
pub proof fn only_backslashes_separate_verbatim_paths(
    front: Seq<u8>,
    name: Seq<u8>,
    path: &[u8],
    res: (PrefixKind, usize),
    found: Option<Vec<u8>>,
)
    requires
        is_verbatim_name(name),
        name != seq![46u8],
        name != seq![46u8, 46u8],
        path@ == front.push(92) + name,
        call_ensures(prefix, (Platform::Windows, path), res),
        call_ensures(file_name, (Platform::Windows, path), found),
        res.0 == PrefixKind::Verbatim,
        res.1 <= front.len(),
    ensures
        found is Some && found->0@ == name,
{
    let p = Platform::Windows;
    let s = path@;
    let k = front.len() + 1;
    assert(s[k - 1] == 92);
    assert forall|i: int| k <= i < s.len() implies !splits(p, true, #[trigger] s[i]) by {
        assert(s[i] == name[i - k]);
    }
    assert(s.subrange(k as int, s.len() as int) =~= name);
    assert(prefix_of(p, s) == (res.0, res.1 as nat));
    assert(is_verbatim(p, s));
    lemma_last_name_is(p, true, s, body_start(p, s), k, s.len(), s.len());
}

/// Components, each with a backslash in front of it.
pub open spec fn backslashed(v: Seq<Seq<u8>>) -> Seq<u8>
    decreases v.len(),
{
    if v.len() == 0 {
        seq![]
    } else {
        seq![92u8] + v[0] + backslashed(v.skip(1))
    }
}

proof fn lemma_tidied(p: Platform, pre: Seq<u8>, v: Seq<Seq<u8>>)
    requires
        v.len() > 0,
        forall|i: int| 0 <= i < v.len() ==> is_verbatim_name(#[trigger] v[i]),
    ensures
        tidied(p, pre + backslashed(v), pre.len() + 1) == backslashed(v).skip(1).push(92),
    decreases v.len(),
{
    let s = pre + backslashed(v);
    let c = v[0];
    let rest = v.skip(1);
    let from = pre.len() + 1;
    let end = from + c.len();
    assert(is_verbatim_name(v[0]));
    assert(backslashed(v) == seq![92u8] + c + backslashed(rest));
    assert forall|i: int| from <= i < end implies !splits(p, true, #[trigger] s[i]) by {
        assert(s[i] == c[i - from]);
    }
    assert(s.subrange(from as int, end as int) =~= c);
    if rest.len() == 0 {
        assert(backslashed(rest).len() == 0);
        assert(s.len() == end);
        lemma_component_end_is(p, true, s, from, end);
        assert(tidied(p, s, s.len()) =~= Seq::<u8>::empty());
        assert(tidied(p, s, from) =~= backslashed(v).skip(1).push(92));
    } else {
        assert forall|i: int| 0 <= i < rest.len() implies is_verbatim_name(#[trigger] rest[i]) by {
            assert(rest[i] == v[i + 1]);
        }
        let longer = pre + seq![92u8] + c;
        assert(backslashed(rest)[0] == 92);
        assert(s =~= longer + backslashed(rest));
        assert(s[end as int] == backslashed(rest)[0]);
        lemma_component_end_is(p, true, s, from, end);
        lemma_tidied(p, longer, rest);
        assert(longer.len() + 1 == end + 1);
        assert(backslashed(v).skip(1).push(92) =~= c.push(92) + backslashed(rest).skip(1).push(92));
        assert(tidied(p, s, from) =~= c.push(92) + tidied(p, s, end + 1));
    }
}

/// A name is put behind a verbatim directory with one backslash between them.
pub proof fn joining_adds_one_backslash_to_verbatim_paths(
    front: Seq<u8>,
    v: Seq<Seq<u8>>,
    dir: &[u8],
    name: &[u8],
    start: (PrefixKind, usize),
    res: Vec<u8>,
)
    requires
        forall|i: int| 0 <= i < v.len() ==> is_verbatim_name(#[trigger] v[i]),
        dir@ == front + backslashed(v),
        call_ensures(prefix, (Platform::Windows, dir), start),
        start.0 == PrefixKind::Verbatim,
        start.1 == front.len(),
        call_ensures(join_path, (Platform::Windows, dir, name), res),
    ensures
        res@ == dir@ + seq![92u8] + name@,
{
    let p = Platform::Windows;
    let s = dir@;
    let n = front.len();
    assert(prefix_of(p, s) == (start.0, start.1 as nat));
    assert(s.take(n as int) =~= front);
    if v.len() > 0 {
        lemma_tidied(p, front, v);
        assert(backslashed(v)[0] == 92);
        assert(s[n as int] == backslashed(v)[0]);
        assert(body_start(p, s) == n + 1);
        assert(seq![92u8] + backslashed(v).skip(1) =~= backslashed(v));
        assert(front.push(92) + backslashed(v).skip(1).push(92) =~= s + seq![92u8]);
    } else {
        assert(backslashed(v).len() == 0);
        assert(s =~= front);
        assert(tidied(p, s, s.len()) =~= Seq::<u8>::empty());
        assert(front.push(92) + tidied(p, s, s.len()) =~= s + seq![92u8]);
    }
    assert(front_of(p, s) =~= s + seq![92u8]);
}

/// A path is verbatim exactly when it opens with two backslashes, a question mark and
/// another backslash, and no prefix is longer than its path.
pub proof fn verbatim_paths_open_so(path: &[u8], res: (PrefixKind, usize))
    requires
        call_ensures(prefix, (Platform::Windows, path), res),
    ensures
        res.0 == PrefixKind::Verbatim <==> opens_verbatim(path@),
        opens_verbatim(path@) && path@.len() == 4 ==> res.1 == 4,
        res.0 == PrefixKind::Drive <==> path@.len() >= 2 && opens_with_a_drive(path@),
        res.0 == PrefixKind::Drive ==> res.1 == 2,
        res.0 == PrefixKind::Absent ==> res.1 == 0,
{
    assert(prefix_of(Platform::Windows, path@) == (res.0, res.1 as nat));
}

} // verus!
