//! Where compiled terminfo entries are looked for, and which one is taken.
//!
//! Directories and file paths are byte strings, as on Unix.

use vstd::prelude::*;
use vstd::string::StringSliceAdditionalSpecFns;

use crate::terminfo::{
    find_byte, find_from, lemma_find_from, spec_is_valid_term_name, spec_layout, is_valid_term_name,
    validate, Error, MAX_ENTRY_SIZE,
};

verus! {

// ---------------------------------------------------------------------------
// Byte strings and paths
// ---------------------------------------------------------------------------

/// Compares two byte strings.
pub fn bytes_equal(a: &[u8], b: &[u8]) -> (r: bool)
    ensures
        r == (a@ == b@),
{
    if a.len() != b.len() {
        return false;
    }
    let mut i: usize = 0;
    while i < a.len()
        invariant
            a@.len() == b@.len(),
            i <= a@.len(),
            forall|j: int| 0 <= j < i ==> a@[j] == b@[j],
        decreases a.len() - i,
    {
        if a[i] != b[i] {
            return false;
        }
        i = i + 1;
    }
    assert(a@ =~= b@);
    true
}

/// `base` joined with `name` as a Unix path: an absolute `name` replaces
/// `base`; otherwise a `/` separates them unless `base` is empty or already
/// ends with one.
pub open spec fn path_join(base: Seq<u8>, name: Seq<u8>) -> Seq<u8> {
    if name.len() > 0 && name[0] == 47 {
        name
    } else if base.len() == 0 || base.last() == 47 {
        base + name
    } else {
        base + seq![47u8] + name
    }
}

/// Joins `name` to the path `base`.
pub fn join_path(base: &[u8], name: &[u8]) -> (r: Vec<u8>)
    ensures
        r@ == path_join(base@, name@),
{
    if name.len() > 0 && name[0] == 47 {
        return vstd::slice::slice_to_vec(name);
    }
    let mut joined = vstd::slice::slice_to_vec(base);
    if base.len() > 0 && base[base.len() - 1] != 47 {
        joined.push(47);
    }
    joined.extend_from_slice(name);
    proof {
        if base@.len() > 0 && base@.last() != 47 {
            assert(joined@ =~= base@ + seq![47u8] + name@);
        } else {
            assert(joined@ =~= base@ + name@);
        }
    }
    joined
}

// ---------------------------------------------------------------------------
// Search directories
// ---------------------------------------------------------------------------

/// The directory that an empty `TERMINFO_DIRS` component stands for.
pub open spec fn default_directory() -> Seq<u8> {
    "/usr/share/terminfo".spec_bytes()
}

/// The system directories, searched last.
pub open spec fn system_directories() -> Seq<Seq<u8>> {
    seq![
        "/usr/share/terminfo".spec_bytes(),
        "/usr/share/misc/terminfo".spec_bytes(),
        "/lib/terminfo".spec_bytes(),
        "/usr/local/share/terminfo".spec_bytes(),
    ]
}

/// A `TERMINFO_DIRS` component, an empty one standing for the default.
pub open spec fn dirs_component(c: Seq<u8>) -> Seq<u8> {
    if c.len() == 0 {
        default_directory()
    } else {
        c
    }
}

/// The `:`-separated components of `paths` from `start` on.
pub open spec fn dirs_from(paths: Seq<u8>, start: int) -> Seq<Seq<u8>>
    decreases paths.len() - start,
{
    if start < 0 || start > paths.len() {
        Seq::empty()
    } else {
        match find_from(paths, 58, start) {
            Some(p) => {
                proof {
                    lemma_find_from(paths, 58, start);
                }
                seq![dirs_component(paths.subrange(start, p))] + dirs_from(paths, p + 1)
            },
            None => seq![dirs_component(paths.subrange(start, paths.len() as int))],
        }
    }
}

/// A value of the environment, empty ones counting as unset.
pub open spec fn nonempty(value: Option<Seq<u8>>) -> Seq<Seq<u8>> {
    match value {
        Some(v) => if v.len() > 0 {
            seq![v]
        } else {
            Seq::empty()
        },
        None => Seq::empty(),
    }
}

/// The directories to search, in order and before duplicates are dropped:
/// `TERMINFO`, `$HOME/.terminfo`, the components of `TERMINFO_DIRS`, then the
/// system directories.
pub open spec fn candidate_directories(
    terminfo: Option<Seq<u8>>,
    home: Option<Seq<u8>>,
    terminfo_dirs: Option<Seq<u8>>,
) -> Seq<Seq<u8>> {
    let from_home = match home {
        Some(h) => if h.len() > 0 {
            seq![path_join(h, ".terminfo".spec_bytes())]
        } else {
            Seq::empty()
        },
        None => Seq::empty(),
    };
    let from_dirs = match terminfo_dirs {
        Some(d) => dirs_from(d, 0),
        None => Seq::empty(),
    };
    nonempty(terminfo) + from_home + from_dirs + system_directories()
}

/// The pieces of a Unix path between its `/` separators, from `start` on.
pub open spec fn path_pieces(p: Seq<u8>, start: int) -> Seq<Seq<u8>>
    decreases p.len() - start,
{
    if start < 0 || start > p.len() {
        Seq::empty()
    } else {
        match find_from(p, 47, start) {
            Some(q) => {
                proof {
                    lemma_find_from(p, 47, start);
                }
                seq![p.subrange(start, q)] + path_pieces(p, q + 1)
            },
            None => seq![p.subrange(start, p.len() as int)],
        }
    }
}

/// A piece that names a path component: not empty, and not `.` except as the
/// first piece of a relative path.
pub open spec fn is_kept_piece(piece: Seq<u8>, index: int) -> bool {
    piece.len() > 0 && (piece != seq![46u8] || index == 0)
}

/// The pieces that name path components.
pub open spec fn kept_pieces(pieces: Seq<Seq<u8>>) -> Seq<Seq<u8>>
    decreases pieces.len(),
{
    if pieces.len() == 0 {
        Seq::empty()
    } else {
        let rest = kept_pieces(pieces.drop_last());
        if is_kept_piece(pieces.last(), pieces.len() - 1) {
            rest.push(pieces.last())
        } else {
            rest
        }
    }
}

/// A path that starts at the root directory.
pub open spec fn is_rooted(p: Seq<u8>) -> bool {
    p.len() > 0 && p[0] == 47
}

/// Two Unix paths with the same components: both start at the root or
/// neither does, and the same names follow; repeated and trailing `/` and
/// `.` inside the path make no difference.
pub open spec fn same_path(a: Seq<u8>, b: Seq<u8>) -> bool {
    is_rooted(a) == is_rooted(b) && kept_pieces(path_pieces(a, 0)) == kept_pieces(path_pieces(b, 0))
}

/// Some item of `list` is the same path as `item`.
pub open spec fn names_path(list: Seq<Seq<u8>>, item: Seq<u8>) -> bool {
    exists|j: int| 0 <= j < list.len() && same_path(#[trigger] list[j], item)
}

/// `list` with `item` added at the end unless it is already there.
pub open spec fn with_unique(list: Seq<Seq<u8>>, item: Seq<u8>) -> Seq<Seq<u8>> {
    if names_path(list, item) {
        list
    } else {
        list.push(item)
    }
}

/// `list` with each repeated item dropped after its first occurrence.
pub open spec fn dedup(list: Seq<Seq<u8>>) -> Seq<Seq<u8>>
    decreases list.len(),
{
    if list.len() == 0 {
        Seq::empty()
    } else {
        with_unique(dedup(list.drop_last()), list.last())
    }
}

/// The byte strings held in a list of vectors.
pub open spec fn byte_strings(list: Seq<Vec<u8>>) -> Seq<Seq<u8>> {
    list.map_values(|item: Vec<u8>| item@)
}

/// Dropping repeats keeps only items of the list, names every item of it,
/// and never names one path twice.
pub proof fn lemma_dedup(list: Seq<Seq<u8>>)
    ensures
        forall|i: int| 0 <= i < dedup(list).len() ==> list.contains(#[trigger] dedup(list)[i]),
        forall|k: int| 0 <= k < list.len() ==> names_path(dedup(list), #[trigger] list[k]),
        forall|i: int, j: int|
            0 <= i < j < dedup(list).len() ==> !same_path(#[trigger] dedup(list)[i], #[trigger] dedup(list)[j]),
    decreases list.len(),
{
    if list.len() > 0 {
        let prefix = list.drop_last();
        lemma_dedup(prefix);
        let dp = dedup(prefix);
        let last = list.last();
        let d = dedup(list);
        assert(d == with_unique(dp, last));
        assert forall|i: int| 0 <= i < d.len() implies list.contains(#[trigger] d[i]) by {
            if i < dp.len() {
                assert(d[i] == dp[i]);
                assert(prefix.contains(dp[i]));
                let k = choose|k: int| 0 <= k < prefix.len() && prefix[k] == dp[i];
                assert(list[k] == d[i]);
            } else {
                assert(list[list.len() - 1] == d[i]);
            }
        }
        assert forall|k: int| 0 <= k < list.len() implies names_path(d, #[trigger] list[k]) by {
            if k < prefix.len() {
                assert(prefix[k] == list[k]);
                assert(names_path(dp, prefix[k]));
                let j = choose|j: int| 0 <= j < dp.len() && same_path(#[trigger] dp[j], prefix[k]);
                assert(d[j] == dp[j]);
            } else if !names_path(dp, last) {
                assert(d[dp.len() as int] == last);
                assert(same_path(d[dp.len() as int], list[k]));
            }
        }
        assert forall|i: int, j: int| 0 <= i < j < d.len() implies !same_path(
            #[trigger] d[i],
            #[trigger] d[j],
        ) by {
            if j == dp.len() {
                assert(d[i] == dp[i]);
                assert(!names_path(dp, last));
                assert(!same_path(dp[i], last));
            } else {
                assert(dp[i] == d[i] && dp[j] == d[j]);
            }
        }
    }
}

/// The directories searched: none is the working directory (an empty path),
/// no two name the same directory, and the system directories are always
/// among them.
pub proof fn lemma_search_directories(
    terminfo: Option<Seq<u8>>,
    home: Option<Seq<u8>>,
    terminfo_dirs: Option<Seq<u8>>,
)
    ensures
        ({
            let dirs = dedup(candidate_directories(terminfo, home, terminfo_dirs));
            &&& forall|i: int| 0 <= i < dirs.len() ==> (#[trigger] dirs[i]).len() > 0
            &&& forall|i: int, j: int|
                0 <= i < j < dirs.len() ==> !same_path(#[trigger] dirs[i], #[trigger] dirs[j])
            &&& forall|k: int| 0 <= k < 4 ==> names_path(dirs, #[trigger] system_directories()[k])
        }),
{
    let all = candidate_directories(terminfo, home, terminfo_dirs);
    let dirs = dedup(all);
    lemma_dedup(all);
    lemma_literals();
    lemma_dirs_nonempty(terminfo_dirs);
    assert forall|i: int| 0 <= i < all.len() implies (#[trigger] all[i]).len() > 0 by {
        let from_home = match home {
            Some(h) => if h.len() > 0 {
                seq![path_join(h, ".terminfo".spec_bytes())]
            } else {
                Seq::<Seq<u8>>::empty()
            },
            None => Seq::<Seq<u8>>::empty(),
        };
        let from_dirs = match terminfo_dirs {
            Some(d) => dirs_from(d, 0),
            None => Seq::<Seq<u8>>::empty(),
        };
        assert(all == nonempty(terminfo) + from_home + from_dirs + system_directories());
    }
    assert forall|i: int| 0 <= i < dirs.len() implies (#[trigger] dirs[i]).len() > 0 by {
        assert(all.contains(dirs[i]));
        let k = choose|k: int| 0 <= k < all.len() && all[k] == dirs[i];
    }
    assert forall|k: int| 0 <= k < 4 implies names_path(dirs, #[trigger] system_directories()[k]) by {
        let n = all.len() - 4;
        assert(all[n + k] == system_directories()[k]);
    }
}

proof fn lemma_dedup_keeps_first(list: Seq<Seq<u8>>)
    requires
        list.len() > 0,
    ensures
        dedup(list).len() > 0,
        dedup(list)[0] == list[0],
    decreases list.len(),
{
    let prefix = list.drop_last();
    if prefix.len() > 0 {
        lemma_dedup_keeps_first(prefix);
        assert(prefix[0] == list[0]);
    } else {
        assert(dedup(prefix) =~= Seq::<Seq<u8>>::empty());
        assert(!names_path(dedup(prefix), list.last()));
    }
}

/// A non-empty `TERMINFO` is searched first; without it, a non-empty `HOME`
/// gives the first directory, its `.terminfo`.
pub proof fn lemma_terminfo_searched_first(
    terminfo: Option<Seq<u8>>,
    home: Option<Seq<u8>>,
    terminfo_dirs: Option<Seq<u8>>,
)
    ensures
        terminfo is Some && terminfo->Some_0.len() > 0 ==> dedup(
            candidate_directories(terminfo, home, terminfo_dirs),
        )[0] == terminfo->Some_0,
        (terminfo is None || terminfo->Some_0.len() == 0) && home is Some && home->Some_0.len() > 0 ==> dedup(
            candidate_directories(terminfo, home, terminfo_dirs),
        )[0] == path_join(home->Some_0, ".terminfo".spec_bytes()),
{
    let all = candidate_directories(terminfo, home, terminfo_dirs);
    lemma_literals();
    assert(all.len() >= 4);
    lemma_dedup_keeps_first(all);
}

proof fn lemma_literals()
    ensures
        default_directory().len() > 0,
        ".terminfo".spec_bytes().len() > 0,
        forall|k: int| 0 <= k < 4 ==> (#[trigger] system_directories()[k]).len() > 0,
        system_directories().len() == 4,
{
    broadcast use vstd::string::is_ascii_spec_bytes;

    reveal_strlit("/usr/share/terminfo");
    reveal_strlit("/usr/share/misc/terminfo");
    reveal_strlit("/lib/terminfo");
    reveal_strlit("/usr/local/share/terminfo");
    reveal_strlit(".terminfo");
    assert(vstd::string::is_ascii("/usr/share/terminfo"));
    assert(vstd::string::is_ascii("/usr/share/misc/terminfo"));
    assert(vstd::string::is_ascii("/lib/terminfo"));
    assert(vstd::string::is_ascii("/usr/local/share/terminfo"));
    assert(vstd::string::is_ascii(".terminfo"));
}

proof fn lemma_dirs_nonempty(terminfo_dirs: Option<Seq<u8>>)
    ensures
        terminfo_dirs matches Some(d) ==> forall|i: int|
            0 <= i < dirs_from(d, 0).len() ==> (#[trigger] dirs_from(d, 0)[i]).len() > 0,
{
    if let Some(d) = terminfo_dirs {
        lemma_dirs_from_nonempty(d, 0);
    }
}

proof fn lemma_dirs_from_nonempty(paths: Seq<u8>, start: int)
    ensures
        forall|i: int| 0 <= i < dirs_from(paths, start).len() ==> (#[trigger] dirs_from(paths, start)[i]).len() > 0,
    decreases paths.len() - start,
{
    lemma_literals();
    if 0 <= start <= paths.len() {
        lemma_find_from(paths, 58, start);
        if let Some(p) = find_from(paths, 58, start) {
            lemma_dirs_from_nonempty(paths, p + 1);
            assert forall|i: int| 0 <= i < dirs_from(paths, start).len() implies (#[trigger] dirs_from(
                paths,
                start,
            )[i]).len() > 0 by {
                if i > 0 {
                    assert(dirs_from(paths, start)[i] == dirs_from(paths, p + 1)[i - 1]);
                }
            }
        }
    }
}

/// The bytes of an optional environment value.
pub open spec fn opt_bytes(value: Option<&[u8]>) -> Option<Seq<u8>> {
    match value {
        Some(v) => Some(v@),
        None => None,
    }
}

/// The names of the components of a path, as [`kept_pieces`] gives them.
fn path_names(p: &[u8]) -> (r: Vec<Vec<u8>>)
    ensures
        byte_strings(r@) == kept_pieces(path_pieces(p@, 0)),
{
    let mut out: Vec<Vec<u8>> = Vec::new();
    let ghost mut seen: Seq<Seq<u8>> = Seq::empty();
    let mut index: usize = 0;
    let mut start: usize = 0;
    loop
        invariant_except_break
            start <= p@.len(),
            index <= start,
            index == seen.len(),
            seen + path_pieces(p@, start as int) == path_pieces(p@, 0),
            byte_strings(out@) == kept_pieces(seen),
        ensures
            byte_strings(out@) == kept_pieces(path_pieces(p@, 0)),
        decreases p@.len() - start,
    {
        let found = find_byte(p, 47, start);
        proof {
            lemma_find_from(p@, 47, start as int);
        }
        let end = match found {
            Some(q) => q,
            None => p.len(),
        };
        let piece = &p[start..end];
        let keep = piece.len() > 0 && !(piece.len() == 1 && piece[0] == 46 && index != 0);
        proof {
            if piece@ == seq![46u8] {
                assert(piece@.len() == 1 && piece@[0] == 46);
            }
            if piece@.len() == 1 && piece@[0] == 46 {
                assert(piece@ =~= seq![46u8]);
            }
        }
        let ghost before = byte_strings(out@);
        let ghost next = seen.push(piece@);
        if keep {
            out.push(vstd::slice::slice_to_vec(piece));
        }
        proof {
            assert(next.drop_last() =~= seen);
            if keep {
                assert(byte_strings(out@) =~= before.push(piece@));
            } else {
                assert(byte_strings(out@) =~= before);
            }
        }
        match found {
            Some(q) => {
                proof {
                    assert(find_from(p@, 47, start as int) == Some(q as int));
                    assert(next + path_pieces(p@, q + 1) =~= seen + path_pieces(p@, start as int));
                    seen = next;
                }
                assert(q < p.len());
                index = index + 1;
                start = q + 1;
            },
            None => {
                proof {
                    assert(next =~= seen + path_pieces(p@, start as int));
                }
                break;
            },
        }
    }
    out
}

/// Checks whether two Unix paths have the same components.
pub fn paths_equal(a: &[u8], b: &[u8]) -> (r: bool)
    ensures
        r == same_path(a@, b@),
{
    let rooted_a = a.len() > 0 && a[0] == 47;
    let rooted_b = b.len() > 0 && b[0] == 47;
    if rooted_a != rooted_b {
        return false;
    }
    let names_a = path_names(a);
    let names_b = path_names(b);
    if names_a.len() != names_b.len() {
        assert(byte_strings(names_a@).len() != byte_strings(names_b@).len());
        return false;
    }
    let mut i: usize = 0;
    while i < names_a.len()
        invariant
            names_a@.len() == names_b@.len(),
            i <= names_a@.len(),
            byte_strings(names_a@) == kept_pieces(path_pieces(a@, 0)),
            byte_strings(names_b@) == kept_pieces(path_pieces(b@, 0)),
            is_rooted(a@) == is_rooted(b@),
            forall|j: int| 0 <= j < i ==> byte_strings(names_a@)[j] == byte_strings(names_b@)[j],
        decreases names_a.len() - i,
    {
        if !bytes_equal(names_a[i].as_slice(), names_b[i].as_slice()) {
            assert(byte_strings(names_a@)[i as int] != byte_strings(names_b@)[i as int]);
            return false;
        }
        i = i + 1;
    }
    assert(byte_strings(names_a@) =~= byte_strings(names_b@));
    true
}

/// Adds `directory` to `directories` unless one of them is already the same
/// path.
pub fn push_unique(directories: &mut Vec<Vec<u8>>, directory: Vec<u8>)
    ensures
        byte_strings(final(directories)@) == with_unique(byte_strings(old(directories)@), directory@),
{
    let mut i: usize = 0;
    while i < directories.len()
        invariant
            i <= directories@.len(),
            forall|j: int| 0 <= j < i ==> !same_path(#[trigger] byte_strings(directories@)[j], directory@),
        decreases directories.len() - i,
    {
        if paths_equal(directories[i].as_slice(), directory.as_slice()) {
            proof {
                assert(same_path(byte_strings(directories@)[i as int], directory@));
            }
            return;
        }
        i = i + 1;
    }
    let ghost before = byte_strings(directories@);
    directories.push(directory);
    proof {
        assert(!names_path(before, directory@));
        assert(byte_strings(directories@) =~= before.push(directory@));
    }
}

/// The directory that a `TERMINFO_DIRS` component names.
fn terminfo_dirs_component(piece: &[u8]) -> (r: Vec<u8>)
    ensures
        r@ == dirs_component(piece@),
{
    if piece.len() == 0 {
        vstd::slice::slice_to_vec("/usr/share/terminfo".as_bytes())
    } else {
        vstd::slice::slice_to_vec(piece)
    }
}

/// Splits `TERMINFO_DIRS` into directories.
fn split_terminfo_dirs(paths: &[u8]) -> (r: Vec<Vec<u8>>)
    ensures
        byte_strings(r@) == dirs_from(paths@, 0),
{
    let mut out: Vec<Vec<u8>> = Vec::new();
    let mut start: usize = 0;
    loop
        invariant_except_break
            start <= paths@.len(),
            byte_strings(out@) + dirs_from(paths@, start as int) == dirs_from(paths@, 0),
        ensures
            byte_strings(out@) == dirs_from(paths@, 0),
        decreases paths@.len() - start,
    {
        let ghost before = byte_strings(out@);
        let found = find_byte(paths, 58, start);
        proof {
            lemma_find_from(paths@, 58, start as int);
        }
        match found {
            Some(end) => {
                assert(find_from(paths@, 58, start as int) == Some(end as int));
                assert(end < paths.len());
                out.push(terminfo_dirs_component(&paths[start..end]));
                proof {
                    assert(byte_strings(out@) =~= before.push(
                        dirs_component(paths@.subrange(start as int, end as int)),
                    ));
                    assert(byte_strings(out@) + dirs_from(paths@, end + 1) =~= before + dirs_from(
                        paths@,
                        start as int,
                    ));
                }
                start = end + 1;
            },
            None => {
                out.push(terminfo_dirs_component(&paths[start..paths.len()]));
                proof {
                    assert(byte_strings(out@) =~= before + dirs_from(paths@, start as int));
                }
                break;
            },
        }
    }
    out
}

/// The directories to search for a compiled entry, in order and without
/// duplicates, given `TERMINFO`, `HOME` and `TERMINFO_DIRS`.
pub fn search_directories_from(
    terminfo: Option<&[u8]>,
    home: Option<&[u8]>,
    terminfo_dirs: Option<&[u8]>,
) -> (r: Vec<Vec<u8>>)
    ensures
        byte_strings(r@) == dedup(candidate_directories(opt_bytes(terminfo), opt_bytes(home), opt_bytes(terminfo_dirs))),
{
    let mut candidates: Vec<Vec<u8>> = Vec::new();
    match terminfo {
        Some(directory) => {
            if directory.len() > 0 {
                candidates.push(vstd::slice::slice_to_vec(directory));
            }
        },
        None => {},
    }
    match home {
        Some(home) => {
            if home.len() > 0 {
                candidates.push(join_path(home, ".terminfo".as_bytes()));
            }
        },
        None => {},
    }
    match terminfo_dirs {
        Some(paths) => {
            let mut split = split_terminfo_dirs(paths);
            candidates.append(&mut split);
        },
        None => {},
    }
    let ghost middle = byte_strings(candidates@);
    candidates.push(vstd::slice::slice_to_vec("/usr/share/terminfo".as_bytes()));
    candidates.push(vstd::slice::slice_to_vec("/usr/share/misc/terminfo".as_bytes()));
    candidates.push(vstd::slice::slice_to_vec("/lib/terminfo".as_bytes()));
    candidates.push(vstd::slice::slice_to_vec("/usr/local/share/terminfo".as_bytes()));
    let ghost all = candidate_directories(opt_bytes(terminfo), opt_bytes(home), opt_bytes(terminfo_dirs));
    proof {
        assert(middle + system_directories() =~= byte_strings(candidates@));
        assert(byte_strings(candidates@) =~= all);
    }

    let mut directories: Vec<Vec<u8>> = Vec::new();
    let mut i: usize = 0;
    while i < candidates.len()
        invariant
            i <= candidates@.len(),
            byte_strings(candidates@) == all,
            byte_strings(directories@) == dedup(all.take(i as int)),
        decreases candidates.len() - i,
    {
        let candidate = vstd::slice::slice_to_vec(candidates[i].as_slice());
        proof {
            assert(all.take(i + 1).drop_last() =~= all.take(i as int));
            assert(candidate@ == all[i as int]);
        }
        push_unique(&mut directories, candidate);
        i = i + 1;
    }
    proof {
        assert(all.take(i as int) =~= all);
    }
    directories
}

// ---------------------------------------------------------------------------
// Entry files
// ---------------------------------------------------------------------------

/// The lowercase hexadecimal digit for `n < 16`.
pub open spec fn hex_digit(n: int) -> u8 {
    if n < 10 {
        (48 + n) as u8
    } else {
        (87 + n) as u8
    }
}

/// The two lowercase hexadecimal digits of a byte.
pub open spec fn hex_name(b: u8) -> Seq<u8> {
    seq![hex_digit((b / 16) as int), hex_digit((b % 16) as int)]
}

/// The files that may hold the entry for `term` in `directory`: first under
/// the hexadecimal code of its first byte, then under the first byte itself.
pub open spec fn spec_entry_paths(directory: Seq<u8>, term: Seq<u8>) -> Seq<Seq<u8>> {
    if term.len() == 0 {
        Seq::empty()
    } else {
        seq![
            path_join(path_join(directory, hex_name(term[0])), term),
            path_join(path_join(directory, term.take(1)), term),
        ]
    }
}

fn hex_digit_of(n: u8) -> (r: u8)
    requires
        n < 16,
    ensures
        r == hex_digit(n as int),
{
    if n < 10 {
        48 + n
    } else {
        87 + n
    }
}

/// The files that may hold the entry for `term` in `directory`, in the order
/// they are tried.
pub fn entry_paths(directory: &[u8], term: &[u8]) -> (r: Vec<Vec<u8>>)
    ensures
        byte_strings(r@) == spec_entry_paths(directory@, term@),
{
    if term.len() == 0 {
        let r: Vec<Vec<u8>> = Vec::new();
        assert(byte_strings(r@) =~= Seq::<Seq<u8>>::empty());
        return r;
    }
    let first = term[0];
    let hex = vec![hex_digit_of(first / 16), hex_digit_of(first % 16)];
    assert(hex@ =~= hex_name(first));
    let by_hex = join_path(join_path(directory, hex.as_slice()).as_slice(), term);
    let by_byte = join_path(join_path(directory, &term[0..1]).as_slice(), term);
    let r = vec![by_hex, by_byte];
    assert(byte_strings(r@) =~= spec_entry_paths(directory@, term@));
    r
}

/// The files to try, in order, for `term` in `directories`.
pub open spec fn spec_lookup_paths(directories: Seq<Seq<u8>>, term: Seq<u8>) -> Seq<Seq<u8>>
    decreases directories.len(),
{
    if directories.len() == 0 {
        Seq::empty()
    } else {
        spec_lookup_paths(directories.drop_last(), term) + spec_entry_paths(directories.last(), term)
    }
}

/// The files to try, in order, for the entry of `term` in `directories`, or
/// [`Error::InvalidTermName`] when `term` cannot name an entry safely.
pub fn lookup_paths(term: &[u8], directories: &Vec<Vec<u8>>) -> (r: Result<Vec<Vec<u8>>, Error>)
    ensures
        !spec_is_valid_term_name(term@) ==> r == Err::<Vec<Vec<u8>>, Error>(Error::InvalidTermName),
        spec_is_valid_term_name(term@) ==> (r matches Ok(paths) && byte_strings(paths@) == spec_lookup_paths(
            byte_strings(directories@),
            term@,
        )),
{
    if !is_valid_term_name(term) {
        return Err(Error::InvalidTermName);
    }
    let ghost dirs = byte_strings(directories@);
    let mut paths: Vec<Vec<u8>> = Vec::new();
    let mut i: usize = 0;
    while i < directories.len()
        invariant
            i <= directories@.len(),
            dirs == byte_strings(directories@),
            byte_strings(paths@) == spec_lookup_paths(dirs.take(i as int), term@),
        decreases directories.len() - i,
    {
        let ghost before = byte_strings(paths@);
        let mut more = entry_paths(directories[i].as_slice(), term);
        paths.append(&mut more);
        proof {
            assert(dirs.take(i + 1).drop_last() =~= dirs.take(i as int));
            assert(byte_strings(paths@) =~= before + spec_entry_paths(dirs[i as int], term@));
        }
        i = i + 1;
    }
    proof {
        assert(dirs.take(i as int) =~= dirs);
    }
    Ok(paths)
}

/// The value of a lowercase hexadecimal digit.
pub open spec fn hex_value(c: u8) -> int {
    if 48 <= c <= 57 {
        c - 48
    } else {
        c - 87
    }
}

/// The subdirectory named after a byte is two lowercase hexadecimal digits,
/// high digit first, that spell the byte.
pub proof fn lemma_hex_name_spells_byte(b: u8)
    ensures
        hex_name(b).len() == 2,
        forall|k: int| 0 <= k < 2 ==> (48 <= #[trigger] hex_name(b)[k] <= 57 || 97 <= hex_name(b)[k] <= 102),
        16 * hex_value(hex_name(b)[0]) + hex_value(hex_name(b)[1]) == b,
{
}

/// The files tried for `term`, in the order of the directories: for the
/// `i`-th directory, its file under the hexadecimal code of the first byte
/// of `term` comes at position `2i` and its file under that byte itself at
/// `2i + 1`, so every file of an earlier directory is tried before any file
/// of a later one. An empty name gives no file.
pub proof fn lemma_lookup_paths_in_directory_order(directories: Seq<Seq<u8>>, term: Seq<u8>)
    ensures
        term.len() == 0 ==> spec_lookup_paths(directories, term).len() == 0,
        term.len() > 0 ==> spec_lookup_paths(directories, term).len() == 2 * directories.len(),
        term.len() > 0 ==> forall|i: int|
            0 <= i < directories.len() ==> {
                &&& spec_lookup_paths(directories, term)[2 * i] == path_join(
                    path_join(#[trigger] directories[i], seq![hex_digit((term[0] / 16) as int), hex_digit((term[0] % 16) as int)]),
                    term,
                )
                &&& spec_lookup_paths(directories, term)[2 * i + 1] == path_join(
                    path_join(directories[i], seq![term[0]]),
                    term,
                )
            },
    decreases directories.len(),
{
    if directories.len() > 0 {
        let prefix = directories.drop_last();
        lemma_lookup_paths_in_directory_order(prefix, term);
        if term.len() > 0 {
            let paths = spec_lookup_paths(directories, term);
            let head = spec_lookup_paths(prefix, term);
            assert(term.take(1) =~= seq![term[0]]);
            assert forall|i: int| 0 <= i < directories.len() implies {
                &&& paths[2 * i] == path_join(
                    path_join(#[trigger] directories[i], seq![hex_digit((term[0] / 16) as int), hex_digit((term[0] % 16) as int)]),
                    term,
                )
                &&& paths[2 * i + 1] == path_join(path_join(directories[i], seq![term[0]]), term)
            } by {
                if i < prefix.len() {
                    assert(prefix[i] == directories[i]);
                    assert(paths[2 * i] == head[2 * i]);
                    assert(paths[2 * i + 1] == head[2 * i + 1]);
                } else {
                    assert(paths[2 * i] == spec_entry_paths(directories.last(), term)[0]);
                    assert(paths[2 * i + 1] == spec_entry_paths(directories.last(), term)[1]);
                }
            }
        }
    }
}

/// Refuses an entry file larger than [`MAX_ENTRY_SIZE`].
pub fn bound_entry_size(data: Vec<u8>) -> (r: Result<Vec<u8>, Error>)
    ensures
        data@.len() > MAX_ENTRY_SIZE ==> r == Err::<Vec<u8>, Error>(Error::TooLarge),
        data@.len() <= MAX_ENTRY_SIZE ==> (r matches Ok(kept) && kept@ == data@),
{
    if data.len() > MAX_ENTRY_SIZE {
        Err(Error::TooLarge)
    } else {
        Ok(data)
    }
}

// ---------------------------------------------------------------------------
// Choosing an entry
// ---------------------------------------------------------------------------

/// What reading one candidate file gave: its bytes, or why there are none.
pub open spec fn read_view(read: Result<Vec<u8>, Error>) -> Result<Seq<u8>, Error> {
    match read {
        Ok(data) => Ok(data@),
        Err(e) => Err(e),
    }
}

/// What reading each of a list of candidate files gave.
pub open spec fn read_views(reads: Seq<Result<Vec<u8>, Error>>) -> Seq<Result<Seq<u8>, Error>> {
    reads.map_values(|read: Result<Vec<u8>, Error>| read_view(read))
}

/// A read that gives a valid compiled entry.
pub open spec fn is_valid_read(read: Result<Seq<u8>, Error>) -> bool {
    read matches Ok(data) && spec_layout(data) is Ok
}

/// The error that a read counts as: a missing file counts as none, a file
/// that is not a valid entry as the reason it is not.
pub open spec fn read_error(read: Result<Seq<u8>, Error>) -> Option<Error> {
    match read {
        Ok(data) => match spec_layout(data) {
            Ok(_) => None,
            Err(e) => Some(e),
        },
        Err(Error::NotFound) => None,
        Err(e) => Some(e),
    }
}

/// `first` if there is one, else `next`.
pub open spec fn keep_first(first: Option<Error>, next: Option<Error>) -> Option<Error> {
    match first {
        Some(e) => Some(e),
        None => next,
    }
}

/// The entry that a search gives from here on, having kept `first_error`:
/// the first read that is a valid entry, else the first error kept or met,
/// else [`Error::NotFound`].
pub open spec fn search_from(first_error: Option<Error>, reads: Seq<Result<Seq<u8>, Error>>) -> Result<Seq<u8>, Error>
    decreases reads.len(),
{
    if reads.len() == 0 {
        match first_error {
            Some(e) => Err(e),
            None => Err(Error::NotFound),
        }
    } else if is_valid_read(reads[0]) {
        Ok(reads[0]->Ok_0)
    } else {
        search_from(keep_first(first_error, read_error(reads[0])), reads.drop_first())
    }
}

/// The search for a compiled entry among candidate files read in order.
pub struct EntrySearch {
    first_error: Option<Error>,
}

impl View for EntrySearch {
    /// The first error met so far.
    type V = Option<Error>;

    closed spec fn view(&self) -> Option<Error> {
        self.first_error
    }
}

impl EntrySearch {
    /// Starts a search.
    pub fn new() -> (s: Self)
        ensures
            s@ is None,
    {
        EntrySearch { first_error: None }
    }

    /// Takes the result of reading the next candidate file; gives the entry
    /// back when it is valid.
    pub fn record(&mut self, read: Result<Vec<u8>, Error>) -> (found: Option<Vec<u8>>)
        ensures
            is_valid_read(read_view(read)) ==> (found matches Some(data) && Ok::<Seq<u8>, Error>(data@) == read_view(read)),
            is_valid_read(read_view(read)) ==> final(self)@ == old(self)@,
            !is_valid_read(read_view(read)) ==> found is None,
            !is_valid_read(read_view(read)) ==> final(self)@ == keep_first(old(self)@, read_error(read_view(read))),
    {
        match read {
            Ok(data) => match validate(data.as_slice()) {
                Ok(()) => Some(data),
                Err(error) => {
                    if self.first_error.is_none() {
                        self.first_error = Some(error);
                    }
                    None
                },
            },
            Err(Error::NotFound) => None,
            Err(error) => {
                if self.first_error.is_none() {
                    self.first_error = Some(error);
                }
                None
            },
        }
    }

    /// Ends a search that found no valid entry: the first error met, or
    /// [`Error::NotFound`].
    pub fn finish(&self) -> (e: Error)
        ensures
            search_from(self@, Seq::empty()) == Err::<Seq<u8>, Error>(e),
    {
        match self.first_error {
            Some(e) => e,
            None => Error::NotFound,
        }
    }
}

/// Chooses the compiled entry among the results of reading the candidate
/// files in order: the first valid entry, else the first error met, else
/// [`Error::NotFound`].
pub fn load_from_directories(reads: Vec<Result<Vec<u8>, Error>>) -> (r: Result<Vec<u8>, Error>)
    ensures
        read_view(r) == search_from(None, read_views(reads@)),
{
    let ghost all = read_views(reads@);
    let mut rest = reads;
    let mut search = EntrySearch::new();
    while rest.len() > 0
        invariant
            all == read_views(reads@),
            search_from(None, all) == search_from(search@, read_views(rest@)),
        decreases rest@.len(),
    {
        let ghost views = read_views(rest@);
        let read = rest.remove(0);
        proof {
            assert(views[0] == read_view(read));
            assert(views.drop_first() =~= read_views(rest@));
        }
        let ghost read_seen = read_view(read);
        match search.record(read) {
            Some(data) => {
                proof {
                    assert(is_valid_read(read_seen));
                    assert(views.len() > 0);
                    assert(search_from(None, all) == Ok::<Seq<u8>, Error>(views[0]->Ok_0));
                    assert(views[0]->Ok_0 == data@);
                }
                return Ok(data);
            },
            None => {},
        }
    }
    Err(search.finish())
}

/// A valid entry wins over every file before it that is missing or invalid,
/// whatever errors were met before.
pub proof fn lemma_first_valid_entry_wins(
    first_error: Option<Error>,
    reads: Seq<Result<Seq<u8>, Error>>,
    i: int,
)
    requires
        0 <= i < reads.len(),
        is_valid_read(reads[i]),
        forall|j: int| 0 <= j < i ==> !is_valid_read(#[trigger] reads[j]),
    ensures
        search_from(first_error, reads) == Ok::<Seq<u8>, Error>(reads[i]->Ok_0),
    decreases i,
{
    if i > 0 {
        assert(!is_valid_read(reads[0]));
        let next = keep_first(first_error, read_error(reads[0]));
        assert forall|j: int| 0 <= j < i - 1 implies !is_valid_read(#[trigger] reads.drop_first()[j]) by {
            assert(reads.drop_first()[j] == reads[j + 1]);
        }
        lemma_first_valid_entry_wins(next, reads.drop_first(), i - 1);
    }
}

/// A search only ever gives a valid entry, and one that was read.
pub proof fn lemma_search_gives_valid_entry(first_error: Option<Error>, reads: Seq<Result<Seq<u8>, Error>>)
    ensures
        search_from(first_error, reads) matches Ok(data) ==> spec_layout(data) is Ok && reads.contains(
            Ok::<Seq<u8>, Error>(data),
        ),
    decreases reads.len(),
{
    if reads.len() > 0 {
        if is_valid_read(reads[0]) {
            assert(reads[0] == Ok::<Seq<u8>, Error>(reads[0]->Ok_0));
        } else {
            let rest = reads.drop_first();
            lemma_search_gives_valid_entry(keep_first(first_error, read_error(reads[0])), rest);
            if let Ok(data) = search_from(first_error, reads) {
                let k = choose|k: int| 0 <= k < rest.len() && rest[k] == Ok::<Seq<u8>, Error>(data);
                assert(reads[k + 1] == rest[k]);
            }
        }
    }
}

/// When no file holds a valid entry, the search keeps the first error met.
pub proof fn lemma_first_error_is_kept(reads: Seq<Result<Seq<u8>, Error>>, i: int)
    requires
        0 <= i < reads.len(),
        forall|j: int| 0 <= j < reads.len() ==> !is_valid_read(#[trigger] reads[j]),
        read_error(reads[i]) is Some,
        forall|j: int| 0 <= j < i ==> (#[trigger] read_error(reads[j])) is None,
    ensures
        search_from(None, reads) == Err::<Seq<u8>, Error>(read_error(reads[i])->Some_0),
{
    lemma_search_keeps_error(None, reads, i);
}

proof fn lemma_search_keeps_error(first_error: Option<Error>, reads: Seq<Result<Seq<u8>, Error>>, i: int)
    requires
        0 <= i < reads.len(),
        forall|j: int| 0 <= j < reads.len() ==> !is_valid_read(#[trigger] reads[j]),
        read_error(reads[i]) is Some,
        forall|j: int| 0 <= j < i ==> (#[trigger] read_error(reads[j])) is None,
    ensures
        search_from(first_error, reads) == Err::<Seq<u8>, Error>(
            keep_first(first_error, read_error(reads[i]))->Some_0,
        ),
    decreases reads.len(),
{
    let rest = reads.drop_first();
    assert(!is_valid_read(reads[0]));
    let next = keep_first(first_error, read_error(reads[0]));
    assert forall|j: int| 0 <= j < rest.len() implies !is_valid_read(#[trigger] rest[j]) by {
        assert(rest[j] == reads[j + 1]);
    }
    if i > 0 {
        assert(read_error(reads[0]) is None);
        assert forall|j: int| 0 <= j < i - 1 implies (#[trigger] read_error(rest[j])) is None by {
            assert(rest[j] == reads[j + 1]);
        }
        lemma_search_keeps_error(next, rest, i - 1);
    } else {
        lemma_search_stays_failed(next, rest);
    }
}

proof fn lemma_search_stays_failed(first_error: Option<Error>, reads: Seq<Result<Seq<u8>, Error>>)
    requires
        first_error is Some,
        forall|j: int| 0 <= j < reads.len() ==> !is_valid_read(#[trigger] reads[j]),
    ensures
        search_from(first_error, reads) == Err::<Seq<u8>, Error>(first_error->Some_0),
    decreases reads.len(),
{
    if reads.len() > 0 {
        let rest = reads.drop_first();
        assert(!is_valid_read(reads[0]));
        assert forall|j: int| 0 <= j < rest.len() implies !is_valid_read(#[trigger] rest[j]) by {
            assert(rest[j] == reads[j + 1]);
        }
        lemma_search_stays_failed(first_error, rest);
    }
}

/// A search in which every candidate file is missing finds nothing.
pub proof fn lemma_all_missing_is_not_found(reads: Seq<Result<Seq<u8>, Error>>)
    requires
        forall|j: int| 0 <= j < reads.len() ==> #[trigger] reads[j] == Err::<Seq<u8>, Error>(Error::NotFound),
    ensures
        search_from(None, reads) == Err::<Seq<u8>, Error>(Error::NotFound),
    decreases reads.len(),
{
    if reads.len() > 0 {
        let rest = reads.drop_first();
        assert(reads[0] == Err::<Seq<u8>, Error>(Error::NotFound));
        assert forall|j: int| 0 <= j < rest.len() implies #[trigger] rest[j] == Err::<Seq<u8>, Error>(
            Error::NotFound,
        ) by {
            assert(rest[j] == reads[j + 1]);
        }
        lemma_all_missing_is_not_found(rest);
    }
}

} // verus!
