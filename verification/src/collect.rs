//! The path collector: given what the filesystem reported about a root
//! (a plain listing, gathered outside the library), decide which paths are
//! candidate rip logs.

use vstd::prelude::*;

verus! {

/// One entry met while walking a directory root: its full path and
/// whether it is a regular file.
#[derive(Clone, Debug)]
pub struct WalkedEntry {
    pub path: Vec<u8>,
    pub is_file: bool,
}

/// What inspecting the root revealed: a regular file, a directory with
/// its recursively walked entries in traversal order, an uninspectable
/// path, or some other kind of filesystem entry.
#[derive(Clone, Debug)]
pub enum RootListing {
    RegularFile,
    Directory(Vec<WalkedEntry>),
    NotAccessible,
    OtherKind,
}

/// A fatal input error, reported before analysis starts.
#[derive(PartialEq, Eq, Structural, Clone, Copy, Debug)]
pub enum InputError {
    /// The root could not be inspected.
    NotAccessible,
    /// A directory root contained no candidate log.
    EmptyResult,
    /// The root is neither a regular file nor a directory.
    InvalidInput,
}

/// Lowercase image of an ASCII byte: `'A'..='Z'` (65..=90) map down by 32.
pub open spec fn spec_ascii_lower(c: u8) -> u8 {
    if 65 <= c <= 90 {
        (c + 32) as u8
    } else {
        c
    }
}

/// The suffix `".log"` that marks a candidate, lowercased.
pub open spec fn spec_log_ext() -> Seq<u8> {
    seq![108u8, 111u8, 103u8]
}

/// Index just past the last path separator (`'/'` or `'\'`) of `p`, or 0
/// when `p` holds none.
pub open spec fn spec_name_start(p: Seq<u8>) -> int
    decreases p.len(),
{
    if p.len() == 0 {
        0
    } else if p.last() == 47 || p.last() == 92 {
        p.len() as int
    } else {
        spec_name_start(p.drop_last())
    }
}

/// The file name of a path: everything after its last separator.
pub open spec fn spec_file_name(p: Seq<u8>) -> Seq<u8> {
    p.subrange(spec_name_start(p), p.len() as int)
}

/// Index of the last `'.'` of `name`, or `-1` when it holds none.
pub open spec fn spec_last_dot(name: Seq<u8>) -> int
    decreases name.len(),
{
    if name.len() == 0 {
        -1
    } else if name.last() == 46 {
        name.len() - 1
    } else {
        spec_last_dot(name.drop_last())
    }
}

/// The extension of a file name: what follows its last `'.'`, provided
/// that dot is not the leading byte; `None` otherwise.
pub open spec fn spec_extension(name: Seq<u8>) -> Option<Seq<u8>> {
    let d = spec_last_dot(name);
    if d <= 0 {
        None
    } else {
        Some(name.subrange(d + 1, name.len() as int))
    }
}

/// Whether a walked entry is a candidate: a regular file whose name's
/// extension, lowercased, is `"log"`.
pub open spec fn spec_is_candidate(e: WalkedEntry) -> bool {
    e.is_file && match spec_extension(spec_file_name(e.path@)) {
        Some(ext) => ext.map_values(|c: u8| spec_ascii_lower(c)) == spec_log_ext(),
        None => false,
    }
}

/// The paths of the candidate entries of `es`, in traversal order.
pub open spec fn spec_candidates(es: Seq<WalkedEntry>) -> Seq<Seq<u8>>
    decreases es.len(),
{
    if es.len() == 0 {
        Seq::empty()
    } else if spec_is_candidate(es.first()) {
        seq![es.first().path@] + spec_candidates(es.drop_first())
    } else {
        spec_candidates(es.drop_first())
    }
}

/// How many entries of `es` are candidates.
pub open spec fn spec_candidate_count(es: Seq<WalkedEntry>) -> int
    decreases es.len(),
{
    if es.len() == 0 {
        0
    } else {
        (if spec_is_candidate(es.first()) {
            1int
        } else {
            0int
        }) + spec_candidate_count(es.drop_first())
    }
}

/// The views of a vector of byte paths.
pub open spec fn spec_paths_view(v: Seq<Vec<u8>>) -> Seq<Seq<u8>> {
    v.map_values(|p: Vec<u8>| p@)
}

/// What collecting must return for a given root path and listing.
pub open spec fn spec_collect_result(root: Seq<u8>, listing: RootListing) -> Result<
    Seq<Seq<u8>>,
    InputError,
> {
    match listing {
        RootListing::RegularFile => Ok(seq![root]),
        RootListing::Directory(es) => if spec_candidates(es@).len() == 0 {
            Err(InputError::EmptyResult)
        } else {
            Ok(spec_candidates(es@))
        },
        RootListing::NotAccessible => Err(InputError::NotAccessible),
        RootListing::OtherKind => Err(InputError::InvalidInput),
    }
}

fn ascii_lower(c: u8) -> (r: u8)
    ensures
        r == spec_ascii_lower(c),
{
    if 65 <= c && c <= 90 {
        c + 32
    } else {
        c
    }
}

/// Index just past the last separator of `p`.
fn name_start(p: &Vec<u8>) -> (r: usize)
    ensures
        r == spec_name_start(p@),
        r <= p@.len(),
{
    let mut i: usize = p.len();
    proof {
        assert(p@.subrange(0, p@.len() as int) =~= p@);
    }
    while i > 0
        invariant
            i <= p.len(),
            spec_name_start(p@) == spec_name_start(p@.subrange(0, i as int)),
        decreases i,
    {
        let c = p[i - 1];
        proof {
            let pre = p@.subrange(0, i as int);
            assert(pre.last() == p@[i - 1]);
            if !(c == 47 || c == 92) {
                assert(pre.drop_last() =~= p@.subrange(0, i - 1));
            }
        }
        if c == 47 || c == 92 {
            return i;
        }
        i -= 1;
    }
    proof {
        assert(p@.subrange(0, 0) =~= Seq::<u8>::empty());
    }
    0
}

/// Index of the last dot of `name`, or `name.len()` when it holds none
/// (a sentinel, since the spec uses `-1`).
fn last_dot(name: &Vec<u8>) -> (r: Option<usize>)
    ensures
        match r {
            Some(d) => spec_last_dot(name@) == d && d < name@.len(),
            None => spec_last_dot(name@) == -1,
        },
{
    let mut i: usize = name.len();
    proof {
        assert(name@.subrange(0, name@.len() as int) =~= name@);
    }
    while i > 0
        invariant
            i <= name.len(),
            spec_last_dot(name@) == spec_last_dot(name@.subrange(0, i as int)),
        decreases i,
    {
        let c = name[i - 1];
        proof {
            let pre = name@.subrange(0, i as int);
            assert(pre.last() == name@[i - 1]);
            if c != 46 {
                assert(pre.drop_last() =~= name@.subrange(0, i - 1));
            }
        }
        if c == 46 {
            return Some(i - 1);
        }
        i -= 1;
    }
    proof {
        assert(name@.subrange(0, 0) =~= Seq::<u8>::empty());
    }
    None
}

/// The file name of a path: everything after its last separator.
pub fn file_name(p: &Vec<u8>) -> (name: Vec<u8>)
    ensures
        name@ == spec_file_name(p@),
{
    let start = name_start(p);
    let mut name: Vec<u8> = Vec::new();
    let mut k: usize = start;
    proof {
        assert(name@ =~= p@.subrange(start as int, start as int));
    }
    while k < p.len()
        invariant
            start <= k <= p.len(),
            start == spec_name_start(p@),
            name@ == p@.subrange(start as int, k as int),
        decreases p.len() - k,
    {
        let c = p[k];
        name.push(c);
        proof {
            assert(name@ =~= p@.subrange(start as int, k + 1 as int));
        }
        k += 1;
    }
    proof {
        assert(name@ =~= spec_file_name(p@));
    }
    name
}

/// Whether `e` is a candidate rip log: a regular file with extension
/// `".log"` in any case.
pub fn is_log_candidate(e: &WalkedEntry) -> (r: bool)
    ensures
        r == spec_is_candidate(*e),
{
    if !e.is_file {
        return false;
    }
    let name = file_name(&e.path);
    let d = match last_dot(&name) {
        Some(d) => d,
        None => {
            return false;
        },
    };
    if d == 0 {
        return false;
    }
    // Compare the lowercased extension with "log".
    if name.len() - d - 1 != 3 {
        proof {
            let ext = spec_extension(name@).unwrap();
            assert(ext.len() != 3);
            assert(ext.map_values(|c: u8| spec_ascii_lower(c)).len() == ext.len());
        }
        return false;
    }
    let ghost ext = name@.subrange(d + 1, name@.len() as int);
    let ghost lowered = ext.map_values(|c: u8| spec_ascii_lower(c));
    let e0 = ascii_lower(name[d + 1]);
    let e1 = ascii_lower(name[d + 2]);
    let e2 = ascii_lower(name[d + 3]);
    proof {
        assert(lowered.len() == 3);
        assert(lowered[0] == spec_ascii_lower(name@[d + 1]));
        assert(lowered[1] == spec_ascii_lower(name@[d + 2]));
        assert(lowered[2] == spec_ascii_lower(name@[d + 3]));
    }
    let r = e0 == 108 && e1 == 111 && e2 == 103;
    proof {
        if r {
            assert(lowered =~= spec_log_ext());
        } else {
            assert(lowered != spec_log_ext());
        }
    }
    r
}

/// Collect the candidate paths for a root. A regular-file root is the
/// single candidate whatever its name; a directory root yields its
/// matching entries in traversal order, or `EmptyResult` when there are
/// none; an uninspectable root fails with `NotAccessible`; any other
/// entry kind fails with `InvalidInput`.
pub fn collect_candidates(root_path: &Vec<u8>, listing: RootListing) -> (r: Result<
    Vec<Vec<u8>>,
    InputError,
>)
    ensures
        match (r, spec_collect_result(root_path@, listing)) {
            (Ok(v), Ok(s)) => spec_paths_view(v@) == s,
            (Err(e), Err(f)) => e == f,
            _ => false,
        },
{
    match listing {
        RootListing::RegularFile => {
            let mut v: Vec<Vec<u8>> = Vec::new();
            v.push(root_path.clone());
            proof {
                assert(spec_paths_view(v@) =~= seq![root_path@]);
            }
            Ok(v)
        },
        RootListing::Directory(es) => {
            let mut out: Vec<Vec<u8>> = Vec::new();
            let mut i: usize = 0;
            proof {
                assert(es@.skip(0) =~= es@);
                assert(spec_paths_view(out@) + spec_candidates(es@.skip(0))
                    =~= spec_candidates(es@));
            }
            while i < es.len()
                invariant
                    i <= es.len(),
                    spec_candidates(es@) == spec_paths_view(out@) + spec_candidates(
                        es@.skip(i as int),
                    ),
                decreases es.len() - i,
            {
                let ghost before = out@;
                proof {
                    assert(es@.skip(i as int).first() == es@[i as int]);
                    assert(es@.skip(i as int).drop_first() =~= es@.skip(i + 1));
                }
                if is_log_candidate(&es[i]) {
                    out.push(es[i].path.clone());
                    proof {
                        assert(spec_paths_view(out@) =~= spec_paths_view(before) + seq![
                            es@[i as int].path@,
                        ]);
                        assert(spec_paths_view(out@) + spec_candidates(es@.skip(i + 1))
                            =~= spec_candidates(es@));
                    }
                }
                i += 1;
            }
            proof {
                assert(es@.skip(es@.len() as int) =~= Seq::<WalkedEntry>::empty());
                assert(spec_paths_view(out@) =~= spec_candidates(es@));
            }
            if out.len() == 0 {
                Err(InputError::EmptyResult)
            } else {
                Ok(out)
            }
        },
        RootListing::NotAccessible => Err(InputError::NotAccessible),
        RootListing::OtherKind => Err(InputError::InvalidInput),
    }
}

/// The collector returns exactly as many candidates as there are matching
/// entries: a directory with N matching and M non-matching entries yields
/// N candidate paths.
pub proof fn lemma_candidate_count(es: Seq<WalkedEntry>)
    ensures
        spec_candidates(es).len() == spec_candidate_count(es),
        spec_candidate_count(es) >= 0,
    decreases es.len(),
{
    if es.len() > 0 {
        lemma_candidate_count(es.drop_first());
    }
}

/// Every candidate path comes from a matching entry of the listing.
pub proof fn lemma_candidates_from_entries(es: Seq<WalkedEntry>, k: int)
    requires
        0 <= k < spec_candidates(es).len(),
    ensures
        exists|j: int|
            0 <= j < es.len() && spec_is_candidate(es[j]) && es[j].path@ == spec_candidates(es)[k],
    decreases es.len(),
{
    if es.len() > 0 {
        if spec_is_candidate(es.first()) {
            if k == 0 {
                assert(spec_is_candidate(es[0]) && es[0].path@ == spec_candidates(es)[0]);
            } else {
                lemma_candidates_from_entries(es.drop_first(), k - 1);
                let j = choose|j: int|
                    0 <= j < es.drop_first().len() && spec_is_candidate(es.drop_first()[j])
                        && es.drop_first()[j].path@ == spec_candidates(es.drop_first())[k - 1];
                assert(spec_is_candidate(es[j + 1]) && es[j + 1].path@ == spec_candidates(es)[k]);
            }
        } else {
            lemma_candidates_from_entries(es.drop_first(), k);
            let j = choose|j: int|
                0 <= j < es.drop_first().len() && spec_is_candidate(es.drop_first()[j])
                    && es.drop_first()[j].path@ == spec_candidates(es.drop_first())[k];
            assert(spec_is_candidate(es[j + 1]) && es[j + 1].path@ == spec_candidates(es)[k]);
        }
    }
}

} // verus!
