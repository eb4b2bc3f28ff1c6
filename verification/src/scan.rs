//! Directory footprint accounting. The surrounding application reads a
//! directory and hands the listing over as plain values; the logic here
//! decides the byte total and ranks candidate subdirectories, with the
//! edge policy pinned down: a missing or non-directory path counts 0, an
//! unreadable directory is a scan error, an unreadable entry is skipped.

use vstd::prelude::*;
use crate::rank::{stable_desc_ranking, stable_rank_desc};
use crate::snapshot::cap_u64;

verus! {

/// What a directory walk learned of one entry: its metadata could not be
/// read, it is a plain file of a known size, or it is something else
/// (a subdirectory, a symlink, a device).
#[derive(Clone, Copy, PartialEq, Eq, Structural, Debug)]
pub enum DirEntryInfo {
    MetaUnavailable,
    File { size: u64 },
    NotFile,
}

/// What the surrounding application saw when it tried to read a
/// directory: the path is missing or not a directory at all, the
/// directory exists but could not be read, or a listing was obtained.
pub enum DirListing {
    Missing,
    Unreadable,
    Entries(Vec<DirEntryInfo>),
}

/// The directory could not be read; carries the path it happened on.
#[derive(Debug)]
pub struct ScanError {
    pub path: String,
}

/// The bytes an entry contributes to its directory's total: a file's
/// size; everything else, subdirectory contents included, contributes 0.
pub open spec fn entry_size(e: DirEntryInfo) -> int {
    match e {
        DirEntryInfo::File { size } => size as int,
        _ => 0,
    }
}

/// Sum of the contributions of a listing's entries.
pub open spec fn sum_sizes(s: Seq<DirEntryInfo>) -> int
    decreases s.len(),
{
    if s.len() == 0 {
        0
    } else {
        sum_sizes(s.drop_last()) + entry_size(s.last())
    }
}

/// The byte total of a directory from its listing: the sum of the
/// immediate files' sizes, exact whenever it fits a `u64` and saturating
/// there above. A missing or non-directory path totals 0 rather than
/// failing; an unreadable directory is the one scan error; entries whose
/// metadata is unavailable are skipped silently.
pub fn size_of_listing(path: &str, listing: DirListing) -> (r: Result<u64, ScanError>)
    ensures
        listing is Missing ==> r == Ok::<u64, ScanError>(0u64),
        listing is Unreadable ==> r is Err && r->Err_0.path@ == path@,
        forall|es: Vec<DirEntryInfo>| listing == DirListing::Entries(es) ==> r == Ok::<
            u64,
            ScanError,
        >(cap_u64(sum_sizes(es@)) as u64),
        forall|es: Vec<DirEntryInfo>|
            listing == DirListing::Entries(es) && sum_sizes(es@) <= u64::MAX ==> r == Ok::<
                u64,
                ScanError,
            >(sum_sizes(es@) as u64),
{
    match listing {
        DirListing::Missing => Ok(0),
        DirListing::Unreadable => Err(ScanError { path: String::from_str(path) }),
        DirListing::Entries(es) => {
            let mut total: u64 = 0;
            let n = es.len();
            let mut i: usize = 0;
            proof {
                assert(es@.take(0) =~= Seq::<DirEntryInfo>::empty());
            }
            while i < n
                invariant
                    0 <= i <= n,
                    n == es@.len(),
                    total == cap_u64(sum_sizes(es@.take(i as int))),
                decreases n - i,
            {
                let ghost prefix = es@.take(i as int);
                let ghost prefix1 = es@.take(i as int + 1);
                proof {
                    assert(prefix1.drop_last() =~= prefix);
                    assert(prefix1.last() == es@[i as int]);
                }
                match es[i] {
                    DirEntryInfo::File { size } => {
                        total = if size > u64::MAX - total {
                            u64::MAX
                        } else {
                            total + size
                        };
                    },
                    DirEntryInfo::MetaUnavailable => {},
                    DirEntryInfo::NotFile => {},
                }
                i = i + 1;
            }
            proof {
                assert(es@.take(n as int) =~= es@);
            }
            Ok(total)
        },
    }
}

/// One candidate subdirectory with its scanned byte total.
pub struct SubdirSize {
    pub name: String,
    pub size: u64,
}

impl SubdirSize {
    pub fn duplicate(&self) -> (r: SubdirSize)
        ensures
            r == *self,
    {
        SubdirSize { name: self.name.clone(), size: self.size }
    }
}

/// The candidates that scanned to a nonzero size, in their given order.
pub open spec fn nonzero_seq(s: Seq<SubdirSize>) -> Seq<SubdirSize> {
    s.filter(|e: SubdirSize| e.size > 0)
}

/// The sizes of a candidate list, position by position.
pub open spec fn size_keys(s: Seq<SubdirSize>) -> Seq<u64> {
    Seq::new(s.len(), |i: int| s[i].size)
}

/// How many ranked subdirectories are reported.
pub const SUBDIR_REPORT_LIMIT: usize = 2;

/// `out` is the top of the nonzero candidates by size, largest first,
/// ties in their original order.
pub open spec fn is_ranked_subdirs(cands: Seq<SubdirSize>, out: Seq<SubdirSize>) -> bool {
    let nz = nonzero_seq(cands);
    exists|idx: Seq<usize>|
        {
            &&& #[trigger] stable_desc_ranking(size_keys(nz), idx)
            &&& out.len() == vstd::math::min(SUBDIR_REPORT_LIMIT as int, nz.len() as int)
            &&& forall|k: int| 0 <= k < out.len() ==> out[k] == nz[idx[k] as int]
        }
}

/// Ranks scanned candidate subdirectories: zero-size results are
/// discarded, the rest sorted by size descending (stable), and the top
/// `SUBDIR_REPORT_LIMIT` returned.
pub fn rank_subdirectories(cands: &Vec<SubdirSize>) -> (r: Vec<SubdirSize>)
    ensures
        r@.len() == vstd::math::min(SUBDIR_REPORT_LIMIT as int, nonzero_seq(cands@).len() as int),
        is_ranked_subdirs(cands@, r@),
        forall|a: int, b: int| 0 <= a < b < r@.len() ==> (#[trigger] r@[a]).size
            >= (#[trigger] r@[b]).size,
{
    let mut nz: Vec<SubdirSize> = Vec::new();
    let n = cands.len();
    let mut i: usize = 0;
    proof {
        assert(cands@.take(0) =~= Seq::<SubdirSize>::empty());
        reveal(Seq::filter);
        assert(nonzero_seq(cands@.take(0)) =~= Seq::<SubdirSize>::empty());
    }
    while i < n
        invariant
            0 <= i <= n,
            n == cands@.len(),
            nz@ == nonzero_seq(cands@.take(i as int)),
        decreases n - i,
    {
        let ghost prefix = cands@.take(i as int);
        let ghost prefix1 = cands@.take(i as int + 1);
        let e = &cands[i];
        proof {
            reveal(Seq::filter);
            assert(prefix1.drop_last() =~= prefix);
            assert(prefix1.last() == cands@[i as int]);
            assert(*e == cands@[i as int]);
        }
        if e.size > 0 {
            nz.push(e.duplicate());
            proof {
                assert(nonzero_seq(prefix1) =~= nonzero_seq(prefix).push(*e));
            }
        } else {
            proof {
                assert(nonzero_seq(prefix1) =~= nonzero_seq(prefix));
            }
        }
        i = i + 1;
    }
    proof {
        assert(cands@.take(n as int) =~= cands@);
    }
    let mut keys: Vec<u64> = Vec::new();
    let mut t: usize = 0;
    let m = nz.len();
    while t < m
        invariant
            0 <= t <= m,
            m == nz@.len(),
            keys@.len() == t,
            forall|k: int| 0 <= k < t ==> keys@[k] == nz@[k].size,
        decreases m - t,
    {
        keys.push(nz[t].size);
        t = t + 1;
    }
    proof {
        assert(keys@ =~= size_keys(nz@));
    }
    let idx = stable_rank_desc(&keys);
    let mut r: Vec<SubdirSize> = Vec::new();
    let take: usize = if SUBDIR_REPORT_LIMIT < m {
        SUBDIR_REPORT_LIMIT
    } else {
        m
    };
    let mut k: usize = 0;
    while k < take
        invariant
            0 <= k <= take,
            take == vstd::math::min(SUBDIR_REPORT_LIMIT as int, nz@.len() as int),
            keys@.len() == nz@.len(),
            idx@.len() == nz@.len(),
            stable_desc_ranking(keys@, idx@),
            r@.len() == k,
            forall|q: int| 0 <= q < k ==> r@[q] == nz@[idx@[q] as int],
        decreases take - k,
    {
        r.push(nz[idx[k]].duplicate());
        k = k + 1;
    }
    proof {
        assert(nz@ == nonzero_seq(cands@));
        assert(is_ranked_subdirs(cands@, r@));
        assert forall|a: int, b: int| 0 <= a < b < r@.len() implies (#[trigger] r@[a]).size
            >= (#[trigger] r@[b]).size by {
            let ia = idx@[a] as int;
            let ib = idx@[b] as int;
            assert(crate::rank::precede(keys@, ia, ib));
            assert(keys@[ia] == nz@[ia].size);
            assert(keys@[ib] == nz@[ib].size);
        }
    }
    r
}

} // verus!
