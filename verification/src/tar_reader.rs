//! TAR and gzip-compressed TAR archives, fully loaded into memory.

use crate::archive::{check_index, is_image_file, is_image_name, ArchiveEntry, ArchiveError, ArchiveReader};
use crate::natural_sort::{natural_order, natural_order_str, lemma_natural_order_antisymmetric, lemma_natural_order_transitive};
use vstd::prelude::*;

verus! {

broadcast use vstd::seq_lib::group_to_multiset_ensures;

/// One member of a TAR archive as the `tar` crate hands it out.
pub struct TarMember {
    pub name: String,
    pub is_dir: bool,
    pub data: Vec<u8>,
}

/// Name, directory flag and data of a member.
pub type MemberView = (Seq<char>, bool, Seq<u8>);

/// Views of TAR members.
pub open spec fn members_view(v: Seq<TarMember>) -> Seq<MemberView> {
    v.map_values(|m: TarMember| (m.name@, m.is_dir, m.data@))
}

/// The members that the `tar` crate reads from the gzip-decoded stream of
/// `data`, in archive order; `None` when decoding or reading fails.
pub uninterp spec fn tar_gz_members(data: Seq<u8>) -> Option<Seq<MemberView>>;

/// The members that the `tar` crate reads from `data`, in archive order; `None`
/// when reading fails.
pub uninterp spec fn tar_members(data: Seq<u8>) -> Option<Seq<MemberView>>;

/// `tar::Archive::new` over the bytes and `Archive::entries`; each entry
/// converted to its path (`to_string_lossy`), whether its header's entry type
/// is a directory, and its data (`Read::read_to_end`). The contract names the
/// listing, a function of the input alone.
#[verifier::external_body]
fn tar_list(data: &[u8]) -> (r: Result<Vec<TarMember>, std::io::Error>)
    ensures
        r is Ok <==> tar_members(data@) is Some,
        r matches Ok(v) ==> members_view(v@) == tar_members(data@).unwrap(),
{
    let mut archive = tar::Archive::new(data);
    let mut out = Vec::new();
    for entry in archive.entries()? {
        let mut entry = entry?;
        let name = entry.path()?.to_string_lossy().to_string();
        let is_dir = entry.header().entry_type().is_dir();
        let mut bytes = Vec::new();
        std::io::Read::read_to_end(&mut entry, &mut bytes)?;
        out.push(TarMember { name, is_dir, data: bytes });
    }
    Ok(out)
}

/// `tar::Archive::new` over `flate2::read::GzDecoder::new` over the bytes,
/// and `Archive::entries`, each entry converted as `tar_list` converts it. The
/// stream is decoded only as far as the archive is read. The contract names
/// the listing, a function of the input alone.
#[verifier::external_body]
fn tar_gz_list(data: &[u8]) -> (r: Result<Vec<TarMember>, std::io::Error>)
    ensures
        r is Ok <==> tar_gz_members(data@) is Some,
        r matches Ok(v) ==> members_view(v@) == tar_gz_members(data@).unwrap(),
{
    let mut archive = tar::Archive::new(flate2::read::GzDecoder::new(data));
    let mut out = Vec::new();
    for entry in archive.entries()? {
        let mut entry = entry?;
        let name = entry.path()?.to_string_lossy().to_string();
        let is_dir = entry.header().entry_type().is_dir();
        let mut bytes = Vec::new();
        std::io::Read::read_to_end(&mut entry, &mut bytes)?;
        out.push(TarMember { name, is_dir, data: bytes });
    }
    Ok(out)
}

/// The members read from the archive: as a gzip-compressed TAR when that
/// succeeds, as a plain TAR otherwise.
pub open spec fn tar_source(data: Seq<u8>) -> Option<Seq<MemberView>> {
    match tar_gz_members(data) {
        Some(m) => Some(m),
        None => tar_members(data),
    }
}

/// Name and data of the members that are image files, in archive order.
pub open spec fn page_members(ms: Seq<MemberView>) -> Seq<(Seq<char>, Seq<u8>)>
    decreases ms.len(),
{
    if ms.len() == 0 {
        seq![]
    } else {
        let rest = page_members(ms.drop_last());
        let m = ms.last();
        if !m.1 && is_image_name(m.0) {
            rest.push((m.0, m.2))
        } else {
            rest
        }
    }
}

/// Views of (name, data) pairs.
pub open spec fn pairs_view(v: Seq<(String, Vec<u8>)>) -> Seq<(Seq<char>, Seq<u8>)> {
    v.map_values(|p: (String, Vec<u8>)| (p.0@, p.1@))
}

/// Every neighbouring pair of entries is in natural order of names.
pub open spec fn pairs_sorted(s: Seq<(Seq<char>, Seq<u8>)>) -> bool {
    forall|i: int| 0 <= i < s.len() - 1 ==> natural_order((#[trigger] s[i]).0, s[i + 1].0) <= 0
}

/// Every entry's name is in natural order with every later entry's name.
pub open spec fn pairs_in_order(s: Seq<(Seq<char>, Seq<u8>)>) -> bool {
    forall|i: int, j: int| 0 <= i < j < s.len() ==> natural_order((#[trigger] s[i]).0, (#[trigger] s[j]).0) <= 0
}

/// `after` holds the entries of `before` rearranged: entry `i` of `after` is
/// entry `perm[i]` of `before`, each entry used once, and two entries whose
/// names compare equal stand in the order they stood in `before`.
pub open spec fn stable_pairs(before: Seq<(Seq<char>, Seq<u8>)>, after: Seq<(Seq<char>, Seq<u8>)>, perm: Seq<int>) -> bool {
    &&& perm.len() == after.len()
    &&& after.len() == before.len()
    &&& forall|i: int| 0 <= i < after.len() ==> 0 <= #[trigger] perm[i] < before.len() && after[i] == before[perm[i]]
    &&& forall|i: int, j: int| 0 <= i < j < after.len() ==> #[trigger] perm[i] != #[trigger] perm[j]
    &&& forall|i: int, j: int|
        0 <= i < j < after.len() && natural_order(after[i].0, after[j].0) == 0 ==> #[trigger] perm[i] < #[trigger] perm[j]
}

proof fn lemma_pairs_chain(s: Seq<(Seq<char>, Seq<u8>)>, i: int, j: int)
    requires
        pairs_sorted(s),
        0 <= i < j < s.len(),
    ensures
        natural_order(s[i].0, s[j].0) <= 0,
    decreases j - i,
{
    if j > i + 1 {
        lemma_pairs_chain(s, i, j - 1);
        assert(natural_order(s[j - 1].0, s[j].0) <= 0);
        lemma_natural_order_transitive(s[i].0, s[j - 1].0, s[j].0);
    }
}

proof fn lemma_pairs_all(s: Seq<(Seq<char>, Seq<u8>)>)
    requires
        pairs_sorted(s),
    ensures
        pairs_in_order(s),
{
    assert forall|i: int, j: int| 0 <= i < j < s.len() implies natural_order((#[trigger] s[i]).0, (#[trigger] s[j]).0) <= 0 by {
        lemma_pairs_chain(s, i, j);
    }
}

/// Sorts (name, data) pairs by the natural order of their names, stably.
fn sort_by_name(items: Vec<(String, Vec<u8>)>) -> (r: Vec<(String, Vec<u8>)>)
    ensures
        pairs_view(r@).to_multiset() == pairs_view(items@).to_multiset(),
        pairs_sorted(pairs_view(r@)),
        pairs_in_order(pairs_view(r@)),
        exists|perm: Seq<int>| #[trigger] stable_pairs(pairs_view(items@), pairs_view(r@), perm),
{
    let ghost orig = items@;
    let ghost ov = pairs_view(orig);
    let mut items = items;
    let mut out: Vec<(String, Vec<u8>)> = Vec::new();
    let ghost mut k: int = 0;
    let ghost mut perm: Seq<int> = Seq::empty();
    assert(orig.take(0) =~= Seq::<(String, Vec<u8>)>::empty());
    assert(orig.skip(0) =~= orig);
    while items.len() > 0
        invariant
            0 <= k <= orig.len(),
            items@ == orig.skip(k),
            pairs_view(out@).to_multiset() == pairs_view(orig.take(k)).to_multiset(),
            pairs_sorted(pairs_view(out@)),
            ov == pairs_view(orig),
            perm.len() == out@.len(),
            out@.len() == k,
            forall|i: int| 0 <= i < out@.len() ==> 0 <= #[trigger] perm[i] < k && pairs_view(out@)[i] == ov[perm[i]],
            forall|i: int, j: int| 0 <= i < j < out@.len() ==> #[trigger] perm[i] != #[trigger] perm[j],
            forall|i: int, j: int|
                0 <= i < j < out@.len() && natural_order(pairs_view(out@)[i].0, pairs_view(out@)[j].0) == 0 ==> #[trigger] perm[i]
                    < #[trigger] perm[j],
        decreases items.len(),
    {
        let x = items.remove(0);
        assert(x == orig[k]);
        assert(orig.skip(k).remove(0) =~= orig.skip(k + 1));
        assert(orig.take(k + 1) =~= orig.take(k).push(x));
        let mut p = out.len();
        while p > 0 && natural_order_str(out[p - 1].0.as_str(), x.0.as_str()) > 0
            invariant
                p <= out.len(),
                forall|q: int| p <= q < out.len() ==> natural_order((#[trigger] out@[q]).0@, x.0@) > 0,
            decreases p,
        {
            p = p - 1;
        }
        let ghost before = out@;
        let ghost xv = (x.0@, x.1@);
        proof {
            if p < before.len() {
                lemma_natural_order_antisymmetric(before[p as int].0@, x.0@);
            }
        }
        out.insert(p, x);
        proof {
            assert(pairs_view(out@) =~= pairs_view(before).insert(p as int, xv));
            let old_perm = perm;
            perm = perm.insert(p as int, k);
            let s = pairs_view(out@);
            let b = pairs_view(before);
            assert(ov[k] == xv);
            assert forall|i: int| 0 <= i < s.len() implies 0 <= #[trigger] perm[i] < k + 1 && s[i] == ov[perm[i]] by {
                if i < p {
                    assert(perm[i] == old_perm[i] && s[i] == b[i]);
                } else if i > p {
                    assert(perm[i] == old_perm[i - 1] && s[i] == b[i - 1]);
                }
            }
            assert forall|i: int, j: int| 0 <= i < j < s.len() implies #[trigger] perm[i] != #[trigger] perm[j] by {
                if i != p && j != p {
                    let i0 = if i < p { i } else { i - 1 };
                    let j0 = if j < p { j } else { j - 1 };
                    assert(perm[i] == old_perm[i0] && perm[j] == old_perm[j0]);
                } else if i == p {
                    assert(perm[j] == old_perm[j - 1]);
                } else {
                    assert(perm[i] == old_perm[i]);
                }
            }
            assert forall|i: int, j: int|
                0 <= i < j < s.len() && natural_order(s[i].0, s[j].0) == 0 implies #[trigger] perm[i] < #[trigger] perm[j] by {
                if i != p && j != p {
                    let i0 = if i < p { i } else { i - 1 };
                    let j0 = if j < p { j } else { j - 1 };
                    assert(perm[i] == old_perm[i0] && perm[j] == old_perm[j0]);
                    assert(s[i] == b[i0] && s[j] == b[j0]);
                } else if i == p {
                    assert(s[j] == b[j - 1]);
                    assert(natural_order(before[j - 1].0@, x.0@) > 0);
                    lemma_natural_order_antisymmetric(b[j - 1].0, xv.0);
                } else {
                    assert(perm[i] == old_perm[i]);
                }
            }
            assert(pairs_view(orig.take(k + 1)) =~= pairs_view(orig.take(k)).push(xv));
            k = k + 1;
            let s = pairs_view(out@);
            let b = pairs_view(before);
            assert forall|i: int| 0 <= i < s.len() - 1 implies natural_order((#[trigger] s[i]).0, s[i + 1].0) <= 0 by {
                if i + 1 < p {
                    assert(s[i] == b[i] && s[i + 1] == b[i + 1]);
                } else if i + 1 == p {
                    assert(s[i] == b[i] && s[i + 1] == xv);
                } else if i == p {
                    assert(s[i] == xv && s[i + 1] == b[i]);
                } else {
                    assert(s[i] == b[i - 1] && s[i + 1] == b[i]);
                }
            }
        }
    }
    assert(orig.take(k) =~= orig);
    proof {
        lemma_pairs_all(pairs_view(out@));
        assert(stable_pairs(ov, pairs_view(out@), perm));
    }
    out
}

/// TAR / TAR.GZ archive reader holding every image entry in memory.
pub struct TarArchiveReader {
    entries: Vec<(String, Vec<u8>)>,
}

impl TarArchiveReader {
    /// The (name, data) pairs of the pages, in order.
    pub closed spec fn pages(&self) -> Seq<(Seq<char>, Seq<u8>)> {
        pairs_view(self.entries@)
    }

    /// Reads an archive held in memory: first as gzip-compressed TAR, and if
    /// that fails, as plain TAR. Keeps the image files that are not
    /// directories, in natural order of their names.
    pub fn open(data: &[u8]) -> (r: Result<TarArchiveReader, ArchiveError>)
        ensures
            r is Ok <==> tar_source(data@) is Some,
            r matches Err(e) ==> e is Io,
            r matches Ok(t) ==> {
                &&& t.pages().to_multiset() == page_members(tar_source(data@).unwrap()).to_multiset()
                &&& pairs_sorted(t.pages())
                &&& pairs_in_order(t.pages())
                &&& exists|perm: Seq<int>| #[trigger] stable_pairs(page_members(tar_source(data@).unwrap()), t.pages(), perm)
            },
    {
        let members = match tar_gz_list(data) {
            Ok(m) => m,
            Err(_) => match tar_list(data) {
                Ok(m) => m,
                Err(e) => {
                    return Err(ArchiveError::Io(e));
                },
            },
        };
        let ghost mv = members_view(members@);
        assert(mv == tar_source(data@).unwrap());
        let mut kept: Vec<(String, Vec<u8>)> = Vec::new();
        let mut members = members;
        let ghost orig = members@;
        let mut i: usize = 0;
        let n = members.len();
        assert(orig.skip(0) =~= orig);
        while members.len() > 0
            invariant
                i <= orig.len(),
                mv == members_view(orig),
                members@ == orig.skip(i as int),
                orig.len() == members@.len() + i,
                orig.len() == n,
                pairs_view(kept@) == page_members(mv.take(i as int)),
            decreases members.len(),
        {
            let m = members.remove(0);
            assert(m == orig[i as int]);
            assert(orig.skip(i as int).remove(0) =~= orig.skip(i + 1));
            assert(mv.take(i + 1).drop_last() =~= mv.take(i as int));
            assert(mv.take(i + 1).last() == (m.name@, m.is_dir, m.data@));
            let ghost before = kept@;
            if !m.is_dir && is_image_file(m.name.as_str()) {
                let ghost pv = (m.name@, m.data@);
                kept.push((m.name, m.data));
                assert(pairs_view(kept@) =~= pairs_view(before).push(pv));
            }
            i = i + 1;
        }
        assert(mv.take(i as int) =~= mv);
        let entries = sort_by_name(kept);
        Ok(TarArchiveReader { entries })
    }

    /// Number of page entries.
    pub fn count(&self) -> (r: usize)
        ensures
            r == self.pages().len(),
    {
        self.entries.len()
    }

    /// The page names, in order.
    pub fn names_list(&self) -> (r: Vec<String>)
        ensures
            r@.len() == self.pages().len(),
            forall|i: int| 0 <= i < r@.len() ==> (#[trigger] r@[i])@ == self.pages()[i].0,
    {
        let mut out: Vec<String> = Vec::new();
        let mut i: usize = 0;
        while i < self.entries.len()
            invariant
                i <= self.entries.len(),
                out@.len() == i,
                forall|k: int| 0 <= k < i ==> (#[trigger] out@[k])@ == self.pages()[k].0,
            decreases self.entries.len() - i,
        {
            out.push(self.entries[i].0.clone());
            i = i + 1;
        }
        out
    }

    /// One page entry by index.
    pub fn entry(&self, index: usize) -> (r: Result<ArchiveEntry, ArchiveError>)
        ensures
            index >= self.pages().len() ==> (r matches Err(ArchiveError::IndexOutOfRange { index: i, total: t })
                && i == index && t == self.pages().len()),
            index < self.pages().len() ==> (r matches Ok(e) && e.name@ == self.pages()[index as int].0
                && e.data@ == self.pages()[index as int].1),
    {
        check_index(index, self.entries.len())?;
        let (name, data) = &self.entries[index];
        Ok(ArchiveEntry { name: name.clone(), data: data.clone() })
    }

    /// All page entries, in order.
    pub fn entries_all(&self) -> (r: Vec<ArchiveEntry>)
        ensures
            r@.len() == self.pages().len(),
            forall|i: int| 0 <= i < r@.len() ==> (#[trigger] r@[i]).name@ == self.pages()[i].0
                && r@[i].data@ == self.pages()[i].1,
    {
        let mut out: Vec<ArchiveEntry> = Vec::new();
        let mut i: usize = 0;
        while i < self.entries.len()
            invariant
                i <= self.entries.len(),
                out@.len() == i,
                forall|k: int| 0 <= k < i ==> (#[trigger] out@[k]).name@ == self.pages()[k].0
                    && out@[k].data@ == self.pages()[k].1,
            decreases self.entries.len() - i,
        {
            let (name, data) = &self.entries[i];
            out.push(ArchiveEntry { name: name.clone(), data: data.clone() });
            i = i + 1;
        }
        out
    }
}

impl ArchiveReader for TarArchiveReader {
    fn entry_count(&self) -> (r: usize)
        ensures
            r == self.pages().len(),
    {
        self.count()
    }

    fn entry_names(&self) -> (r: Vec<String>)
        ensures
            r@.len() == self.pages().len(),
            forall|i: int| 0 <= i < r@.len() ==> (#[trigger] r@[i])@ == self.pages()[i].0,
    {
        self.names_list()
    }

    fn read_entry(&self, index: usize) -> (r: Result<ArchiveEntry, ArchiveError>)
        ensures
            index >= self.pages().len() ==> (r matches Err(ArchiveError::IndexOutOfRange { index: i, total: t })
                && i == index && t == self.pages().len()),
            index < self.pages().len() ==> (r matches Ok(e) && e.name@ == self.pages()[index as int].0
                && e.data@ == self.pages()[index as int].1),
    {
        self.entry(index)
    }

    fn read_all(&self) -> (r: Result<Vec<ArchiveEntry>, ArchiveError>)
        ensures
            r matches Ok(v) && v@.len() == self.pages().len() && forall|i: int| 0 <= i < v@.len() ==> (#[trigger] v@[i]).name@
                == self.pages()[i].0 && v@[i].data@ == self.pages()[i].1,
    {
        Ok(self.entries_all())
    }
}

} // verus!
