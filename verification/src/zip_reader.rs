//! ZIP archives held in memory: the page members, in natural order.

use crate::archive::{
    check_index, is_page_member, page_names, ArchiveEntry, ArchiveError, ArchiveReader,
};
use crate::natural_sort::naturally_sorted;
use crate::text::strings_view;
use vstd::prelude::*;

verus! {

/// The member names that the `zip` crate reads from an archive's central
/// directory, in directory order; `None` for a name it cannot decode. `None`
/// for the whole listing when the bytes are no ZIP archive it accepts.
pub uninterp spec fn zip_member_names(data: Seq<u8>) -> Option<Seq<Option<Seq<char>>>>;

/// The decompressed bytes of the member with the given name, as the `zip`
/// crate extracts them; `None` when it fails.
pub uninterp spec fn zip_member_bytes(data: Seq<u8>, name: Seq<char>) -> Option<Seq<u8>>;

/// Views of optional strings.
pub open spec fn opt_strings_view(v: Seq<Option<String>>) -> Seq<Option<Seq<char>>> {
    v.map_values(
        |o: Option<String>|
            match o {
                Some(s) => Some(s@),
                None => None,
            },
    )
}

/// The names that decoded, in order.
pub open spec fn decoded_names(v: Seq<Option<Seq<char>>>) -> Seq<Seq<char>>
    decreases v.len(),
{
    if v.len() == 0 {
        seq![]
    } else {
        let rest = decoded_names(v.drop_last());
        match v.last() {
            Some(n) => rest.push(n),
            None => rest,
        }
    }
}

/// `zip::ZipArchive::new` on the bytes, then `ZipArchive::file_names`, each
/// name converted to an owned `String` (`None` where decoding the name failed).
/// The contract names the result: it is a function of the bytes alone.
#[verifier::external_body]
fn zip_list(data: &[u8]) -> (r: Result<Vec<Option<String>>, zip::result::ZipError>)
    ensures
        r is Ok <==> zip_member_names(data@) is Some,
        r matches Ok(v) ==> opt_strings_view(v@) == zip_member_names(data@).unwrap(),
{
    let archive = zip::ZipArchive::new(std::io::Cursor::new(data))?;
    Ok(archive.file_names().map(|n| n.ok().map(|s| s.into_owned())).collect())
}

/// `zip::ZipArchive::new` on the bytes, `ZipArchive::by_name`, then
/// `Read::read_to_end` on the member. The contract names the bytes obtained
/// and says that a failure is reported as a ZIP error (opening or finding the
/// member) or an I/O error (decompressing it); which of the two is not stated.
#[verifier::external_body]
fn zip_read(data: &[u8], name: &str) -> (r: Result<Vec<u8>, ArchiveError>)
    ensures
        r is Ok <==> zip_member_bytes(data@, name@) is Some,
        r matches Ok(b) ==> b@ == zip_member_bytes(data@, name@).unwrap(),
        r matches Err(e) ==> (e is Zip || e is Io),
{
    let mut archive = zip::ZipArchive::new(std::io::Cursor::new(data)).map_err(ArchiveError::Zip)?;
    let mut member = archive.by_name(name).map_err(ArchiveError::Zip)?;
    let mut out = Vec::new();
    std::io::Read::read_to_end(&mut member, &mut out).map_err(ArchiveError::Io)?;
    Ok(out)
}

/// ZIP archive reader over the archive's bytes.
pub struct ZipArchiveReader {
    data: Vec<u8>,
    entries: Vec<String>,
}

impl ZipArchiveReader {
    /// The archive's bytes.
    pub closed spec fn bytes(&self) -> Seq<u8> {
        self.data@
    }

    /// The page names, in order.
    pub closed spec fn names(&self) -> Seq<Seq<char>> {
        strings_view(self.entries@)
    }

    /// Reads the listing of a ZIP archive held in memory and keeps its page
    /// members (not directories, image extension) in natural order.
    pub fn open(data: Vec<u8>) -> (r: Result<ZipArchiveReader, ArchiveError>)
        ensures
            r is Ok <==> zip_member_names(data@) is Some,
            r matches Err(e) ==> e is Zip,
            r matches Ok(z) ==> {
                &&& z.bytes() == data@
                &&& z.names().to_multiset() == decoded_names(
                    zip_member_names(data@).unwrap(),
                ).filter(|n: Seq<char>| is_page_member(n)).to_multiset()
                &&& forall|i: int| 0 <= i < z.names().len() - 1 ==> crate::natural_sort::natural_order(
                    #[trigger] z.names()[i],
                    z.names()[i + 1],
                ) <= 0
                &&& crate::natural_sort::names_in_order(z.names())
                &&& exists|perm: Seq<int>| #[trigger] crate::natural_sort::stable_names(
                    crate::archive::page_members_of(decoded_names(zip_member_names(data@).unwrap())),
                    z.names(),
                    perm,
                )
            },
    {
        let listing = match zip_list(data.as_slice()) {
            Ok(l) => l,
            Err(e) => {
                return Err(ArchiveError::Zip(e));
            },
        };
        let ghost lv = opt_strings_view(listing@);
        let mut names: Vec<String> = Vec::new();
        let mut i: usize = 0;
        while i < listing.len()
            invariant
                i <= listing.len(),
                lv == opt_strings_view(listing@),
                strings_view(names@) == decoded_names(lv.take(i as int)),
            decreases listing.len() - i,
        {
            assert(lv.take(i + 1).drop_last() =~= lv.take(i as int));
            let ghost before = names@;
            match &listing[i] {
                Some(n) => {
                    names.push(n.clone());
                    assert(strings_view(names@) =~= strings_view(before).push(n@));
                },
                None => {},
            }
            i = i + 1;
        }
        assert(lv.take(listing.len() as int) =~= lv);
        let entries = page_names(names);
        proof {
            let s = strings_view(entries@);
            assert forall|i: int| 0 <= i < s.len() - 1 implies crate::natural_sort::natural_order(
                #[trigger] s[i],
                s[i + 1],
            ) <= 0 by {
                assert(naturally_sorted(entries@));
                assert(crate::natural_sort::natural_order(entries@[i]@, entries@[i + 1]@) <= 0);
            }
        }
        Ok(ZipArchiveReader { data, entries })
    }

    /// Number of page entries.
    pub fn count(&self) -> (r: usize)
        ensures
            r == self.names().len(),
    {
        self.entries.len()
    }

    /// The page names, in order.
    pub fn names_list(&self) -> (r: Vec<String>)
        ensures
            strings_view(r@) == self.names(),
    {
        self.entries.clone()
    }

    /// One page entry by index, its data extracted from the archive.
    pub fn entry(&self, index: usize) -> (r: Result<ArchiveEntry, ArchiveError>)
        ensures
            index >= self.names().len() ==> (r matches Err(ArchiveError::IndexOutOfRange { index: i, total: t })
                && i == index && t == self.names().len()),
            index < self.names().len() ==> {
                &&& r is Ok <==> zip_member_bytes(self.bytes(), self.names()[index as int]) is Some
                &&& r matches Ok(e) ==> e.name@ == self.names()[index as int]
                    && e.data@ == zip_member_bytes(self.bytes(), self.names()[index as int]).unwrap()
            },
    {
        check_index(index, self.entries.len())?;
        let name = &self.entries[index];
        let data = zip_read(self.data.as_slice(), name.as_str())?;
        Ok(ArchiveEntry { name: name.clone(), data })
    }

    /// All page entries, in order; the first failure stops the reading.
    pub fn entries_all(&self) -> (r: Result<Vec<ArchiveEntry>, ArchiveError>)
        ensures
            r is Ok <==> forall|i: int| 0 <= i < self.names().len() ==> zip_member_bytes(self.bytes(), #[trigger] self.names()[i]) is Some,
            r matches Ok(v) ==> v@.len() == self.names().len() && forall|i: int| 0 <= i < v@.len() ==> {
                &&& (#[trigger] v@[i]).name@ == self.names()[i]
                &&& v@[i].data@ == zip_member_bytes(self.bytes(), self.names()[i]).unwrap()
            },
    {
        let mut out: Vec<ArchiveEntry> = Vec::new();
        let mut i: usize = 0;
        while i < self.entries.len()
            invariant
                i <= self.entries.len(),
                out@.len() == i,
                forall|k: int| 0 <= k < i ==> zip_member_bytes(self.bytes(), #[trigger] self.names()[k]) is Some,
                forall|k: int| 0 <= k < i ==> {
                    &&& (#[trigger] out@[k]).name@ == self.names()[k]
                    &&& out@[k].data@ == zip_member_bytes(self.bytes(), self.names()[k]).unwrap()
                },
            decreases self.entries.len() - i,
        {
            let name = &self.entries[i];
            assert(self.names()[i as int] == name@);
            let data = match zip_read(self.data.as_slice(), name.as_str()) {
                Ok(d) => d,
                Err(e) => {
                    assert(zip_member_bytes(self.bytes(), self.names()[i as int]) is None);
                    return Err(e);
                },
            };
            out.push(ArchiveEntry { name: name.clone(), data });
            i = i + 1;
        }
        Ok(out)
    }
}

impl ArchiveReader for ZipArchiveReader {
    fn entry_count(&self) -> (r: usize)
        ensures
            r == self.names().len(),
    {
        self.count()
    }

    fn entry_names(&self) -> (r: Vec<String>)
        ensures
            strings_view(r@) == self.names(),
    {
        self.names_list()
    }

    fn read_entry(&self, index: usize) -> (r: Result<ArchiveEntry, ArchiveError>)
        ensures
            index >= self.names().len() ==> (r matches Err(ArchiveError::IndexOutOfRange { index: i, total: t })
                && i == index && t == self.names().len()),
            index < self.names().len() ==> {
                &&& r is Ok <==> zip_member_bytes(self.bytes(), self.names()[index as int]) is Some
                &&& r matches Ok(e) ==> e.name@ == self.names()[index as int]
                    && e.data@ == zip_member_bytes(self.bytes(), self.names()[index as int]).unwrap()
            },
    {
        self.entry(index)
    }

    fn read_all(&self) -> (r: Result<Vec<ArchiveEntry>, ArchiveError>)
        ensures
            r is Ok <==> forall|i: int| 0 <= i < self.names().len() ==> zip_member_bytes(self.bytes(), #[trigger] self.names()[i]) is Some,
            r matches Ok(v) ==> v@.len() == self.names().len() && forall|i: int| 0 <= i < v@.len() ==> {
                &&& (#[trigger] v@[i]).name@ == self.names()[i]
                &&& v@[i].data@ == zip_member_bytes(self.bytes(), self.names()[i]).unwrap()
            },
    {
        self.entries_all()
    }
}

} // verus!
