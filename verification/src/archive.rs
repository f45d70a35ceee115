//! Archive entries held in memory, the error type of the archive readers,
//! and the choice of the entries that are pages.

use crate::natural_sort::{lemma_arrangement_views, names_in_order, natural_sort, naturally_sorted, stable_names};
use crate::text::{strings_view, chars_end_with, chars_of, to_lowercase, unicode_lower, ends_with};
use vstd::prelude::*;

verus! {

broadcast use vstd::seq_lib::group_to_multiset_ensures;

/// The error a ZIP reader reports.
#[verifier::external_type_specification]
#[verifier::external_body]
pub struct ExZipError(zip::result::ZipError);

/// An I/O error.
#[verifier::external_type_specification]
#[verifier::external_body]
pub struct ExIoError(std::io::Error);

/// A single entry extracted from an archive, held entirely in memory.
#[derive(Debug, Clone)]
pub struct ArchiveEntry {
    pub name: String,
    pub data: Vec<u8>,
}

/// Errors of the archive readers.
#[derive(Debug)]
pub enum ArchiveError {
    Io(std::io::Error),
    Zip(zip::result::ZipError),
    UnsupportedFormat(String),
    IndexOutOfRange { index: usize, total: usize },
    Empty,
    PasswordProtected,
    Corrupt(String),
}

/// Reading archives of various formats; all of them hold their data in memory.
pub trait ArchiveReader {
    /// Number of image entries in the archive.
    fn entry_count(&self) -> usize;

    /// The sorted list of entry names.
    fn entry_names(&self) -> Vec<String>;

    /// One entry by index.
    fn read_entry(&self, index: usize) -> Result<ArchiveEntry, ArchiveError>;

    /// All entries at once.
    fn read_all(&self) -> Result<Vec<ArchiveEntry>, ArchiveError>;
}

/// The file name ends with one of the known image extensions (the name is
/// given already lowercased).
pub open spec fn has_image_extension(s: Seq<char>) -> bool {
    ends_with(s, ".jpg"@) || ends_with(s, ".jpeg"@) || ends_with(s, ".png"@) || ends_with(
        s,
        ".webp"@,
    ) || ends_with(s, ".avif"@) || ends_with(s, ".jxl"@) || ends_with(s, ".gif"@) || ends_with(
        s,
        ".bmp"@,
    ) || ends_with(s, ".tiff"@) || ends_with(s, ".tif"@) || ends_with(s, ".psd"@) || ends_with(
        s,
        ".jp2"@,
    )
}

/// A file name is an image name when its lowercase form has an image extension.
pub open spec fn is_image_name(name: Seq<char>) -> bool {
    has_image_extension(unicode_lower(name))
}

/// The image extensions: a name is an image name exactly when its lowercase
/// form ends with a dot and one of `jpg`, `jpeg`, `png`, `webp`, `avif`,
/// `jxl`, `gif`, `bmp`, `tiff`, `tif`, `psd` or `jp2`.
pub proof fn lemma_image_extensions(name: Seq<char>)
    ensures
        ends_with(unicode_lower(name), ".jpg"@) ==> is_image_name(name),
        ends_with(unicode_lower(name), ".jpeg"@) ==> is_image_name(name),
        ends_with(unicode_lower(name), ".png"@) ==> is_image_name(name),
        ends_with(unicode_lower(name), ".webp"@) ==> is_image_name(name),
        ends_with(unicode_lower(name), ".avif"@) ==> is_image_name(name),
        ends_with(unicode_lower(name), ".jxl"@) ==> is_image_name(name),
        ends_with(unicode_lower(name), ".gif"@) ==> is_image_name(name),
        ends_with(unicode_lower(name), ".bmp"@) ==> is_image_name(name),
        ends_with(unicode_lower(name), ".tiff"@) ==> is_image_name(name),
        ends_with(unicode_lower(name), ".tif"@) ==> is_image_name(name),
        ends_with(unicode_lower(name), ".psd"@) ==> is_image_name(name),
        ends_with(unicode_lower(name), ".jp2"@) ==> is_image_name(name),
        is_image_name(name) ==> exists|e: Seq<char>|
            #![trigger ends_with(unicode_lower(name), e)]
            ends_with(unicode_lower(name), e) && (e == ".jpg"@ || e == ".jpeg"@ || e == ".png"@ || e == ".webp"@ || e
                == ".avif"@ || e == ".jxl"@ || e == ".gif"@ || e == ".bmp"@ || e == ".tiff"@ || e == ".tif"@ || e
                == ".psd"@ || e == ".jp2"@),
{
}

pub(crate) fn ends_with_str(s: &Vec<char>, suffix: &str) -> (r: bool)
    ensures
        r == ends_with(s@, suffix@),
{
    let suf = chars_of(suffix);
    chars_end_with(s.as_slice(), suf.as_slice())
}

/// Whether a file name has an image extension, compared case-insensitively.
pub fn is_image_file(name: &str) -> (r: bool)
    ensures
        r == is_image_name(name@),
{
    let lower = to_lowercase(name);
    let l = chars_of(lower.as_str());
    ends_with_str(&l, ".jpg") || ends_with_str(&l, ".jpeg") || ends_with_str(&l, ".png")
        || ends_with_str(&l, ".webp") || ends_with_str(&l, ".avif") || ends_with_str(&l, ".jxl")
        || ends_with_str(&l, ".gif") || ends_with_str(&l, ".bmp") || ends_with_str(&l, ".tiff")
        || ends_with_str(&l, ".tif") || ends_with_str(&l, ".psd") || ends_with_str(&l, ".jp2")
}

/// An archive member is a page when it is not a directory (its name does not
/// end with `/`) and it has an image name.
pub open spec fn is_page_member(name: Seq<char>) -> bool {
    !(name.len() > 0 && name.last() == '/') && is_image_name(name)
}

/// The names of a listing that are pages, in listing order.
pub open spec fn page_members_of(names: Seq<Seq<char>>) -> Seq<Seq<char>> {
    names.filter(|n: Seq<char>| is_page_member(n))
}

/// Whether an archive member name is a page.
pub fn is_page_member_name(name: &str) -> (r: bool)
    ensures
        r == is_page_member(name@),
{
    let c = chars_of(name);
    if c.len() > 0 && c[c.len() - 1] == '/' {
        false
    } else {
        is_image_file(name)
    }
}

/// The page members of an archive listing, in natural order.
pub fn page_names(names: Vec<String>) -> (r: Vec<String>)
    ensures
        strings_view(r@).to_multiset() == strings_view(names@).filter(
            |n: Seq<char>| is_page_member(n),
        ).to_multiset(),
        naturally_sorted(r@),
        names_in_order(strings_view(r@)),
        exists|perm: Seq<int>| #[trigger] stable_names(page_members_of(strings_view(names@)), strings_view(r@), perm),
{
    let ghost pred = |n: Seq<char>| is_page_member(n);
    let mut kept: Vec<String> = Vec::new();
    let mut i: usize = 0;
    while i < names.len()
        invariant
            i <= names.len(),
            pred == (|n: Seq<char>| is_page_member(n)),
            strings_view(kept@) == strings_view(names@.take(i as int)).filter(pred),
        decreases names.len() - i,
    {
        reveal_with_fuel(Seq::<_>::filter, 1);
        assert(strings_view(names@.take(i + 1)).drop_last() =~= strings_view(names@.take(i as int)));
        let ghost before = kept@;
        if is_page_member_name(names[i].as_str()) {
            kept.push(names[i].clone());
            assert(strings_view(kept@) =~= strings_view(before).push(names@[i as int]@));
        }
        i = i + 1;
    }
    assert(names@.take(names.len() as int) =~= names@);
    let ghost before = kept@;
    natural_sort(&mut kept);
    proof {
        let perm = choose|perm: Seq<int>| crate::natural_sort::stable_arrangement(before, kept@, perm);
        lemma_arrangement_views(before, kept@, perm);
        assert(strings_view(before) == page_members_of(strings_view(names@)));
        assert(stable_names(page_members_of(strings_view(names@)), strings_view(kept@), perm));
    }
    kept
}

/// Whether an entry index is valid for an archive of `total` entries; the
/// error otherwise.
pub fn check_index(index: usize, total: usize) -> (r: Result<(), ArchiveError>)
    ensures
        index < total ==> r is Ok,
        index >= total ==> (r matches Err(ArchiveError::IndexOutOfRange { index: i, total: t })
            && i == index && t == total),
{
    if index >= total {
        Err(ArchiveError::IndexOutOfRange { index, total })
    } else {
        Ok(())
    }
}

} // verus!
