//! A folder of image files read as an archive: which files are pages, in
//! what order, and where each one lies.

use crate::archive::{ArchiveError, is_image_file, is_image_name};
use crate::natural_sort::{lemma_arrangement_views, names_in_order, natural_sort, naturally_sorted, stable_arrangement, stable_names};
use crate::text::{chars_of, file_extension, join_component, join_path, owned, path_extension, string_from_chars, strings_view, to_lowercase, unicode_lower};
use vstd::prelude::*;

verus! {

/// A relative file name with `\` separators written as `/`.
pub open spec fn slashed(s: Seq<char>) -> Seq<char> {
    Seq::new(s.len(), |i: int| if s[i] == '\\' { '/' } else { s[i] })
}

/// The page names of a folder's files: the image files, with `/`
/// separators.
pub open spec fn folder_pages(files: Seq<Seq<char>>) -> Seq<Seq<char>> {
    files.filter(|n: Seq<char>| is_image_name(n)).map_values(|n: Seq<char>| slashed(n))
}

fn to_slashes(s: &str) -> (r: String)
    ensures
        r@ == slashed(s@),
{
    let c = chars_of(s);
    let mut out: Vec<char> = Vec::new();
    let mut i: usize = 0;
    while i < c.len()
        invariant
            i <= c@.len(),
            c@ == s@,
            out@ == slashed(s@).take(i as int),
        decreases c@.len() - i,
    {
        out.push(if c[i] == '\\' { '/' } else { c[i] });
        i = i + 1;
        assert(out@ =~= slashed(s@).take(i as int));
    }
    assert(slashed(s@).take(c@.len() as int) =~= slashed(s@));
    string_from_chars(out.as_slice())
}

/// Image files of a folder and its subfolders, read as pages.
pub struct FolderReader {
    root: String,
    entries: Vec<String>,
}

impl FolderReader {
    /// The folder.
    pub closed spec fn root_view(&self) -> Seq<char> {
        self.root@
    }

    /// The page names, relative to the folder, in natural order.
    pub closed spec fn pages(&self) -> Seq<Seq<char>> {
        strings_view(self.entries@)
    }

    /// The page names as strings.
    pub closed spec fn page_strings(&self) -> Seq<String> {
        self.entries@
    }

    /// The reader of the folder `root`, given the paths of its files
    /// relative to it: the image files become the pages, sorted naturally.
    pub fn from_files(root: String, files: Vec<String>) -> (r: FolderReader)
        ensures
            r.root_view() == root@,
            r.pages().to_multiset() == folder_pages(strings_view(files@)).to_multiset(),
            naturally_sorted(r.page_strings()),
            names_in_order(r.pages()),
            exists|perm: Seq<int>| #[trigger] stable_names(folder_pages(strings_view(files@)), r.pages(), perm),
    {
        let ghost pred = |n: Seq<char>| is_image_name(n);
        let ghost names = strings_view(files@);
        let mut kept: Vec<String> = Vec::new();
        let mut i: usize = 0;
        while i < files.len()
            invariant
                i <= files@.len(),
                names == strings_view(files@),
                pred == (|n: Seq<char>| is_image_name(n)),
                strings_view(kept@) == names.take(i as int).filter(pred).map_values(|n: Seq<char>| slashed(n)),
            decreases files@.len() - i,
        {
            reveal_with_fuel(Seq::<_>::filter, 1);
            assert(names.take(i + 1).drop_last() =~= names.take(i as int));
            let ghost before = kept@;
            if is_image_file(files[i].as_str()) {
                kept.push(to_slashes(files[i].as_str()));
                assert(strings_view(kept@) =~= strings_view(before).push(slashed(names[i as int])));
            }
            assert(names.take(i + 1).filter(pred).map_values(|n: Seq<char>| slashed(n)) =~= (if pred(names[i as int]) {
                names.take(i as int).filter(pred).push(names[i as int])
            } else {
                names.take(i as int).filter(pred)
            }).map_values(|n: Seq<char>| slashed(n)));
            i = i + 1;
        }
        assert(names.take(files@.len() as int) =~= names);
        let ghost before = kept@;
        natural_sort(&mut kept);
        proof {
            let perm = choose|perm: Seq<int>| stable_arrangement(before, kept@, perm);
            lemma_arrangement_views(before, kept@, perm);
            assert(strings_view(before) == folder_pages(strings_view(files@)));
            assert(stable_names(folder_pages(strings_view(files@)), strings_view(kept@), perm));
        }
        FolderReader { root, entries: kept }
    }

    /// Number of pages.
    pub fn entry_count(&self) -> (r: usize)
        ensures
            r == self.pages().len(),
    {
        self.entries.len()
    }

    /// The page names, in order.
    pub fn entry_names(&self) -> (r: Vec<String>)
        ensures
            strings_view(r@) == self.pages(),
    {
        let mut out: Vec<String> = Vec::new();
        let mut i: usize = 0;
        while i < self.entries.len()
            invariant
                i <= self.entries@.len(),
                strings_view(out@) == self.pages().take(i as int),
            decreases self.entries@.len() - i,
        {
            let ghost before = out@;
            out.push(owned(self.entries[i].as_str()));
            assert(strings_view(out@) =~= strings_view(before).push(self.entries@[i as int]@));
            i = i + 1;
            assert(strings_view(out@) =~= self.pages().take(i as int));
        }
        assert(self.pages().take(self.entries@.len() as int) =~= self.pages());
        out
    }

    /// The path of page `index`: the folder joined with the page name; an
    /// error when there is no such page.
    pub fn entry_path(&self, index: usize) -> (r: Result<String, ArchiveError>)
        ensures
            index < self.pages().len() ==> (r matches Ok(p) && p@ == join_path(self.root_view(), self.pages()[index as int])),
            index >= self.pages().len() ==> (r matches Err(ArchiveError::IndexOutOfRange { index: i, total: t })
                && i == index && t == self.pages().len()),
    {
        if index >= self.entries.len() {
            return Err(ArchiveError::IndexOutOfRange { index, total: self.entries.len() });
        }
        Ok(join_component(self.root.as_str(), self.entries[index].as_str()))
    }
}

/// What a path opens as.
#[derive(Debug, Clone, Copy, PartialEq, Eq, Structural)]
pub enum ArchiveKind {
    Folder,
    Zip,
    Tar,
}

/// The lowercased extension names a TAR archive, plain or gzip-compressed.
pub open spec fn is_tar_extension(e: Seq<char>) -> bool {
    e == "tar"@ || e == "gz"@ || e == "tgz"@
}

/// How a path opens: a folder as a folder, a `zip` or `cbz` file (in any
/// case) as a ZIP archive, a `tar`, `tgz` or `gz` (as in `.tar.gz`) file as
/// a TAR archive; any other extension, or none, is unsupported.
pub fn archive_kind(is_dir: bool, path: &str) -> (r: Result<ArchiveKind, ArchiveError>)
    ensures
        is_dir ==> r == Ok::<ArchiveKind, ArchiveError>(ArchiveKind::Folder),
        !is_dir ==> match file_extension(path@) {
            Some(e) => if unicode_lower(e) == "zip"@ || unicode_lower(e) == "cbz"@ {
                r == Ok::<ArchiveKind, ArchiveError>(ArchiveKind::Zip)
            } else if is_tar_extension(unicode_lower(e)) {
                r == Ok::<ArchiveKind, ArchiveError>(ArchiveKind::Tar)
            } else {
                r matches Err(ArchiveError::UnsupportedFormat(x)) && x@ == unicode_lower(e)
            },
            None => r matches Err(ArchiveError::UnsupportedFormat(x)) && x@ == "(no extension)"@,
        },
{
    if is_dir {
        return Ok(ArchiveKind::Folder);
    }
    match path_extension(path) {
        Some(e) => {
            let lower = to_lowercase(e.as_str());
            let l = chars_of(lower.as_str());
            let zip = chars_of("zip");
            let cbz = chars_of("cbz");
            if crate::text::chars_equal(l.as_slice(), zip.as_slice()) || crate::text::chars_equal(l.as_slice(), cbz.as_slice()) {
                Ok(ArchiveKind::Zip)
            } else if crate::text::str_equal(lower.as_str(), "tar") || crate::text::str_equal(lower.as_str(), "gz")
                || crate::text::str_equal(lower.as_str(), "tgz") {
                Ok(ArchiveKind::Tar)
            } else {
                Err(ArchiveError::UnsupportedFormat(lower))
            }
        },
        None => Err(ArchiveError::UnsupportedFormat(owned("(no extension)"))),
    }
}

} // verus!
