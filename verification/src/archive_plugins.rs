//! Plugins for the 7z and RAR archive formats: what they are, which files
//! they open, and which members are pages.

use crate::archive::ends_with_str;
use crate::plugin_api::{Permission, Plugin, PluginError, PluginMetadata, PluginType};
use crate::seqs::{last_index, lemma_filter_take_all, lemma_filter_take_step, lemma_last_index_at};
use crate::text::{
    file_extension, path_extension, ascii_lower, chars_of, decimal, ends_with, lines, owned, push_decimal, push_str_chars, split_lines, starts_with,
    str_equal, string_from_chars, to_lowercase, unicode_lower, char_vecs_view,
};
use vstd::prelude::*;

verus! {

/// Two texts are equal when ASCII letters are compared without case.
pub open spec fn eq_ignore_ascii_case(a: Seq<char>, b: Seq<char>) -> bool {
    a.len() == b.len() && forall|i: int| 0 <= i < a.len() ==> ascii_lower(#[trigger] a[i]) == ascii_lower(b[i])
}

fn lower_ascii(c: char) -> (r: char)
    ensures
        r == ascii_lower(c),
{
    if 'A' <= c && c <= 'Z' {
        let b = (c as u32) as u8;
        assert(b as u32 == c as u32);
        (b + 32) as char
    } else {
        c
    }
}

fn eq_ignore_case(a: &str, b: &str) -> (r: bool)
    ensures
        r == eq_ignore_ascii_case(a@, b@),
{
    let x = chars_of(a);
    let y = chars_of(b);
    if x.len() != y.len() {
        return false;
    }
    let mut i: usize = 0;
    while i < x.len()
        invariant
            x@ == a@,
            y@ == b@,
            x@.len() == y@.len(),
            i <= x@.len(),
            forall|j: int| 0 <= j < i ==> ascii_lower(#[trigger] x@[j]) == ascii_lower(y@[j]),
        decreases x@.len() - i,
    {
        if lower_ascii(x[i]) != lower_ascii(y[i]) {
            return false;
        }
        i = i + 1;
    }
    true
}

/// The path's extension is one of `a` and `b`, compared without ASCII case.
pub open spec fn has_extension(path: Seq<char>, a: Seq<char>, b: Seq<char>) -> bool {
    match file_extension(path) {
        Some(e) => eq_ignore_ascii_case(e, a) || eq_ignore_ascii_case(e, b),
        None => false,
    }
}

fn extension_is(path: &str, a: &str, b: &str) -> (r: bool)
    ensures
        r == has_extension(path@, a@, b@),
{
    match path_extension(path) {
        Some(e) => eq_ignore_case(e.as_str(), a) || eq_ignore_case(e.as_str(), b),
        None => false,
    }
}

/// The lowercase form of the name ends with `.` and one of the image
/// extensions that the archive plugins know.
pub open spec fn plugin_image_name(name: Seq<char>) -> bool {
    let l = unicode_lower(name);
    ends_with(l, ".jpg"@) || ends_with(l, ".jpeg"@) || ends_with(l, ".png"@) || ends_with(l, ".webp"@)
        || ends_with(l, ".gif"@) || ends_with(l, ".bmp"@) || ends_with(l, ".avif"@) || ends_with(l, ".tiff"@)
}

/// The archive plugins' image extensions: a name is shown exactly when its
/// lowercase form ends with a dot and one of `jpg`, `jpeg`, `png`, `webp`,
/// `gif`, `bmp`, `avif` or `tiff`.
pub proof fn lemma_plugin_image_extensions(name: Seq<char>)
    ensures
        ends_with(unicode_lower(name), ".jpg"@) ==> plugin_image_name(name),
        ends_with(unicode_lower(name), ".jpeg"@) ==> plugin_image_name(name),
        ends_with(unicode_lower(name), ".png"@) ==> plugin_image_name(name),
        ends_with(unicode_lower(name), ".webp"@) ==> plugin_image_name(name),
        ends_with(unicode_lower(name), ".gif"@) ==> plugin_image_name(name),
        ends_with(unicode_lower(name), ".bmp"@) ==> plugin_image_name(name),
        ends_with(unicode_lower(name), ".avif"@) ==> plugin_image_name(name),
        ends_with(unicode_lower(name), ".tiff"@) ==> plugin_image_name(name),
        plugin_image_name(name) ==> exists|e: Seq<char>|
            #![trigger ends_with(unicode_lower(name), e)]
            ends_with(unicode_lower(name), e) && (e == ".jpg"@ || e == ".jpeg"@ || e == ".png"@ || e == ".webp"@ || e
                == ".gif"@ || e == ".bmp"@ || e == ".avif"@ || e == ".tiff"@),
{
}

/// Whether a member name is an image that the archive plugins show.
pub fn is_image_name(name: &str) -> (r: bool)
    ensures
        r == plugin_image_name(name@),
{
    let lower = to_lowercase(name);
    let l = chars_of(lower.as_str());
    ends_with_str(&l, ".jpg") || ends_with_str(&l, ".jpeg") || ends_with_str(&l, ".png") || ends_with_str(&l, ".webp")
        || ends_with_str(&l, ".gif") || ends_with_str(&l, ".bmp") || ends_with_str(&l, ".avif") || ends_with_str(&l, ".tiff")
}

/// A member is a page: not a folder, and with an image name.
pub open spec fn page_member() -> spec_fn((Seq<char>, bool)) -> bool {
    |m: (Seq<char>, bool)| !m.1 && plugin_image_name(m.0)
}

/// The names and folder flags of archive members.
pub open spec fn members_view(v: Seq<(String, bool)>) -> Seq<(Seq<char>, bool)> {
    v.map_values(|m: (String, bool)| (m.0@, m.1))
}

/// The names of the members that are pages, in archive order.
pub fn page_member_names(members: &Vec<(String, bool)>) -> (r: Vec<String>)
    ensures
        r@.map_values(|s: String| s@) == members_view(members@).filter(page_member()).map_values(|m: (Seq<char>, bool)| m.0),
{
    let ghost v = members_view(members@);
    let ghost pred = page_member();
    let mut out: Vec<String> = Vec::new();
    let mut i: usize = 0;
    while i < members.len()
        invariant
            i <= members@.len(),
            v == members_view(members@),
            pred == page_member(),
            out@.map_values(|s: String| s@) == v.take(i as int).filter(pred).map_values(|m: (Seq<char>, bool)| m.0),
        decreases members@.len() - i,
    {
        proof {
            lemma_filter_take_step(v, pred, i as int);
        }
        if !members[i].1 && is_image_name(members[i].0.as_str()) {
            let ghost before = out@;
            out.push(owned(members[i].0.as_str()));
            assert(out@.map_values(|s: String| s@) =~= before.map_values(|s: String| s@).push(v[i as int].0));
            assert(v.take(i + 1).filter(pred).map_values(|m: (Seq<char>, bool)| m.0) =~= v.take(i as int).filter(pred).map_values(
                |m: (Seq<char>, bool)| m.0,
            ).push(v[i as int].0));
        }
        i = i + 1;
    }
    proof {
        lemma_filter_take_all(v, pred);
    }
    out
}

/// The lines of a listing that are image names, in order.
pub fn listing_pages(listing: &str) -> (r: Vec<String>)
    ensures
        r@.map_values(|s: String| s@) == lines(listing@).filter(|l: Seq<char>| plugin_image_name(l)),
{
    let ls = split_lines(chars_of(listing).as_slice());
    let ghost v = char_vecs_view(ls@);
    let ghost pred = |l: Seq<char>| plugin_image_name(l);
    let mut out: Vec<String> = Vec::new();
    let mut i: usize = 0;
    while i < ls.len()
        invariant
            i <= ls@.len(),
            v == char_vecs_view(ls@),
            v == lines(listing@),
            pred == (|l: Seq<char>| plugin_image_name(l)),
            out@.map_values(|s: String| s@) == v.take(i as int).filter(pred),
        decreases ls@.len() - i,
    {
        proof {
            lemma_filter_take_step(v, pred, i as int);
        }
        let name = string_from_chars(ls[i].as_slice());
        if is_image_name(name.as_str()) {
            let ghost before = out@;
            out.push(name);
            assert(out@.map_values(|s: String| s@) =~= before.map_values(|s: String| s@).push(v[i as int]));
        }
        i = i + 1;
    }
    proof {
        lemma_filter_take_all(v, pred);
    }
    out
}

/// The message of a page index beyond the pages of an archive.
pub open spec fn index_message(index: nat) -> Seq<char> {
    "Index "@ + decimal(index) + " out of range"@
}

/// The name of page `index`; an error when there is no such page.
pub fn page_at(pages: &Vec<String>, index: usize) -> (r: Result<String, PluginError>)
    ensures
        index < pages@.len() ==> (r matches Ok(s) && s@ == pages@[index as int]@),
        index >= pages@.len() ==> (r matches Err(PluginError::RuntimeError(m)) && m@ == index_message(index as nat)),
{
    if index < pages.len() {
        Ok(owned(pages[index].as_str()))
    } else {
        let mut m = chars_of("Index ");
        push_decimal(&mut m, index as u64);
        let tail = chars_of(" out of range");
        let mut i: usize = 0;
        let ghost m0 = m@;
        while i < tail.len()
            invariant
                i <= tail@.len(),
                m@ == m0 + tail@.take(i as int),
            decreases tail@.len() - i,
        {
            m.push(tail[i]);
            i = i + 1;
            assert(m@ =~= m0 + tail@.take(i as int));
        }
        assert(tail@.take(tail@.len() as int) =~= tail@);
        assert(m@ =~= index_message(index as nat));
        Err(PluginError::RuntimeError(string_from_chars(m.as_slice())))
    }
}

fn plugin_metadata(id: &str, name: &str, description: &str) -> (r: PluginMetadata)
    ensures
        r.id@ == id@,
        r.name@ == name@,
        r.version@ == "0.1.0"@,
        r.author@ == "MangaMeeya"@,
        r.description@ == description@,
        r.plugin_type == PluginType::ArchiveFormat,
        r.permissions@ == seq![Permission::FileSystemRead],
{
    let mut permissions: Vec<Permission> = Vec::new();
    permissions.push(Permission::FileSystemRead);
    PluginMetadata {
        id: owned(id),
        name: owned(name),
        version: owned("0.1.0"),
        author: owned("MangaMeeya"),
        description: owned(description),
        plugin_type: PluginType::ArchiveFormat,
        permissions,
    }
}

fn two_strings(a: &str, b: &str) -> (r: Vec<String>)
    ensures
        r@.map_values(|s: String| s@) == seq![a@, b@],
{
    let mut v: Vec<String> = Vec::new();
    v.push(owned(a));
    v.push(owned(b));
    assert(v@.map_values(|s: String| s@) =~= seq![a@, b@]);
    v
}

/// The message of an archive that could not be opened, with the reader's
/// own words.
pub open spec fn open_error_message(reason: Seq<char>) -> Seq<char> {
    "7z open error: "@ + reason
}

/// The message of an archive whose members could not be extracted, with the
/// reader's own words.
pub open spec fn extract_error_message(reason: Seq<char>) -> Seq<char> {
    "7z extract error: "@ + reason
}

/// The message of a page whose member the extraction did not give.
pub open spec fn entry_missing_message(name: Seq<char>) -> Seq<char> {
    "Entry '"@ + name + "' not found"@
}

/// The position of the last extracted member named `name`.
pub open spec fn last_named(entries: Seq<(String, Vec<u8>)>, name: Seq<char>) -> Option<int> {
    last_index(entries, |x: (String, Vec<u8>)| x.0@ == name)
}

fn runtime_error(prefix: &str, reason: &str, suffix: &str) -> (r: PluginError)
    ensures
        r matches PluginError::RuntimeError(m) && m@ == prefix@ + reason@ + suffix@,
{
    let mut msg = chars_of(prefix);
    push_str_chars(&mut msg, reason);
    push_str_chars(&mut msg, suffix);
    PluginError::RuntimeError(string_from_chars(msg.as_slice()))
}

/// The names of the pages among archive members: those that are not
/// directories and have an image name, in order.
pub open spec fn member_pages(m: Seq<(Seq<char>, bool)>) -> Seq<Seq<char>> {
    m.filter(page_member()).map_values(|x: (Seq<char>, bool)| x.0)
}

/// Reads 7z and CB7 archives.
pub struct SevenZipPlugin {
    meta: PluginMetadata,
}

impl SevenZipPlugin {
    /// The plugin as `new` makes it: its metadata, field by field.
    pub open spec fn is_new(&self) -> bool {
        &&& self.meta_view().id@ == "mm.archive.7z"@
        &&& self.meta_view().name@ == "7z Archive Support"@
        &&& self.meta_view().version@ == "0.1.0"@
        &&& self.meta_view().author@ == "MangaMeeya"@
        &&& self.meta_view().description@ == "Adds 7z/CB7 archive support"@
        &&& self.meta_view().plugin_type == PluginType::ArchiveFormat
        &&& self.meta_view().permissions@ == seq![Permission::FileSystemRead]
    }

    /// The plugin.
    pub fn new() -> (r: SevenZipPlugin)
        ensures
            r.meta_view().id@ == "mm.archive.7z"@,
            r.meta_view().plugin_type == PluginType::ArchiveFormat,
            r.meta_view().permissions@ == seq![Permission::FileSystemRead],
            r.is_new(),
    {
        SevenZipPlugin { meta: plugin_metadata("mm.archive.7z", "7z Archive Support", "Adds 7z/CB7 archive support") }
    }

    /// The plugin's metadata.
    pub closed spec fn meta_view(&self) -> PluginMetadata {
        self.meta
    }

    /// The extensions of the format: `7z` and `cb7`.
    pub fn supported_extensions(&self) -> (r: Vec<String>)
        ensures
            r@.map_values(|s: String| s@) == seq!["7z"@, "cb7"@],
    {
        two_strings("7z", "cb7")
    }

    /// Whether the path's extension is `7z` or `cb7`, in any ASCII case.
    pub fn can_open(&self, path: &str) -> (r: bool)
        ensures
            r == has_extension(path@, "7z"@, "cb7"@),
    {
        extension_is(path, "7z", "cb7")
    }

    /// The names of the pages of a 7z archive, in archive order, from the
    /// reader's listing of its members (name and folder flag of each); an
    /// open error when the reader could not list them.
    pub fn page_names_from(&self, listing: &Result<Vec<(String, bool)>, String>) -> (r: Result<Vec<String>, PluginError>)
        ensures
            match listing {
                Ok(m) => r matches Ok(v) && v@.map_values(|s: String| s@) == member_pages(members_view(m@)),
                Err(e) => r matches Err(PluginError::RuntimeError(msg)) && msg@ == open_error_message(e@),
            },
    {
        match listing {
            Ok(members) => Ok(page_member_names(members)),
            Err(e) => {
                let r = runtime_error("7z open error: ", e.as_str(), "");
                proof {
                    reveal_strlit("7z open error: ");
                    reveal_strlit("");
                }
                assert(open_error_message(e@) =~= "7z open error: "@ + e@ + ""@);
                Err(r)
            },
        }
    }

    /// The number of pages of a 7z archive, from the reader's listing of its
    /// members; an open error when the reader could not list them.
    pub fn page_count_from(&self, listing: &Result<Vec<(String, bool)>, String>) -> (r: Result<usize, PluginError>)
        ensures
            match listing {
                Ok(m) => r == Ok::<usize, PluginError>(member_pages(members_view(m@)).len() as usize),
                Err(e) => r matches Err(PluginError::RuntimeError(msg)) && msg@ == open_error_message(e@),
            },
    {
        let names = self.page_names_from(listing)?;
        Ok(names.len())
    }

    /// The bytes of the page named `name`, from the reader's extraction of
    /// every member (name and bytes of each, in archive order): those of the
    /// last member of that name; an extract error when the reader could not
    /// extract them, and an error when no member has that name.
    pub fn page_bytes_from(&self, name: &str, extracted: Result<Vec<(String, Vec<u8>)>, String>) -> (r: Result<Vec<u8>, PluginError>)
        ensures
            match extracted {
                Err(e) => r matches Err(PluginError::RuntimeError(msg)) && msg@ == extract_error_message(e@),
                Ok(v) => match last_named(v@, name@) {
                    Some(k) => r matches Ok(d) && d@ == v@[k].1@,
                    None => r matches Err(PluginError::RuntimeError(msg)) && msg@ == entry_missing_message(name@),
                },
            },
    {
        match extracted {
            Err(e) => {
                let r = runtime_error("7z extract error: ", e.as_str(), "");
                proof {
                    reveal_strlit("7z extract error: ");
                    reveal_strlit("");
                }
                assert(extract_error_message(e@) =~= "7z extract error: "@ + e@ + ""@);
                Err(r)
            },
            Ok(v) => {
                let mut v = v;
                let ghost pred = |x: (String, Vec<u8>)| x.0@ == name@;
                let ghost all = v@;
                assert(extracted matches Ok(w) && w@ == all);
                let mut i: usize = v.len();
                while i > 0
                    invariant
                        i <= v@.len(),
                        v@ == all,
                        extracted matches Ok(w) && w@ == all,
                        pred == (|x: (String, Vec<u8>)| x.0@ == name@),
                        forall|j: int| i <= j < v@.len() ==> !pred(#[trigger] v@[j]),
                    decreases i,
                {
                    if str_equal(v[i - 1].0.as_str(), name) {
                        proof {
                            lemma_last_index_at(all, pred, i as int);
                        }
                        let found = v.swap_remove(i - 1);
                        return Ok(found.1);
                    }
                    i = i - 1;
                }
                proof {
                    lemma_last_index_at(all, pred, 0);
                }
                proof {
                    reveal_strlit("Entry '");
                    reveal_strlit("' not found");
                }
                Err(runtime_error("Entry '", name, "' not found"))
            },
        }
    }
}

impl Default for SevenZipPlugin {
    fn default() -> (r: SevenZipPlugin)
        ensures
            r.is_new(),
    {
        SevenZipPlugin::new()
    }
}

impl Plugin for SevenZipPlugin {
    fn metadata(&self) -> (r: &PluginMetadata)
        ensures
            *r == self.meta_view(),
    {
        &self.meta
    }
}

/// Reads RAR and CBR archives.
pub struct RarPlugin {
    meta: PluginMetadata,
}

impl RarPlugin {
    /// The plugin as `new` makes it: its metadata, field by field.
    pub open spec fn is_new(&self) -> bool {
        &&& self.meta_view().id@ == "mm.archive.rar"@
        &&& self.meta_view().name@ == "RAR Archive Support"@
        &&& self.meta_view().version@ == "0.1.0"@
        &&& self.meta_view().author@ == "MangaMeeya"@
        &&& self.meta_view().description@ == "Adds RAR/CBR archive support"@
        &&& self.meta_view().plugin_type == PluginType::ArchiveFormat
        &&& self.meta_view().permissions@ == seq![Permission::FileSystemRead]
    }

    /// The plugin.
    pub fn new() -> (r: RarPlugin)
        ensures
            r.meta_view().id@ == "mm.archive.rar"@,
            r.meta_view().plugin_type == PluginType::ArchiveFormat,
            r.meta_view().permissions@ == seq![Permission::FileSystemRead],
            r.is_new(),
    {
        RarPlugin { meta: plugin_metadata("mm.archive.rar", "RAR Archive Support", "Adds RAR/CBR archive support") }
    }

    /// The plugin's metadata.
    pub closed spec fn meta_view(&self) -> PluginMetadata {
        self.meta
    }

    /// The extensions of the format: `rar` and `cbr`.
    pub fn supported_extensions(&self) -> (r: Vec<String>)
        ensures
            r@.map_values(|s: String| s@) == seq!["rar"@, "cbr"@],
    {
        two_strings("rar", "cbr")
    }

    /// Whether the path's extension is `rar` or `cbr`, in any ASCII case.
    pub fn can_open(&self, path: &str) -> (r: bool)
        ensures
            r == has_extension(path@, "rar"@, "cbr"@),
    {
        extension_is(path, "rar", "cbr")
    }
}

impl Default for RarPlugin {
    fn default() -> (r: RarPlugin)
        ensures
            r.is_new(),
    {
        RarPlugin::new()
    }
}

impl Plugin for RarPlugin {
    fn metadata(&self) -> (r: &PluginMetadata)
        ensures
            *r == self.meta_view(),
    {
        &self.meta
    }
}

} // verus!
