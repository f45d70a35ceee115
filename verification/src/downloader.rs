//! A content source that gathers several manga sites behind one interface.
//! Ids handed out by the sites carry the index of their site in front, as
//! `index:id`, and requests for an id go to that site.

use crate::downloads::{parse_source_id, source_id_parts};
use crate::plugin_api::{ContentSourcePlugin, PageUrl, Permission, Plugin, PluginError, PluginMetadata, PluginType, SearchResult};
use crate::text::owned;
use vstd::prelude::*;

verus! {

/// One manga site or API. `C` is the record of a chapter that the site
/// reports.
pub trait MangaSource<C> {
    /// Whether `name` is a name that the site may give for itself. A site
    /// that says nothing of its name may give any.
    open spec fn gave_name(&self, name: Seq<char>) -> bool {
        true
    }

    /// The site's name.
    fn name(&self) -> (r: &str)
        ensures
            self.gave_name(r@),
    ;

    /// Whether `answer` is an answer that the site may give to a search for
    /// `query`. A site that says nothing of its answers may give any.
    open spec fn gave_search(&self, query: Seq<char>, answer: Result<Vec<SearchResult>, PluginError>) -> bool {
        true
    }

    /// Titles matching a query.
    fn search(&self, query: &str) -> (r: Result<Vec<SearchResult>, PluginError>)
        ensures
            self.gave_search(query@, r),
    ;

    /// Whether `answer` is an answer that the site may give when asked for
    /// the chapters of the title `manga_id`. A site that says nothing of its
    /// answers may give any.
    open spec fn gave_chapters(&self, manga_id: Seq<char>, answer: Result<Vec<C>, PluginError>) -> bool {
        true
    }

    /// The chapters of a title.
    fn get_chapters(&self, manga_id: &str) -> (r: Result<Vec<C>, PluginError>)
        ensures
            self.gave_chapters(manga_id@, r),
    ;

    /// Whether `answer` is an answer that the site may give when asked for
    /// the pages of the chapter `chapter_id`. A site that says nothing of its
    /// answers may give any.
    open spec fn gave_pages(&self, chapter_id: Seq<char>, answer: Result<Vec<PageUrl>, PluginError>) -> bool {
        true
    }

    /// The page images of a chapter.
    fn get_pages(&self, chapter_id: &str) -> (r: Result<Vec<PageUrl>, PluginError>)
        ensures
            self.gave_pages(chapter_id@, r),
    ;

    /// Whether `answer` is an answer that the site may give when asked to
    /// download `url`. A site that says nothing of its answers may give any.
    open spec fn gave_download(&self, url: PageUrl, answer: Result<Vec<u8>, PluginError>) -> bool {
        true
    }

    /// The bytes of one page image.
    fn download_page(&self, url: &PageUrl) -> (r: Result<Vec<u8>, PluginError>)
        ensures
            self.gave_download(*url, r),
    ;
}

/// The message of a request for a site that is not registered.
pub open spec fn unknown_source_message() -> Seq<char> {
    "Unknown source"@
}

/// The message of a page that no site could download.
pub open spec fn no_download_message() -> Seq<char> {
    "No source could download this page"@
}

/// The results gathered so far, extended by one site's answer; a site that
/// failed adds nothing.
pub open spec fn gathered(acc: Seq<SearchResult>, answer: Result<Vec<SearchResult>, PluginError>) -> Seq<SearchResult> {
    match answer {
        Ok(v) => acc + v@,
        Err(_) => acc,
    }
}

/// The results of a search whose sites gave `answers`, in order: the titles
/// of each site that answered, one site after the other.
pub open spec fn gather_all(answers: Seq<Result<Vec<SearchResult>, PluginError>>) -> Seq<SearchResult>
    decreases answers.len(),
{
    if answers.len() == 0 {
        Seq::empty()
    } else {
        gathered(gather_all(answers.drop_last()), answers.last())
    }
}

/// The sites were asked for `url` in order and gave `answers`, and `r`
/// is what the first success gave; an error comes only after every site
/// failed.
pub open spec fn tried_in_order<C>(
    sites: Seq<Box<dyn MangaSource<C>>>,
    url: PageUrl,
    answers: Seq<Result<Vec<u8>, PluginError>>,
    r: Result<Vec<u8>, PluginError>,
) -> bool {
    &&& answers.len() <= sites.len()
    &&& forall|k: int| 0 <= k < answers.len() ==> sites[k].gave_download(url, #[trigger] answers[k])
    &&& forall|k: int| 0 <= k < answers.len() - 1 ==> (#[trigger] answers[k]) is Err
    &&& match r {
        Ok(d) => answers.len() > 0 && answers.last() == Ok::<Vec<u8>, PluginError>(d),
        Err(_) => answers.len() == sites.len() && (answers.len() > 0 ==> answers.last() is Err),
    }
}

/// Adds one site's answer to a search to the results gathered so far.
pub fn gather(acc: &mut Vec<SearchResult>, answer: Result<Vec<SearchResult>, PluginError>)
    ensures
        final(acc)@ == gathered(old(acc)@, answer),
{
    match answer {
        Ok(mut v) => {
            acc.append(&mut v);
        },
        Err(_) => {},
    }
}

fn unknown_source() -> (e: PluginError)
    ensures
        e matches PluginError::RuntimeError(m) && m@ == unknown_source_message(),
{
    PluginError::RuntimeError(owned("Unknown source"))
}

/// Downloads manga from the sites registered with it.
#[verifier::reject_recursive_types(C)]
pub struct MangaDownloaderPlugin<C> {
    meta: PluginMetadata,
    sources: Vec<Box<dyn MangaSource<C>>>,
}

impl<C> MangaDownloaderPlugin<C> {
    /// The registered sites, in order.
    pub closed spec fn source_seq(&self) -> Seq<Box<dyn MangaSource<C>>> {
        self.sources@
    }

    /// The plugin's metadata.
    pub closed spec fn meta_view(&self) -> PluginMetadata {
        self.meta
    }

    /// A downloader with no sites.
    pub fn new() -> (r: MangaDownloaderPlugin<C>)
        ensures
            r.source_seq().len() == 0,
            r.meta_view().id@ == "mm.content.downloader"@,
            r.meta_view().name@ == "Manga Downloader"@,
            r.meta_view().version@ == "0.1.0"@,
            r.meta_view().author@ == "MangaMeeya"@,
            r.meta_view().description@ == "Download manga from various sources"@,
            r.meta_view().plugin_type == PluginType::ContentSource,
            r.meta_view().permissions@ == seq![Permission::NetworkAccess, Permission::FileSystemWrite],
    {
        let mut permissions: Vec<Permission> = Vec::new();
        permissions.push(Permission::NetworkAccess);
        permissions.push(Permission::FileSystemWrite);
        let meta = PluginMetadata {
            id: owned("mm.content.downloader"),
            name: owned("Manga Downloader"),
            version: owned("0.1.0"),
            author: owned("MangaMeeya"),
            description: owned("Download manga from various sources"),
            plugin_type: PluginType::ContentSource,
            permissions,
        };
        MangaDownloaderPlugin { meta, sources: Vec::new() }
    }

    /// Registers a site after those already registered.
    pub fn add_source(&mut self, source: Box<dyn MangaSource<C>>)
        ensures
            final(self).source_seq() == old(self).source_seq().push(source),
            final(self).meta_view() == old(self).meta_view(),
    {
        self.sources.push(source);
    }

    /// Number of registered sites.
    pub fn source_count(&self) -> (r: usize)
        ensures
            r == self.source_seq().len(),
    {
        self.sources.len()
    }

    /// The names of the registered sites, in order of registration.
    pub fn source_names(&self) -> (r: Vec<&str>)
        ensures
            r@.len() == self.source_seq().len(),
            forall|k: int| 0 <= k < r@.len() ==> self.source_seq()[k].gave_name(#[trigger] r@[k]@),
    {
        let mut names: Vec<&str> = Vec::new();
        let mut i: usize = 0;
        while i < self.sources.len()
            invariant
                i <= self.sources@.len(),
                names@.len() == i,
                forall|k: int| 0 <= k < i ==> self.sources@[k].gave_name(#[trigger] names@[k]@),
            decreases self.sources@.len() - i,
        {
            names.push(self.sources[i].name());
            i = i + 1;
        }
        names
    }
}

impl<C> Default for MangaDownloaderPlugin<C> {
    fn default() -> (r: MangaDownloaderPlugin<C>)
        ensures
            r.source_seq().len() == 0,
    {
        MangaDownloaderPlugin::new()
    }
}

impl<C> Plugin for MangaDownloaderPlugin<C> {
    fn metadata(&self) -> (r: &PluginMetadata)
        ensures
            *r == self.meta_view(),
    {
        &self.meta
    }
}

impl<C> ContentSourcePlugin for MangaDownloaderPlugin<C> {
    type Chapter = C;

    fn source_name(&self) -> (r: &str)
        ensures
            r@ == "Manga Downloader"@,
    {
        "Manga Downloader"
    }

    /// Asks every site in turn and gathers the titles of those that answer;
    /// a site that fails is passed over, so the search itself never fails.
    fn search(&self, query: &str) -> (r: Result<Vec<SearchResult>, PluginError>)
        ensures
            r is Ok,
            self.source_seq().len() == 0 ==> (r matches Ok(v) && v@.len() == 0),
            exists|answers: Seq<Result<Vec<SearchResult>, PluginError>>|
                answers.len() == self.source_seq().len()
                && (forall|k: int| 0 <= k < answers.len() ==> self.source_seq()[k].gave_search(query@, #[trigger] answers[k]))
                && (r matches Ok(v) && v@ == gather_all(answers)),
    {
        let mut all: Vec<SearchResult> = Vec::new();
        let ghost mut answers: Seq<Result<Vec<SearchResult>, PluginError>> = Seq::empty();
        let mut i: usize = 0;
        while i < self.sources.len()
            invariant
                i <= self.sources@.len(),
                answers.len() == i,
                forall|k: int| 0 <= k < i ==> self.sources@[k].gave_search(query@, #[trigger] answers[k]),
                all@ == gather_all(answers),
            decreases self.sources@.len() - i,
        {
            let answer = self.sources[i].search(query);
            proof {
                let prev = answers;
                answers = answers.push(answer);
                assert(answers.drop_last() =~= prev);
            }
            gather(&mut all, answer);
            i = i + 1;
        }
        assert(self.source_seq() == self.sources@);
        Ok(all)
    }

    /// Hands the request to the site named by the id's index, with the rest
    /// of the id; an error when no site has that index.
    fn get_chapters(&self, manga_id: &str) -> (r: Result<Vec<C>, PluginError>)
        ensures
            source_id_parts(manga_id@).0 >= self.source_seq().len() ==> (r matches Err(PluginError::RuntimeError(m))
                && m@ == unknown_source_message()),
            source_id_parts(manga_id@).0 < self.source_seq().len() ==> self.source_seq()[source_id_parts(manga_id@).0 as int].gave_chapters(
                source_id_parts(manga_id@).1,
                r,
            ),
    {
        let (index, id) = parse_source_id(manga_id);
        if index < self.sources.len() {
            self.sources[index].get_chapters(id.as_str())
        } else {
            Err(unknown_source())
        }
    }

    /// Hands the request to the site named by the id's index, with the rest
    /// of the id; an error when no site has that index.
    fn get_pages(&self, chapter_id: &str) -> (r: Result<Vec<PageUrl>, PluginError>)
        ensures
            source_id_parts(chapter_id@).0 >= self.source_seq().len() ==> (r matches Err(PluginError::RuntimeError(m))
                && m@ == unknown_source_message()),
            source_id_parts(chapter_id@).0 < self.source_seq().len() ==> self.source_seq()[source_id_parts(chapter_id@).0 as int].gave_pages(
                source_id_parts(chapter_id@).1,
                r,
            ),
    {
        let (index, id) = parse_source_id(chapter_id);
        if index < self.sources.len() {
            self.sources[index].get_pages(id.as_str())
        } else {
            Err(unknown_source())
        }
    }

    /// Tries the sites in order and returns the first download that
    /// succeeds; an error when none does.
    fn download_page(&self, url: &PageUrl) -> (r: Result<Vec<u8>, PluginError>)
        ensures
            self.source_seq().len() == 0 ==> r is Err,
            r matches Err(e) ==> (e matches PluginError::RuntimeError(m) && m@ == no_download_message()),
            exists|answers: Seq<Result<Vec<u8>, PluginError>>| #[trigger] tried_in_order(self.source_seq(), *url, answers, r),
    {
        let ghost mut answers: Seq<Result<Vec<u8>, PluginError>> = Seq::empty();
        let mut i: usize = 0;
        while i < self.sources.len()
            invariant
                i <= self.sources@.len(),
                answers.len() == i,
                forall|k: int| 0 <= k < i ==> self.sources@[k].gave_download(*url, #[trigger] answers[k]),
                forall|k: int| 0 <= k < i ==> (#[trigger] answers[k]) is Err,
            decreases self.sources@.len() - i,
        {
            let answer = self.sources[i].download_page(url);
            proof {
                answers = answers.push(answer);
            }
            match answer {
                Ok(data) => {
                    assert(tried_in_order(self.source_seq(), *url, answers, Ok(data)));
                    return Ok(data);
                },
                Err(_) => {},
            }
            i = i + 1;
        }
        let r = Err(PluginError::RuntimeError(owned("No source could download this page")));
        assert(tried_in_order(self.source_seq(), *url, answers, r));
        r
    }
}

} // verus!
