//! Translated user-interface messages, in English and Japanese.

use crate::seqs::{first_index, lemma_first_index_at};
use crate::text::{chars_of, owned, replace_all, replace_chars, str_equal, string_from_chars};
use vstd::prelude::*;

verus! {

/// Message keys with their texts.
pub type Catalog = Seq<(Seq<char>, Seq<char>)>;

/// The keys and texts that a list of string pairs holds.
pub open spec fn catalog_view(s: Seq<(String, String)>) -> Catalog {
    s.map_values(|e: (String, String)| (e.0@, e.1@))
}

/// The English messages.
pub open spec fn english_catalog() -> Catalog {
    seq![
        ("app.title"@, "MangaMeeya"@),
        ("menu.file"@, "File"@),
        ("menu.open"@, "Open"@),
        ("menu.save"@, "Save"@),
        ("menu.quit"@, "Quit"@),
        ("menu.view"@, "View"@),
        ("menu.fullscreen"@, "Fullscreen"@),
        ("menu.settings"@, "Settings"@),
        ("page.info"@, "Page {current}/{total}"@),
        ("page.next"@, "Next Page"@),
        ("page.prev"@, "Previous Page"@),
        ("page.first"@, "First Page"@),
        ("page.last"@, "Last Page"@),
        ("mode.single"@, "Single Page"@),
        ("mode.dual"@, "Dual Page"@),
        ("error.open_failed"@, "Failed to open: {path}"@),
        ("error.decode_failed"@, "Failed to decode image"@),
    ]
}

/// The Japanese messages.
pub open spec fn japanese_catalog() -> Catalog {
    seq![
        ("app.title"@, "MangaMeeya"@),
        ("menu.file"@, "ファイル"@),
        ("menu.open"@, "開く"@),
        ("menu.save"@, "保存"@),
        ("menu.quit"@, "終了"@),
        ("menu.view"@, "表示"@),
        ("menu.fullscreen"@, "全画面"@),
        ("menu.settings"@, "設定"@),
        ("page.info"@, "ページ {current}/{total}"@),
        ("page.next"@, "次のページ"@),
        ("page.prev"@, "前のページ"@),
        ("page.first"@, "最初のページ"@),
        ("page.last"@, "最後のページ"@),
        ("mode.single"@, "単一ページ"@),
        ("mode.dual"@, "見開きページ"@),
        ("error.open_failed"@, "開けませんでした: {path}"@),
        ("error.decode_failed"@, "画像のデコードに失敗しました"@),
    ]
}

/// The messages of a locale: Japanese for `ja`, English for any other.
pub open spec fn catalog_for(locale: Seq<char>) -> Catalog {
    if locale == "ja"@ {
        japanese_catalog()
    } else {
        english_catalog()
    }
}

/// The text of `key`, or the key itself when the catalog lacks it.
pub open spec fn message(cat: Catalog, key: Seq<char>) -> Seq<char> {
    match first_index(cat, |e: (Seq<char>, Seq<char>)| e.0 == key) {
        Some(i) => cat[i].1,
        None => key,
    }
}

/// The placeholder `{name}`.
pub open spec fn placeholder(name: Seq<char>) -> Seq<char> {
    seq!['{'] + name + seq!['}']
}

/// `text` with the placeholder of each argument replaced by its value, the
/// arguments taken in order.
pub open spec fn interpolate(text: Seq<char>, args: Seq<(Seq<char>, Seq<char>)>) -> Seq<char>
    decreases args.len(),
{
    if args.len() == 0 {
        text
    } else {
        replace_all(interpolate(text, args.drop_last()), placeholder(args.last().0), args.last().1)
    }
}

/// The names and values of interpolation arguments.
pub open spec fn args_view(args: Seq<(&str, &str)>) -> Seq<(Seq<char>, Seq<char>)> {
    args.map_values(|a: (&str, &str)| (a.0@, a.1@))
}

/// The English messages.
fn load_english() -> (m: Vec<(String, String)>)
    ensures
        catalog_view(m@) == english_catalog(),
{
    let mut m: Vec<(String, String)> = Vec::new();
    m.push((owned("app.title"), owned("MangaMeeya")));
    m.push((owned("menu.file"), owned("File")));
    m.push((owned("menu.open"), owned("Open")));
    m.push((owned("menu.save"), owned("Save")));
    m.push((owned("menu.quit"), owned("Quit")));
    m.push((owned("menu.view"), owned("View")));
    m.push((owned("menu.fullscreen"), owned("Fullscreen")));
    m.push((owned("menu.settings"), owned("Settings")));
    m.push((owned("page.info"), owned("Page {current}/{total}")));
    m.push((owned("page.next"), owned("Next Page")));
    m.push((owned("page.prev"), owned("Previous Page")));
    m.push((owned("page.first"), owned("First Page")));
    m.push((owned("page.last"), owned("Last Page")));
    m.push((owned("mode.single"), owned("Single Page")));
    m.push((owned("mode.dual"), owned("Dual Page")));
    m.push((owned("error.open_failed"), owned("Failed to open: {path}")));
    m.push((owned("error.decode_failed"), owned("Failed to decode image")));
    assert(catalog_view(m@) =~= english_catalog());
    m
}

/// The Japanese messages.
fn load_japanese() -> (m: Vec<(String, String)>)
    ensures
        catalog_view(m@) == japanese_catalog(),
{
    let mut m: Vec<(String, String)> = Vec::new();
    m.push((owned("app.title"), owned("MangaMeeya")));
    m.push((owned("menu.file"), owned("ファイル")));
    m.push((owned("menu.open"), owned("開く")));
    m.push((owned("menu.save"), owned("保存")));
    m.push((owned("menu.quit"), owned("終了")));
    m.push((owned("menu.view"), owned("表示")));
    m.push((owned("menu.fullscreen"), owned("全画面")));
    m.push((owned("menu.settings"), owned("設定")));
    m.push((owned("page.info"), owned("ページ {current}/{total}")));
    m.push((owned("page.next"), owned("次のページ")));
    m.push((owned("page.prev"), owned("前のページ")));
    m.push((owned("page.first"), owned("最初のページ")));
    m.push((owned("page.last"), owned("最後のページ")));
    m.push((owned("mode.single"), owned("単一ページ")));
    m.push((owned("mode.dual"), owned("見開きページ")));
    m.push((owned("error.open_failed"), owned("開けませんでした: {path}")));
    m.push((owned("error.decode_failed"), owned("画像のデコードに失敗しました")));
    assert(catalog_view(m@) =~= japanese_catalog());
    m
}

fn load_catalog(locale: &str) -> (m: Vec<(String, String)>)
    ensures
        catalog_view(m@) == catalog_for(locale@),
{
    if str_equal(locale, "ja") {
        load_japanese()
    } else {
        load_english()
    }
}

/// Messages of the current locale.
pub struct I18n {
    locale: String,
    messages: Vec<(String, String)>,
}

impl I18n {
    /// The current locale.
    pub closed spec fn locale_view(&self) -> Seq<char> {
        self.locale@
    }

    /// The messages in use.
    pub closed spec fn catalog(&self) -> Catalog {
        catalog_view(self.messages@)
    }

    /// Messages for `locale`: Japanese for `ja`, English otherwise.
    pub fn new(locale: &str) -> (r: I18n)
        ensures
            r.locale_view() == locale@,
            r.catalog() == catalog_for(locale@),
    {
        I18n { locale: owned(locale), messages: load_catalog(locale) }
    }

    /// The current locale.
    pub fn locale(&self) -> (r: &str)
        ensures
            r@ == self.locale_view(),
    {
        self.locale.as_str()
    }

    /// The text of `key`, or `key` itself when there is no such message.
    pub fn get<'a>(&'a self, key: &'a str) -> (r: &'a str)
        ensures
            r@ == message(self.catalog(), key@),
    {
        let ghost cat = self.catalog();
        let ghost pred = |e: (Seq<char>, Seq<char>)| e.0 == key@;
        let mut i: usize = 0;
        while i < self.messages.len()
            invariant
                i <= self.messages@.len(),
                cat == catalog_view(self.messages@),
                pred == (|e: (Seq<char>, Seq<char>)| e.0 == key@),
                forall|j: int| 0 <= j < i ==> !pred(#[trigger] cat[j]),
            decreases self.messages@.len() - i,
        {
            if str_equal(self.messages[i].0.as_str(), key) {
                proof {
                    lemma_first_index_at(cat, pred, i as int);
                }
                return self.messages[i].1.as_str();
            }
            i = i + 1;
        }
        proof {
            lemma_first_index_at(cat, pred, i as int);
        }
        key
    }

    /// The text of `key` with each `{name}` placeholder replaced by its value.
    pub fn format(&self, key: &str, args: &[(&str, &str)]) -> (r: String)
        ensures
            r@ == interpolate(message(self.catalog(), key@), args_view(args@)),
    {
        let mut text = chars_of(self.get(key));
        let ghost base = text@;
        let mut i: usize = 0;
        while i < args.len()
            invariant
                i <= args@.len(),
                text@ == interpolate(base, args_view(args@).take(i as int)),
            decreases args@.len() - i,
        {
            let (name, value) = args[i];
            let mut pat: Vec<char> = Vec::new();
            pat.push('{');
            let nm = chars_of(name);
            let mut k: usize = 0;
            while k < nm.len()
                invariant
                    k <= nm@.len(),
                    pat@ == seq!['{'] + nm@.take(k as int),
                decreases nm@.len() - k,
            {
                pat.push(nm[k]);
                k = k + 1;
                assert(pat@ =~= seq!['{'] + nm@.take(k as int));
            }
            pat.push('}');
            assert(pat@ =~= placeholder(name@));
            let vals = chars_of(value);
            text = replace_chars(text.as_slice(), pat.as_slice(), vals.as_slice());
            proof {
                let a = args_view(args@);
                assert(a.take(i + 1).drop_last() =~= a.take(i as int));
                assert(a.take(i + 1).last() == (name@, value@));
            }
            i = i + 1;
        }
        assert(args_view(args@).take(args@.len() as int) =~= args_view(args@));
        string_from_chars(text.as_slice())
    }

    /// Switches to the messages of `locale`.
    pub fn set_locale(&mut self, locale: &str)
        ensures
            final(self).locale_view() == locale@,
            final(self).catalog() == catalog_for(locale@),
    {
        self.locale = owned(locale);
        self.messages = load_catalog(locale);
    }

    /// The message keys, in catalog order.
    pub fn keys(&self) -> (r: Vec<&String>)
        ensures
            r@.len() == self.catalog().len(),
            forall|i: int| 0 <= i < r@.len() ==> (#[trigger] r@[i])@ == self.catalog()[i].0,
    {
        let mut out: Vec<&String> = Vec::new();
        let mut i: usize = 0;
        while i < self.messages.len()
            invariant
                i <= self.messages@.len(),
                out@.len() == i,
                forall|j: int| 0 <= j < i ==> (#[trigger] out@[j])@ == self.messages@[j].0@,
            decreases self.messages@.len() - i,
        {
            out.push(&self.messages[i].0);
            i = i + 1;
        }
        out
    }
}

/// Both locales have the same message keys, in the same order.
pub proof fn lemma_locales_share_keys()
    ensures
        english_catalog().len() == japanese_catalog().len(),
        forall|i: int| 0 <= i < english_catalog().len() ==> #[trigger] english_catalog()[i].0 == japanese_catalog()[i].0,
{
}

} // verus!
