//! Reading settings from INI text: sections of `key=value` lines, and the
//! import of a viewer configuration from its `[Config]` section.

use crate::config::{Config, PageModeConfig};
use crate::seqs::{first_index, lemma_first_index_at, lemma_first_index_found};
use crate::text::{
    chars_equal, chars_of, lines, parse_unsigned, parse_unsigned_chars, split_lines, string_from_chars,
    sub_chars, trim, trim_chars, char_vecs_view,
};
use vstd::prelude::*;

verus! {

/// Keys and values of one section, in order of first appearance.
pub type EntriesView = Seq<(Seq<char>, Seq<char>)>;

/// Sections with their entries, in order of first appearance.
pub type IniView = Seq<(Seq<char>, EntriesView)>;

/// One section of an INI file.
#[derive(Debug)]
pub struct IniSection {
    pub name: String,
    pub entries: Vec<(String, String)>,
}

/// The sections of an INI file.
#[derive(Debug)]
pub struct IniSections {
    pub sections: Vec<IniSection>,
}

/// The keys and values that a list of string pairs holds.
pub open spec fn entries_view(s: Seq<(String, String)>) -> EntriesView {
    s.map_values(|e: (String, String)| (e.0@, e.1@))
}

/// The names and entries that a list of sections holds.
pub open spec fn sections_view(s: Seq<IniSection>) -> IniView {
    s.map_values(|x: IniSection| (x.name@, entries_view(x.entries@)))
}

impl View for IniSection {
    type V = (Seq<char>, EntriesView);

    open spec fn view(&self) -> (Seq<char>, EntriesView) {
        (self.name@, entries_view(self.entries@))
    }
}

impl View for IniSections {
    type V = IniView;

    open spec fn view(&self) -> IniView {
        sections_view(self.sections@)
    }
}

/// The value of `key` in a section's entries.
pub open spec fn entry_value(es: EntriesView, key: Seq<char>) -> Option<Seq<char>> {
    match first_index(es, |e: (Seq<char>, Seq<char>)| e.0 == key) {
        Some(i) => Some(es[i].1),
        None => None,
    }
}

/// The entries of the section named `name`.
pub open spec fn section_entries(ss: IniView, name: Seq<char>) -> Option<EntriesView> {
    match first_index(ss, |s: (Seq<char>, EntriesView)| s.0 == name) {
        Some(i) => Some(ss[i].1),
        None => None,
    }
}

/// The entries with `key` set to `value`: a key already present keeps its
/// place, a new key goes last.
pub open spec fn set_entry(es: EntriesView, key: Seq<char>, value: Seq<char>) -> EntriesView {
    match first_index(es, |e: (Seq<char>, Seq<char>)| e.0 == key) {
        Some(i) => es.update(i, (key, value)),
        None => es.push((key, value)),
    }
}

/// The sections with a section `name` added, empty, unless present.
pub open spec fn ensure_section(ss: IniView, name: Seq<char>) -> IniView {
    match first_index(ss, |s: (Seq<char>, EntriesView)| s.0 == name) {
        Some(i) => ss,
        None => ss.push((name, seq![])),
    }
}

/// The sections with `key` set to `value` in section `name`, which is added
/// when absent.
pub open spec fn set_in_section(ss: IniView, name: Seq<char>, key: Seq<char>, value: Seq<char>) -> IniView {
    match first_index(ss, |s: (Seq<char>, EntriesView)| s.0 == name) {
        Some(i) => ss.update(i, (name, set_entry(ss[i].1, key, value))),
        None => ss.push((name, seq![(key, value)])),
    }
}

/// Sections read so far and the current section, after one more line. Blank
/// lines and comments (`;` or `#`) are skipped; `[name]` starts a section;
/// `key=value` sets a key of the current section, split at the first `=`,
/// both sides trimmed; other lines are ignored.
pub open spec fn ini_step(st: (IniView, Seq<char>), raw: Seq<char>) -> (IniView, Seq<char>) {
    let l = trim(raw);
    if l.len() == 0 || l[0] == ';' || l[0] == '#' {
        st
    } else if l[0] == '[' && l.last() == ']' {
        let name = l.subrange(1, l.len() - 1);
        (ensure_section(st.0, name), name)
    } else {
        match first_index(l, |c: char| c == '=') {
            Some(k) => (set_in_section(st.0, st.1, trim(l.take(k)), trim(l.skip(k + 1))), st.1),
            None => st,
        }
    }
}

/// The state after reading the lines `ls`, starting with no sections and the
/// unnamed current section.
pub open spec fn ini_lines(ls: Seq<Seq<char>>) -> (IniView, Seq<char>)
    decreases ls.len(),
{
    if ls.len() == 0 {
        (seq![], seq![])
    } else {
        ini_step(ini_lines(ls.drop_last()), ls.last())
    }
}

/// The sections of INI text.
pub open spec fn ini_of(text: Seq<char>) -> IniView {
    ini_lines(lines(text)).0
}

fn string_is(s: &String, c: &[char]) -> (r: bool)
    ensures
        r == (s@ == c@),
{
    let v = chars_of(s.as_str());
    chars_equal(v.as_slice(), c)
}

fn find_entry(es: &Vec<(String, String)>, key: &[char]) -> (r: Option<usize>)
    ensures
        r matches Some(i) ==> first_index(entries_view(es@), |e: (Seq<char>, Seq<char>)| e.0 == key@) == Some(i as int),
        r is None ==> first_index(entries_view(es@), |e: (Seq<char>, Seq<char>)| e.0 == key@) is None,
        r matches Some(i) ==> i < es@.len(),
{
    let ghost pred = |e: (Seq<char>, Seq<char>)| e.0 == key@;
    let ghost v = entries_view(es@);
    let mut i: usize = 0;
    while i < es.len()
        invariant
            i <= es@.len(),
            v == entries_view(es@),
            pred == (|e: (Seq<char>, Seq<char>)| e.0 == key@),
            forall|j: int| 0 <= j < i ==> !pred(#[trigger] v[j]),
        decreases es@.len() - i,
    {
        if string_is(&es[i].0, key) {
            proof {
                lemma_first_index_at(v, pred, i as int);
            }
            return Some(i);
        }
        i = i + 1;
    }
    proof {
        lemma_first_index_at(v, pred, i as int);
    }
    None
}

fn find_section(ss: &Vec<IniSection>, name: &[char]) -> (r: Option<usize>)
    ensures
        r matches Some(i) ==> first_index(sections_view(ss@), |s: (Seq<char>, EntriesView)| s.0 == name@) == Some(i as int),
        r is None ==> first_index(sections_view(ss@), |s: (Seq<char>, EntriesView)| s.0 == name@) is None,
        r matches Some(i) ==> i < ss@.len(),
{
    let ghost pred = |s: (Seq<char>, EntriesView)| s.0 == name@;
    let ghost v = sections_view(ss@);
    let mut i: usize = 0;
    while i < ss.len()
        invariant
            i <= ss@.len(),
            v == sections_view(ss@),
            pred == (|s: (Seq<char>, EntriesView)| s.0 == name@),
            forall|j: int| 0 <= j < i ==> !pred(#[trigger] v[j]),
        decreases ss@.len() - i,
    {
        if string_is(&ss[i].name, name) {
            proof {
                lemma_first_index_at(v, pred, i as int);
            }
            return Some(i);
        }
        i = i + 1;
    }
    proof {
        lemma_first_index_at(v, pred, i as int);
    }
    None
}

fn set_entry_exec(es: &mut Vec<(String, String)>, key: &[char], value: &[char])
    ensures
        entries_view(final(es)@) == set_entry(entries_view(old(es)@), key@, value@),
{
    let k = string_from_chars(key);
    let v = string_from_chars(value);
    match find_entry(es, key) {
        Some(i) => {
            let ghost before = entries_view(es@);
            proof {
                lemma_first_index_found(before, |e: (Seq<char>, Seq<char>)| e.0 == key@);
            }
            es.set(i, (k, v));
            assert(entries_view(es@) =~= before.update(i as int, (key@, value@)));
        },
        None => {
            let ghost before = entries_view(es@);
            es.push((k, v));
            assert(entries_view(es@) =~= before.push((key@, value@)));
        },
    }
}

fn ensure_section_exec(ss: &mut Vec<IniSection>, name: &[char])
    ensures
        sections_view(final(ss)@) == ensure_section(sections_view(old(ss)@), name@),
{
    match find_section(ss, name) {
        Some(_) => {},
        None => {
            let ghost before = sections_view(ss@);
            ss.push(IniSection { name: string_from_chars(name), entries: Vec::new() });
            assert(entries_view(Seq::<(String, String)>::empty()) =~= Seq::<(Seq<char>, Seq<char>)>::empty());
            assert(sections_view(ss@) =~= before.push((name@, seq![])));
        },
    }
}

fn set_in_section_exec(ss: &mut Vec<IniSection>, name: &[char], key: &[char], value: &[char])
    ensures
        sections_view(final(ss)@) == set_in_section(sections_view(old(ss)@), name@, key@, value@),
{
    let ghost before = sections_view(ss@);
    match find_section(ss, name) {
        Some(i) => {
            proof {
                lemma_first_index_found(before, |s: (Seq<char>, EntriesView)| s.0 == name@);
                assert(before[i as int] == ss@[i as int]@);
            }
            let mut sec = ss.remove(i);
            set_entry_exec(&mut sec.entries, key, value);
            ss.insert(i, sec);
            assert(sections_view(ss@) =~= before.update(i as int, (name@, set_entry(before[i as int].1, key@, value@))));
        },
        None => {
            let mut entries: Vec<(String, String)> = Vec::new();
            entries.push((string_from_chars(key), string_from_chars(value)));
            ss.push(IniSection { name: string_from_chars(name), entries });
            assert(entries_view(ss@.last().entries@) =~= seq![(key@, value@)]);
            assert(sections_view(ss@) =~= before.push((name@, seq![(key@, value@)])));
        },
    }
}

fn find_char_in(s: &[char], c: char) -> (r: Option<usize>)
    ensures
        r matches Some(i) ==> first_index(s@, |x: char| x == c) == Some(i as int),
        r is None ==> first_index(s@, |x: char| x == c) is None,
        r matches Some(i) ==> i < s@.len(),
{
    let ghost pred = |x: char| x == c;
    let mut i: usize = 0;
    while i < s.len()
        invariant
            i <= s@.len(),
            pred == (|x: char| x == c),
            forall|j: int| 0 <= j < i ==> !pred(#[trigger] s@[j]),
        decreases s@.len() - i,
    {
        if s[i] == c {
            proof {
                lemma_first_index_at(s@, pred, i as int);
            }
            return Some(i);
        }
        i = i + 1;
    }
    proof {
        lemma_first_index_at(s@, pred, i as int);
    }
    None
}

/// Parses INI text into its sections.
pub fn parse_ini(contents: &str) -> (r: IniSections)
    ensures
        r@ == ini_of(contents@),
{
    let text = chars_of(contents);
    let ls = split_lines(text.as_slice());
    let ghost lv = char_vecs_view(ls@);
    let mut sections: Vec<IniSection> = Vec::new();
    let mut current: Vec<char> = Vec::new();
    let mut n: usize = 0;
    while n < ls.len()
        invariant
            n <= ls@.len(),
            lv == char_vecs_view(ls@),
            lv == lines(contents@),
            (sections_view(sections@), current@) == ini_lines(lv.take(n as int)),
        decreases ls@.len() - n,
    {
        proof {
            assert(lv.take(n + 1).drop_last() =~= lv.take(n as int));
            assert(lv.take(n + 1).last() == lv[n as int]);
            assert(lv[n as int] == ls@[n as int]@);
        }
        let ghost st = ini_lines(lv.take(n as int));
        let ghost raw = lv[n as int];
        let line = trim_chars(ls[n].as_slice());
        let len = line.len();
        if len == 0 || line[0] == ';' || line[0] == '#' {
        } else if line[0] == '[' && line[len - 1] == ']' {
            let name = sub_chars(line.as_slice(), 1, len - 1);
            ensure_section_exec(&mut sections, name.as_slice());
            current = name;
        } else {
            match find_char_in(line.as_slice(), '=') {
                Some(k) => {
                    let kpart = sub_chars(line.as_slice(), 0, k);
                    let vpart = sub_chars(line.as_slice(), k + 1, len);
                    let key = trim_chars(kpart.as_slice());
                    let value = trim_chars(vpart.as_slice());
                    proof {
                        assert(kpart@ =~= line@.take(k as int));
                        assert(vpart@ =~= line@.skip(k + 1));
                    }
                    set_in_section_exec(&mut sections, current.as_slice(), key.as_slice(), value.as_slice());
                },
                None => {},
            }
        }
        assert((sections_view(sections@), current@) == ini_step(st, raw));
        n = n + 1;
    }
    assert(lv.take(ls@.len() as int) =~= lv);
    IniSections { sections }
}

impl IniSections {
    /// The section named `name`.
    pub fn get(&self, name: &str) -> (r: Option<&IniSection>)
        ensures
            match section_entries(self@, name@) {
                Some(es) => r matches Some(s) && s@.0 == name@ && s@.1 == es,
                None => r is None,
            },
    {
        let key = chars_of(name);
        match find_section(&self.sections, key.as_slice()) {
            Some(i) => {
                proof {
                    lemma_first_index_found(self@, |s: (Seq<char>, EntriesView)| s.0 == name@);
                    assert(self@[i as int] == self.sections@[i as int]@);
                }
                Some(&self.sections[i])
            },
            None => None,
        }
    }

    /// Number of sections.
    pub fn len(&self) -> (r: usize)
        ensures
            r == self@.len(),
    {
        self.sections.len()
    }
}

impl IniSection {
    /// The value of `key` in this section.
    pub fn get(&self, key: &str) -> (r: Option<&String>)
        ensures
            match entry_value(self@.1, key@) {
                Some(v) => r matches Some(s) && s@ == v,
                None => r is None,
            },
    {
        let k = chars_of(key);
        match find_entry(&self.entries, k.as_slice()) {
            Some(i) => {
                proof {
                    lemma_first_index_found(self@.1, |e: (Seq<char>, Seq<char>)| e.0 == key@);
                    assert(self@.1[i as int] == (self.entries@[i as int].0@, self.entries@[i as int].1@));
                }
                Some(&self.entries[i].1)
            },
            None => None,
        }
    }

    /// Number of keys.
    pub fn len(&self) -> (r: usize)
        ensures
            r == self@.1.len(),
    {
        self.entries.len()
    }
}

/// The entries of the `[Config]` section of INI text; none when it is absent.
pub open spec fn config_entries(text: Seq<char>) -> EntriesView {
    match section_entries(ini_of(text), "Config"@) {
        Some(es) => es,
        None => seq![],
    }
}

/// The number that `key` holds, when it parses as a number no larger than
/// `max`; `default` otherwise.
pub open spec fn ini_number(es: EntriesView, key: Seq<char>, max: nat, default: nat) -> nat {
    match entry_value(es, key) {
        Some(v) => match parse_unsigned(v, max) {
            Some(n) => n,
            None => default,
        },
        None => default,
    }
}

/// Whether `key` is `1`; `default` when the key is absent.
pub open spec fn ini_flag(es: EntriesView, key: Seq<char>, default: bool) -> bool {
    match entry_value(es, key) {
        Some(v) => v == seq!['1'],
        None => default,
    }
}

/// The page mode that `PageMode` selects: `1` for two pages, anything else
/// for one; two pages when absent.
pub open spec fn ini_page_mode(es: EntriesView) -> PageModeConfig {
    match entry_value(es, "PageMode"@) {
        Some(v) => if v == seq!['1'] {
            PageModeConfig::Dual
        } else {
            PageModeConfig::Single
        },
        None => PageModeConfig::Dual,
    }
}

fn lookup_value(sec: Option<&IniSection>, key: &str) -> (r: Option<Vec<char>>)
    ensures
        match sec {
            Some(s) => match entry_value(s@.1, key@) {
                Some(v) => r matches Some(c) && c@ == v,
                None => r is None,
            },
            None => r is None,
        },
{
    match sec {
        Some(s) => match s.get(key) {
            Some(v) => Some(chars_of(v.as_str())),
            None => None,
        },
        None => None,
    }
}

fn number_of(sec: Option<&IniSection>, key: &str, max: u64, default: u64) -> (r: u64)
    requires
        default <= max,
    ensures
        r == ini_number(match sec { Some(s) => s@.1, None => seq![] }, key@, max as nat, default as nat),
        r <= max,
{
    proof {
        assert(entry_value(Seq::<(Seq<char>, Seq<char>)>::empty(), key@) is None);
    }
    match lookup_value(sec, key) {
        Some(v) => match parse_unsigned_chars(v.as_slice(), max) {
            Some(n) => n,
            None => default,
        },
        None => default,
    }
}

fn flag_of(sec: Option<&IniSection>, key: &str, default: bool) -> (r: bool)
    ensures
        r == ini_flag(match sec { Some(s) => s@.1, None => seq![] }, key@, default),
{
    proof {
        assert(entry_value(Seq::<(Seq<char>, Seq<char>)>::empty(), key@) is None);
    }
    match lookup_value(sec, key) {
        Some(v) => {
            let r = v.len() == 1 && v[0] == '1';
            assert(r == (v@ =~= seq!['1']));
            r
        },
        None => default,
    }
}

/// Settings imported from the text of a MangaMeeya INI file:
/// the defaults, with each known key of the `[Config]` section applied. A
/// number that does not parse keeps the default; a flag is on when it is
/// `1`.
pub fn import_ini_text(contents: &str) -> (r: Config)
    ensures
        ({
            let es = config_entries(contents@);
            &&& r.window.width == ini_number(es, "StartUpWidth"@, u32::MAX as nat, 640)
            &&& r.window.height == ini_number(es, "StartUpHeight"@, u32::MAX as nat, 480)
            &&& r.window.maximized == false
            &&& r.window.fullscreen == ini_flag(es, "FullScreen"@, false)
            &&& r.window.save_position == ini_flag(es, "SaveWindowPosSize"@, true)
            &&& r.window.top_most == ini_flag(es, "TopMost"@, false)
            &&& r.viewing.page_mode == ini_page_mode(es)
            &&& r.viewing.scale_mode == crate::config::viewing_defaults().scale_mode
            &&& r.viewing.reading_direction == crate::config::viewing_defaults().reading_direction
            &&& r.viewing.auto_dual_detect == true
            &&& r.viewing.centering == ini_flag(es, "Centering"@, false)
            &&& r.viewing.hide_cursor == ini_flag(es, "HideCursor"@, false)
            &&& r.scrolling.smooth_scroll == ini_flag(es, "SmoothScroll"@, true)
            &&& r.scrolling.smooth_scroll_speed == ini_number(es, "SmoothScrollSpeed"@, u32::MAX as nat, 1300)
            &&& r.scrolling.smooth_scroll_accel == ini_number(es, "SmoothScrollAccel"@, u32::MAX as nat, 50)
            &&& r.scrolling.keyboard_h_speed == ini_number(es, "KeyBoardHScrollSpeed"@, u32::MAX as nat, 350)
            &&& r.scrolling.keyboard_v_speed == ini_number(es, "KeyBoardVScrollSpeed"@, u32::MAX as nat, 350)
            &&& r.scrolling.mouse_wheel_h_speed == ini_number(es, "MouseWheelHScrollSpeed"@, u32::MAX as nat, 150)
            &&& r.scrolling.mouse_wheel_v_speed == ini_number(es, "MouseWheelVScrollSpeed"@, u32::MAX as nat, 150)
            &&& r.cache.prepage_forward == ini_number(es, "PrepageForwardNum"@, usize::MAX as nat, 2)
            &&& r.cache.prepage_backward == ini_number(es, "PrepageBackwardNum"@, usize::MAX as nat, 2)
            &&& r.cache.cache_num == ini_number(es, "CacheNum"@, usize::MAX as nat, 200)
            &&& r.cache.file_cache_size_mb == ini_number(es, "FileCacheSize"@, usize::MAX as nat, 200)
            &&& r.cache.gc_limit_mb == ini_number(es, "GCLimitSize"@, usize::MAX as nat, 300)
            &&& r.cache.resize_cache == ini_flag(es, "ResizeCache"@, true)
            &&& r.image.scale_filter == ini_number(es, "ScaleFilter"@, u32::MAX as nat, 6)
            &&& r.image.default_save_format@ == "jpg"@
            &&& r.image.jpeg_quality == ini_number(es, "SaveJpgQuality"@, u8::MAX as nat, 100)
            &&& r.image.png_compression == ini_number(es, "SavePngCompress"@, u8::MAX as nat, 9)
            &&& r.paths.last_open_folder is None
            &&& r.paths.save_folder is None
        }),
{
    let sections = parse_ini(contents);
    let sec = sections.get("Config");
    let ghost es = config_entries(contents@);
    assert(es == match sec { Some(s) => s@.1, None => Seq::<(Seq<char>, Seq<char>)>::empty() });
    let mut config = Config::default();
    let u32max: u64 = 0xFFFF_FFFF;
    let umax = usize::MAX as u64;
    config.window.width = number_of(sec, "StartUpWidth", u32max, 640) as u32;
    config.window.height = number_of(sec, "StartUpHeight", u32max, 480) as u32;
    config.window.fullscreen = flag_of(sec, "FullScreen", false);
    config.window.save_position = flag_of(sec, "SaveWindowPosSize", true);
    config.window.top_most = flag_of(sec, "TopMost", false);
    config.viewing.page_mode = match lookup_value(sec, "PageMode") {
        Some(v) => {
            if v.len() == 1 && v[0] == '1' {
                assert(v@ =~= seq!['1']);
                PageModeConfig::Dual
            } else {
                assert(v@ != seq!['1']);
                PageModeConfig::Single
            }
        },
        None => PageModeConfig::Dual,
    };
    config.viewing.centering = flag_of(sec, "Centering", false);
    config.viewing.hide_cursor = flag_of(sec, "HideCursor", false);
    config.scrolling.smooth_scroll = flag_of(sec, "SmoothScroll", true);
    config.scrolling.smooth_scroll_speed = number_of(sec, "SmoothScrollSpeed", u32max, 1300) as u32;
    config.scrolling.smooth_scroll_accel = number_of(sec, "SmoothScrollAccel", u32max, 50) as u32;
    config.scrolling.keyboard_h_speed = number_of(sec, "KeyBoardHScrollSpeed", u32max, 350) as u32;
    config.scrolling.keyboard_v_speed = number_of(sec, "KeyBoardVScrollSpeed", u32max, 350) as u32;
    config.scrolling.mouse_wheel_h_speed = number_of(sec, "MouseWheelHScrollSpeed", u32max, 150) as u32;
    config.scrolling.mouse_wheel_v_speed = number_of(sec, "MouseWheelVScrollSpeed", u32max, 150) as u32;
    config.cache.prepage_forward = number_of(sec, "PrepageForwardNum", umax, 2) as usize;
    config.cache.prepage_backward = number_of(sec, "PrepageBackwardNum", umax, 2) as usize;
    config.cache.cache_num = number_of(sec, "CacheNum", umax, 200) as usize;
    config.cache.file_cache_size_mb = number_of(sec, "FileCacheSize", umax, 200) as usize;
    config.cache.gc_limit_mb = number_of(sec, "GCLimitSize", umax, 300) as usize;
    config.cache.resize_cache = flag_of(sec, "ResizeCache", true);
    config.image.scale_filter = number_of(sec, "ScaleFilter", u32max, 6) as u32;
    config.image.jpeg_quality = number_of(sec, "SaveJpgQuality", 255, 100) as u8;
    config.image.png_compression = number_of(sec, "SavePngCompress", 255, 9) as u8;
    config
}

} // verus!
