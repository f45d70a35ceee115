//! User commands and their input bindings: keyboard combinations, mouse
//! actions and gestures.

use crate::seqs::{first_index, lemma_first_index_at};
use crate::vk;
use vstd::prelude::*;

verus! {

/// The commands that user input can trigger.
#[derive(Debug, Clone, Copy, PartialEq, Eq, Hash, Structural)]
pub enum Command {
    // Navigation
    NextPage,
    PrevPage,
    NextPageDual,
    PrevPageDual,
    FirstPage,
    LastPage,
    JumpToPage,

    // Navigation - N-page jumps
    JumpForward10,
    JumpForward20,
    JumpForward50,
    JumpBackward10,
    JumpBackward20,
    JumpBackward50,

    // Folder navigation
    NextFolder,
    PrevFolder,
    NextSubFolder,
    PrevSubFolder,
    UpOneLevel,

    // Scrolling
    ScrollUp,
    ScrollDown,
    ScrollLeft,
    ScrollRight,
    ScrollPageUp,
    ScrollPageDown,
    ScrollToTop,
    ScrollToBottom,

    // Zoom
    ZoomIn,
    ZoomOut,
    ZoomReset,
    ZoomFitWidth,
    ZoomFitHeight,
    ZoomFitScreen,
    ZoomOriginal,

    // View modes
    ToggleFullscreen,
    ToggleDualPage,
    ToggleSinglePage,
    ToggleDualWithCover,
    ToggleReadingDirection,
    ToggleThumbnailView,
    ToggleAutoSplit,
    ShowFileIndex,
    ShowGoToPageDialog,
    ShowImageInfo,
    ShowCacheInfo,
    ShowAbout,

    // Browsing modes
    SetBrowsingNoRepeat,
    SetBrowsingRepeat,
    SetBrowsingContinuous,

    // File operations
    OpenFile,
    OpenFolder,
    OpenUrl,
    CloseFile,
    SaveImage,
    QuickSave1,
    QuickSave2,
    QuickSave3,
    QuickSave4,

    // Bookmarks & Lists
    ToggleBookmark,
    NextBookmark,
    PrevBookmark,
    ShowPlaylist,
    ShowBookmarks,
    ShowHistory,
    ShowBookRack,

    // UI
    ToggleToolbar,
    ToggleFolderTree,
    ToggleScrollBar,
    ToggleFileView,
    ToggleThumbnail,
    ToggleBookContents,
    TogglePageInfo,
    ToggleToolbarIcons,
    ShowSettings,

    // Image processing
    RotateCw90,
    RotateCcw90,
    Rotate180,
    FlipHorizontal,
    FlipVertical,
    ApplyFilter,
    ToggleLoupe,

    // Scaling
    SetScaleFitWindowToImage,
    SetScaleFitWindow2Pages,
    SetScaleManual,
    SetScaleCustom,
    ToggleDownscaleOnly,
    SetFilterHalftone,
    SetFilterPixelAvg,
    SetFilterLanczos,
    SetFilterBicubic,
    SetFilterBilinear,
    SetFilterPixelAvgWeakSharpen,
    SetFilterPixelAvgStrongSharpen,

    // Slide show
    SlideShowStart,
    SlideShowStop,
    SlideShowToggle,

    // System
    Quit,
    Refresh,
    ExternalEditor,
    DeleteFile,
    CopyImage,
    PrintImage,

    // Scroll position
    OriginTopLeft,
    OriginTopRight,
    OriginBottomLeft,
    OriginBottomRight,
}

/// The display name of a command; `Unknown` for commands without one.
pub open spec fn command_name(c: Command) -> Seq<char> {
    match c {
        Command::NextPage => "Next Page"@,
        Command::PrevPage => "Previous Page"@,
        Command::FirstPage => "First Page"@,
        Command::LastPage => "Last Page"@,
        Command::JumpForward10 => "Jump Forward 10 Pages"@,
        Command::JumpForward20 => "Jump Forward 20 Pages"@,
        Command::JumpForward50 => "Jump Forward 50 Pages"@,
        Command::JumpBackward10 => "Jump Backward 10 Pages"@,
        Command::JumpBackward20 => "Jump Backward 20 Pages"@,
        Command::JumpBackward50 => "Jump Backward 50 Pages"@,
        Command::NextFolder => "Next Folder"@,
        Command::PrevFolder => "Previous Folder"@,
        Command::ToggleFullscreen => "Toggle Fullscreen"@,
        Command::ToggleDualPage => "Toggle Dual Page"@,
        Command::ToggleThumbnailView => "Toggle Thumbnail View"@,
        Command::ToggleAutoSplit => "Toggle Auto Split"@,
        Command::SetBrowsingContinuous => "Continuous Browsing"@,
        Command::SetBrowsingRepeat => "Repeat Browsing"@,
        Command::SetBrowsingNoRepeat => "No Repeat Browsing"@,
        Command::OpenFile => "Open File"@,
        Command::Quit => "Quit"@,
        Command::ZoomIn => "Zoom In"@,
        Command::ZoomOut => "Zoom Out"@,
        Command::SetScaleFitWindowToImage => "Fit Window to Image"@,
        Command::SetScaleFitWindow2Pages => "Fit Window to 2 Pages"@,
        Command::ToggleDownscaleOnly => "Toggle Downscale Only"@,
        _ => "Unknown"@,
    }
}

impl Command {
    /// A human-readable name for this command.
    pub fn display_name(self) -> (r: &'static str)
        ensures
            r@ == command_name(self),
    {
        match self {
            Command::NextPage => "Next Page",
            Command::PrevPage => "Previous Page",
            Command::FirstPage => "First Page",
            Command::LastPage => "Last Page",
            Command::JumpForward10 => "Jump Forward 10 Pages",
            Command::JumpForward20 => "Jump Forward 20 Pages",
            Command::JumpForward50 => "Jump Forward 50 Pages",
            Command::JumpBackward10 => "Jump Backward 10 Pages",
            Command::JumpBackward20 => "Jump Backward 20 Pages",
            Command::JumpBackward50 => "Jump Backward 50 Pages",
            Command::NextFolder => "Next Folder",
            Command::PrevFolder => "Previous Folder",
            Command::ToggleFullscreen => "Toggle Fullscreen",
            Command::ToggleDualPage => "Toggle Dual Page",
            Command::ToggleThumbnailView => "Toggle Thumbnail View",
            Command::ToggleAutoSplit => "Toggle Auto Split",
            Command::SetBrowsingContinuous => "Continuous Browsing",
            Command::SetBrowsingRepeat => "Repeat Browsing",
            Command::SetBrowsingNoRepeat => "No Repeat Browsing",
            Command::OpenFile => "Open File",
            Command::Quit => "Quit",
            Command::ZoomIn => "Zoom In",
            Command::ZoomOut => "Zoom Out",
            Command::SetScaleFitWindowToImage => "Fit Window to Image",
            Command::SetScaleFitWindow2Pages => "Fit Window to 2 Pages",
            Command::ToggleDownscaleOnly => "Toggle Downscale Only",
            _ => "Unknown",
        }
    }
}

/// A keyboard key with its modifiers.
#[derive(Debug, Clone, Copy, Hash, PartialEq, Eq, Structural)]
pub struct KeyCombo {
    pub key: u32,
    pub ctrl: bool,
    pub shift: bool,
    pub alt: bool,
}

/// A mouse action.
#[derive(Debug, Clone, Copy, Hash, PartialEq, Eq, Structural)]
pub enum MouseAction {
    LeftClick,
    RightClick,
    MiddleClick,
    DoubleClick,
    WheelUp,
    WheelDown,
    DragLeft,
    DragRight,
    LongPress,
}

/// A stroke direction of a mouse gesture.
#[derive(Debug, Clone, Copy, Hash, PartialEq, Eq, Structural)]
pub enum GestureDirection {
    Up,
    Down,
    Left,
    Right,
}

/// The commands bound to keys, mouse actions and gestures.
#[derive(Debug)]
pub struct InputBindings {
    pub keyboard: Vec<(KeyCombo, Command)>,
    pub mouse_buttons: Vec<(MouseAction, Command)>,
    pub gestures: Vec<(Vec<GestureDirection>, Command)>,
}

/// A key without modifiers.
pub fn key(code: u32) -> (r: KeyCombo)
    ensures
        r == (KeyCombo { key: code, ctrl: false, shift: false, alt: false }),
{
    KeyCombo { key: code, ctrl: false, shift: false, alt: false }
}

/// A key with Ctrl held.
pub fn ctrl(code: u32) -> (r: KeyCombo)
    ensures
        r == (KeyCombo { key: code, ctrl: true, shift: false, alt: false }),
{
    KeyCombo { key: code, ctrl: true, shift: false, alt: false }
}

/// The default keyboard bindings.
pub open spec fn default_keyboard() -> Seq<(KeyCombo, Command)> {
    seq![
        (KeyCombo { key: 34, ctrl: false, shift: false, alt: false }, Command::NextPage),
        (KeyCombo { key: 33, ctrl: false, shift: false, alt: false }, Command::PrevPage),
        (KeyCombo { key: 36, ctrl: false, shift: false, alt: false }, Command::FirstPage),
        (KeyCombo { key: 35, ctrl: false, shift: false, alt: false }, Command::LastPage),
        (KeyCombo { key: 32, ctrl: false, shift: false, alt: false }, Command::NextPage),
        (KeyCombo { key: 8, ctrl: false, shift: false, alt: false }, Command::PrevPage),
        (KeyCombo { key: 37, ctrl: false, shift: false, alt: false }, Command::ScrollLeft),
        (KeyCombo { key: 38, ctrl: false, shift: false, alt: false }, Command::ScrollUp),
        (KeyCombo { key: 39, ctrl: false, shift: false, alt: false }, Command::ScrollRight),
        (KeyCombo { key: 40, ctrl: false, shift: false, alt: false }, Command::ScrollDown),
        (KeyCombo { key: 187, ctrl: false, shift: false, alt: false }, Command::ZoomIn),
        (KeyCombo { key: 189, ctrl: false, shift: false, alt: false }, Command::ZoomOut),
        (KeyCombo { key: 48, ctrl: false, shift: false, alt: false }, Command::ZoomReset),
        (KeyCombo { key: 122, ctrl: false, shift: false, alt: false }, Command::ToggleFullscreen),
        (KeyCombo { key: 13, ctrl: false, shift: false, alt: false }, Command::ToggleFullscreen),
        (KeyCombo { key: 68, ctrl: false, shift: false, alt: false }, Command::ToggleDualPage),
        (KeyCombo { key: 79, ctrl: true, shift: false, alt: false }, Command::OpenFile),
        (KeyCombo { key: 83, ctrl: true, shift: false, alt: false }, Command::SaveImage),
        (KeyCombo { key: 81, ctrl: true, shift: false, alt: false }, Command::Quit),
        (KeyCombo { key: 66, ctrl: false, shift: false, alt: false }, Command::ToggleBookmark),
        (KeyCombo { key: 188, ctrl: false, shift: false, alt: false }, Command::RotateCcw90),
        (KeyCombo { key: 190, ctrl: false, shift: false, alt: false }, Command::RotateCw90),
        (KeyCombo { key: 80, ctrl: false, shift: false, alt: false }, Command::SlideShowToggle),
        (KeyCombo { key: 116, ctrl: false, shift: false, alt: false }, Command::Refresh),
        (KeyCombo { key: 112, ctrl: false, shift: false, alt: false }, Command::ShowSettings),
        (KeyCombo { key: 46, ctrl: false, shift: false, alt: false }, Command::DeleteFile),
    ]
}

/// The default mouse bindings.
pub open spec fn default_mouse() -> Seq<(MouseAction, Command)> {
    seq![
        (MouseAction::WheelUp, Command::ScrollUp),
        (MouseAction::WheelDown, Command::ScrollDown),
        (MouseAction::DoubleClick, Command::ToggleFullscreen),
    ]
}

/// The default gesture bindings.
pub open spec fn default_gestures() -> Seq<(Seq<GestureDirection>, Command)> {
    seq![
        (seq![GestureDirection::Right], Command::NextPage),
        (seq![GestureDirection::Left], Command::PrevPage),
        (seq![GestureDirection::Up, GestureDirection::Down], Command::Refresh),
    ]
}

/// The stroke sequences and commands of gesture bindings.
pub open spec fn gestures_view(s: Seq<(Vec<GestureDirection>, Command)>) -> Seq<(Seq<GestureDirection>, Command)> {
    s.map_values(|g: (Vec<GestureDirection>, Command)| (g.0@, g.1))
}

/// A binding is for key combination `k`.
pub open spec fn binds_key(k: KeyCombo) -> spec_fn((KeyCombo, Command)) -> bool {
    |b: (KeyCombo, Command)| b.0 == k
}

/// A binding is for mouse action `k`.
pub open spec fn binds_action(k: MouseAction) -> spec_fn((MouseAction, Command)) -> bool {
    |b: (MouseAction, Command)| b.0 == k
}

/// The command of the first binding of a key combination.
pub open spec fn key_bound(s: Seq<(KeyCombo, Command)>, k: KeyCombo) -> Option<Command> {
    match first_index(s, binds_key(k)) {
        Some(i) => Some(s[i].1),
        None => None,
    }
}

/// The command of the first binding of a mouse action.
pub open spec fn mouse_bound(s: Seq<(MouseAction, Command)>, k: MouseAction) -> Option<Command> {
    match first_index(s, binds_action(k)) {
        Some(i) => Some(s[i].1),
        None => None,
    }
}

/// The command of the first binding of a gesture's strokes.
pub open spec fn gesture_bound(s: Seq<(Seq<GestureDirection>, Command)>, k: Seq<GestureDirection>) -> Option<Command> {
    match first_index(s, |b: (Seq<GestureDirection>, Command)| b.0 == k) {
        Some(i) => Some(s[i].1),
        None => None,
    }
}

proof fn lemma_default_key_0()
    ensures
        key_bound(default_keyboard(), KeyCombo { key: 34, ctrl: false, shift: false, alt: false }) == Some(Command::NextPage),
{
    reveal_with_fuel(first_index, 2);
}

proof fn lemma_default_key_1()
    ensures
        key_bound(default_keyboard(), KeyCombo { key: 33, ctrl: false, shift: false, alt: false }) == Some(Command::PrevPage),
{
    reveal_with_fuel(first_index, 3);
}

proof fn lemma_default_key_2()
    ensures
        key_bound(default_keyboard(), KeyCombo { key: 36, ctrl: false, shift: false, alt: false }) == Some(Command::FirstPage),
{
    reveal_with_fuel(first_index, 4);
}

proof fn lemma_default_key_3()
    ensures
        key_bound(default_keyboard(), KeyCombo { key: 35, ctrl: false, shift: false, alt: false }) == Some(Command::LastPage),
{
    reveal_with_fuel(first_index, 5);
}

proof fn lemma_default_key_4()
    ensures
        key_bound(default_keyboard(), KeyCombo { key: 32, ctrl: false, shift: false, alt: false }) == Some(Command::NextPage),
{
    reveal_with_fuel(first_index, 6);
}

proof fn lemma_default_key_5()
    ensures
        key_bound(default_keyboard(), KeyCombo { key: 8, ctrl: false, shift: false, alt: false }) == Some(Command::PrevPage),
{
    reveal_with_fuel(first_index, 7);
}

proof fn lemma_default_key_6()
    ensures
        key_bound(default_keyboard(), KeyCombo { key: 37, ctrl: false, shift: false, alt: false }) == Some(Command::ScrollLeft),
{
    reveal_with_fuel(first_index, 8);
}

proof fn lemma_default_key_7()
    ensures
        key_bound(default_keyboard(), KeyCombo { key: 38, ctrl: false, shift: false, alt: false }) == Some(Command::ScrollUp),
{
    reveal_with_fuel(first_index, 9);
}

proof fn lemma_default_key_8()
    ensures
        key_bound(default_keyboard(), KeyCombo { key: 39, ctrl: false, shift: false, alt: false }) == Some(Command::ScrollRight),
{
    reveal_with_fuel(first_index, 10);
}

proof fn lemma_default_key_9()
    ensures
        key_bound(default_keyboard(), KeyCombo { key: 40, ctrl: false, shift: false, alt: false }) == Some(Command::ScrollDown),
{
    reveal_with_fuel(first_index, 11);
}

proof fn lemma_default_key_10()
    ensures
        key_bound(default_keyboard(), KeyCombo { key: 187, ctrl: false, shift: false, alt: false }) == Some(Command::ZoomIn),
{
    reveal_with_fuel(first_index, 12);
}

proof fn lemma_default_key_11()
    ensures
        key_bound(default_keyboard(), KeyCombo { key: 189, ctrl: false, shift: false, alt: false }) == Some(Command::ZoomOut),
{
    reveal_with_fuel(first_index, 13);
}

proof fn lemma_default_key_12()
    ensures
        key_bound(default_keyboard(), KeyCombo { key: 48, ctrl: false, shift: false, alt: false }) == Some(Command::ZoomReset),
{
    reveal_with_fuel(first_index, 14);
}

proof fn lemma_default_key_13()
    ensures
        key_bound(default_keyboard(), KeyCombo { key: 122, ctrl: false, shift: false, alt: false }) == Some(Command::ToggleFullscreen),
{
    reveal_with_fuel(first_index, 15);
}

proof fn lemma_default_key_14()
    ensures
        key_bound(default_keyboard(), KeyCombo { key: 13, ctrl: false, shift: false, alt: false }) == Some(Command::ToggleFullscreen),
{
    reveal_with_fuel(first_index, 16);
}

proof fn lemma_default_key_15()
    ensures
        key_bound(default_keyboard(), KeyCombo { key: 68, ctrl: false, shift: false, alt: false }) == Some(Command::ToggleDualPage),
{
    reveal_with_fuel(first_index, 17);
}

proof fn lemma_default_key_16()
    ensures
        key_bound(default_keyboard(), KeyCombo { key: 79, ctrl: true, shift: false, alt: false }) == Some(Command::OpenFile),
{
    reveal_with_fuel(first_index, 18);
}

proof fn lemma_default_key_17()
    ensures
        key_bound(default_keyboard(), KeyCombo { key: 83, ctrl: true, shift: false, alt: false }) == Some(Command::SaveImage),
{
    reveal_with_fuel(first_index, 19);
}

#[verifier::rlimit(100)]
proof fn lemma_default_key_18()
    ensures
        key_bound(default_keyboard(), KeyCombo { key: 81, ctrl: true, shift: false, alt: false }) == Some(Command::Quit),
{
    reveal_with_fuel(first_index, 20);
}

#[verifier::rlimit(100)]
proof fn lemma_default_key_19()
    ensures
        key_bound(default_keyboard(), KeyCombo { key: 66, ctrl: false, shift: false, alt: false }) == Some(Command::ToggleBookmark),
{
    reveal_with_fuel(first_index, 21);
}

#[verifier::rlimit(100)]
proof fn lemma_default_key_20()
    ensures
        key_bound(default_keyboard(), KeyCombo { key: 188, ctrl: false, shift: false, alt: false }) == Some(Command::RotateCcw90),
{
    reveal_with_fuel(first_index, 22);
}

#[verifier::rlimit(100)]
proof fn lemma_default_key_21()
    ensures
        key_bound(default_keyboard(), KeyCombo { key: 190, ctrl: false, shift: false, alt: false }) == Some(Command::RotateCw90),
{
    reveal_with_fuel(first_index, 23);
}

#[verifier::rlimit(100)]
proof fn lemma_default_key_22()
    ensures
        key_bound(default_keyboard(), KeyCombo { key: 80, ctrl: false, shift: false, alt: false }) == Some(Command::SlideShowToggle),
{
    reveal_with_fuel(first_index, 24);
}

#[verifier::rlimit(100)]
proof fn lemma_default_key_23()
    ensures
        key_bound(default_keyboard(), KeyCombo { key: 116, ctrl: false, shift: false, alt: false }) == Some(Command::Refresh),
{
    reveal_with_fuel(first_index, 25);
}

#[verifier::rlimit(100)]
proof fn lemma_default_key_24()
    ensures
        key_bound(default_keyboard(), KeyCombo { key: 112, ctrl: false, shift: false, alt: false }) == Some(Command::ShowSettings),
{
    reveal_with_fuel(first_index, 26);
}

#[verifier::rlimit(100)]
proof fn lemma_default_key_25()
    ensures
        key_bound(default_keyboard(), KeyCombo { key: 46, ctrl: false, shift: false, alt: false }) == Some(Command::DeleteFile),
{
    reveal_with_fuel(first_index, 27);
}

/// What each key does by default: Page Down and Space turn to the next page,
/// Page Up and Backspace to the previous one, Home and End to the first and
/// last; the arrows scroll; `+`, `-` and `0` zoom in, out and back; F11 and
/// Enter toggle full screen and `D` two-page view; Ctrl+O, Ctrl+S and Ctrl+Q
/// open, save and quit; `B` toggles a bookmark; `,` rotates counter-clockwise
/// and `.` clockwise; `P` runs the slide show, F5 refreshes, F1 shows the
/// settings and Delete deletes the file.
pub proof fn lemma_default_keys()
    ensures
        key_bound(default_keyboard(), KeyCombo { key: 34, ctrl: false, shift: false, alt: false }) == Some(Command::NextPage),
        key_bound(default_keyboard(), KeyCombo { key: 33, ctrl: false, shift: false, alt: false }) == Some(Command::PrevPage),
        key_bound(default_keyboard(), KeyCombo { key: 36, ctrl: false, shift: false, alt: false }) == Some(Command::FirstPage),
        key_bound(default_keyboard(), KeyCombo { key: 35, ctrl: false, shift: false, alt: false }) == Some(Command::LastPage),
        key_bound(default_keyboard(), KeyCombo { key: 32, ctrl: false, shift: false, alt: false }) == Some(Command::NextPage),
        key_bound(default_keyboard(), KeyCombo { key: 8, ctrl: false, shift: false, alt: false }) == Some(Command::PrevPage),
        key_bound(default_keyboard(), KeyCombo { key: 37, ctrl: false, shift: false, alt: false }) == Some(Command::ScrollLeft),
        key_bound(default_keyboard(), KeyCombo { key: 38, ctrl: false, shift: false, alt: false }) == Some(Command::ScrollUp),
        key_bound(default_keyboard(), KeyCombo { key: 39, ctrl: false, shift: false, alt: false }) == Some(Command::ScrollRight),
        key_bound(default_keyboard(), KeyCombo { key: 40, ctrl: false, shift: false, alt: false }) == Some(Command::ScrollDown),
        key_bound(default_keyboard(), KeyCombo { key: 187, ctrl: false, shift: false, alt: false }) == Some(Command::ZoomIn),
        key_bound(default_keyboard(), KeyCombo { key: 189, ctrl: false, shift: false, alt: false }) == Some(Command::ZoomOut),
        key_bound(default_keyboard(), KeyCombo { key: 48, ctrl: false, shift: false, alt: false }) == Some(Command::ZoomReset),
        key_bound(default_keyboard(), KeyCombo { key: 122, ctrl: false, shift: false, alt: false }) == Some(Command::ToggleFullscreen),
        key_bound(default_keyboard(), KeyCombo { key: 13, ctrl: false, shift: false, alt: false }) == Some(Command::ToggleFullscreen),
        key_bound(default_keyboard(), KeyCombo { key: 68, ctrl: false, shift: false, alt: false }) == Some(Command::ToggleDualPage),
        key_bound(default_keyboard(), KeyCombo { key: 79, ctrl: true, shift: false, alt: false }) == Some(Command::OpenFile),
        key_bound(default_keyboard(), KeyCombo { key: 83, ctrl: true, shift: false, alt: false }) == Some(Command::SaveImage),
        key_bound(default_keyboard(), KeyCombo { key: 81, ctrl: true, shift: false, alt: false }) == Some(Command::Quit),
        key_bound(default_keyboard(), KeyCombo { key: 66, ctrl: false, shift: false, alt: false }) == Some(Command::ToggleBookmark),
        key_bound(default_keyboard(), KeyCombo { key: 188, ctrl: false, shift: false, alt: false }) == Some(Command::RotateCcw90),
        key_bound(default_keyboard(), KeyCombo { key: 190, ctrl: false, shift: false, alt: false }) == Some(Command::RotateCw90),
        key_bound(default_keyboard(), KeyCombo { key: 80, ctrl: false, shift: false, alt: false }) == Some(Command::SlideShowToggle),
        key_bound(default_keyboard(), KeyCombo { key: 116, ctrl: false, shift: false, alt: false }) == Some(Command::Refresh),
        key_bound(default_keyboard(), KeyCombo { key: 112, ctrl: false, shift: false, alt: false }) == Some(Command::ShowSettings),
        key_bound(default_keyboard(), KeyCombo { key: 46, ctrl: false, shift: false, alt: false }) == Some(Command::DeleteFile),
{
    lemma_default_key_0();
    lemma_default_key_1();
    lemma_default_key_2();
    lemma_default_key_3();
    lemma_default_key_4();
    lemma_default_key_5();
    lemma_default_key_6();
    lemma_default_key_7();
    lemma_default_key_8();
    lemma_default_key_9();
    lemma_default_key_10();
    lemma_default_key_11();
    lemma_default_key_12();
    lemma_default_key_13();
    lemma_default_key_14();
    lemma_default_key_15();
    lemma_default_key_16();
    lemma_default_key_17();
    lemma_default_key_18();
    lemma_default_key_19();
    lemma_default_key_20();
    lemma_default_key_21();
    lemma_default_key_22();
    lemma_default_key_23();
    lemma_default_key_24();
    lemma_default_key_25();
}

/// What the mouse does by default: the wheel scrolls up and down, and a
/// double click toggles full screen.
pub proof fn lemma_default_mouse()
    ensures
        mouse_bound(default_mouse(), MouseAction::WheelUp) == Some(Command::ScrollUp),
        mouse_bound(default_mouse(), MouseAction::WheelDown) == Some(Command::ScrollDown),
        mouse_bound(default_mouse(), MouseAction::DoubleClick) == Some(Command::ToggleFullscreen),
{
    reveal_with_fuel(first_index, 5);
}

fn bind_key(keyboard: &mut Vec<(KeyCombo, Command)>, combo: KeyCombo, command: Command)
    ensures
        final(keyboard)@ == old(keyboard)@.push((combo, command)),
{
    keyboard.push((combo, command));
}

fn same_strokes(a: &[GestureDirection], b: &[GestureDirection]) -> (r: bool)
    ensures
        r == (a@ == b@),
{
    if a.len() != b.len() {
        return false;
    }
    let mut i: usize = 0;
    while i < a.len()
        invariant
            a@.len() == b@.len(),
            i <= a@.len(),
            forall|j: int| 0 <= j < i ==> a@[j] == b@[j],
        decreases a@.len() - i,
    {
        if a[i] != b[i] {
            return false;
        }
        i = i + 1;
    }
    assert(a@ =~= b@);
    true
}

/// The default key and mouse bindings of MangaMeeya.
pub fn default_bindings() -> (r: InputBindings)
    ensures
        r.keyboard@ == default_keyboard(),
        r.mouse_buttons@ == default_mouse(),
        gestures_view(r.gestures@) == default_gestures(),
{
    let mut keyboard: Vec<(KeyCombo, Command)> = Vec::new();
    bind_key(&mut keyboard, key(vk::PAGE_DOWN), Command::NextPage);
    bind_key(&mut keyboard, key(vk::PAGE_UP), Command::PrevPage);
    bind_key(&mut keyboard, key(vk::HOME), Command::FirstPage);
    bind_key(&mut keyboard, key(vk::END), Command::LastPage);
    bind_key(&mut keyboard, key(vk::SPACE), Command::NextPage);
    bind_key(&mut keyboard, key(vk::BACKSPACE), Command::PrevPage);
    bind_key(&mut keyboard, key(vk::LEFT), Command::ScrollLeft);
    bind_key(&mut keyboard, key(vk::UP), Command::ScrollUp);
    bind_key(&mut keyboard, key(vk::RIGHT), Command::ScrollRight);
    bind_key(&mut keyboard, key(vk::DOWN), Command::ScrollDown);
    bind_key(&mut keyboard, key(vk::PLUS), Command::ZoomIn);
    bind_key(&mut keyboard, key(vk::MINUS), Command::ZoomOut);
    bind_key(&mut keyboard, key(vk::KEY_0), Command::ZoomReset);
    bind_key(&mut keyboard, key(vk::F11), Command::ToggleFullscreen);
    bind_key(&mut keyboard, key(vk::ENTER), Command::ToggleFullscreen);
    bind_key(&mut keyboard, key(vk::KEY_D), Command::ToggleDualPage);
    bind_key(&mut keyboard, ctrl(vk::KEY_O), Command::OpenFile);
    bind_key(&mut keyboard, ctrl(vk::KEY_S), Command::SaveImage);
    bind_key(&mut keyboard, ctrl(vk::KEY_Q), Command::Quit);
    bind_key(&mut keyboard, key(vk::KEY_B), Command::ToggleBookmark);
    bind_key(&mut keyboard, key(vk::COMMA), Command::RotateCcw90);
    bind_key(&mut keyboard, key(vk::PERIOD), Command::RotateCw90);
    bind_key(&mut keyboard, key(vk::KEY_P), Command::SlideShowToggle);
    bind_key(&mut keyboard, key(vk::F5), Command::Refresh);
    bind_key(&mut keyboard, key(vk::F1), Command::ShowSettings);
    bind_key(&mut keyboard, key(vk::DELETE), Command::DeleteFile);
    let mut mouse_buttons: Vec<(MouseAction, Command)> = Vec::new();
    mouse_buttons.push((MouseAction::WheelUp, Command::ScrollUp));
    mouse_buttons.push((MouseAction::WheelDown, Command::ScrollDown));
    mouse_buttons.push((MouseAction::DoubleClick, Command::ToggleFullscreen));
    let mut gestures: Vec<(Vec<GestureDirection>, Command)> = Vec::new();
    let mut right: Vec<GestureDirection> = Vec::new();
    right.push(GestureDirection::Right);
    assert(right@ =~= seq![GestureDirection::Right]);
    gestures.push((right, Command::NextPage));
    let mut left: Vec<GestureDirection> = Vec::new();
    left.push(GestureDirection::Left);
    assert(left@ =~= seq![GestureDirection::Left]);
    gestures.push((left, Command::PrevPage));
    let mut up_down: Vec<GestureDirection> = Vec::new();
    up_down.push(GestureDirection::Up);
    up_down.push(GestureDirection::Down);
    assert(up_down@ =~= seq![GestureDirection::Up, GestureDirection::Down]);
    gestures.push((up_down, Command::Refresh));
    assert(keyboard@ =~= default_keyboard());
    assert(mouse_buttons@ =~= default_mouse());
    assert(gestures_view(gestures@) =~= default_gestures());
    InputBindings { keyboard, mouse_buttons, gestures }
}

impl Default for InputBindings {
    fn default() -> (r: InputBindings)
        ensures
            r.keyboard@ == default_keyboard(),
            r.mouse_buttons@ == default_mouse(),
            gestures_view(r.gestures@) == default_gestures(),
    {
        default_bindings()
    }
}

impl InputBindings {
    /// The command bound to a key combination.
    pub fn keyboard_command(&self, combo: &KeyCombo) -> (r: Option<Command>)
        ensures
            r == key_bound(self.keyboard@, *combo),
    {
        let ghost pred = binds_key(*combo);
        let mut i: usize = 0;
        while i < self.keyboard.len()
            invariant
                i <= self.keyboard@.len(),
                pred == binds_key(*combo),
                forall|j: int| 0 <= j < i ==> !pred(#[trigger] self.keyboard@[j]),
            decreases self.keyboard@.len() - i,
        {
            if self.keyboard[i].0 == *combo {
                assert(self.keyboard@[i as int].0 == *combo);
                proof {
                    lemma_first_index_at(self.keyboard@, pred, i as int);
                }
                return Some(self.keyboard[i].1);
            }
            i = i + 1;
        }
        proof {
            lemma_first_index_at(self.keyboard@, pred, i as int);
        }
        None
    }

    /// The command bound to a mouse action.
    pub fn mouse_command(&self, action: MouseAction) -> (r: Option<Command>)
        ensures
            r == mouse_bound(self.mouse_buttons@, action),
    {
        let ghost pred = binds_action(action);
        let mut i: usize = 0;
        while i < self.mouse_buttons.len()
            invariant
                i <= self.mouse_buttons@.len(),
                pred == binds_action(action),
                forall|j: int| 0 <= j < i ==> !pred(#[trigger] self.mouse_buttons@[j]),
            decreases self.mouse_buttons@.len() - i,
        {
            if self.mouse_buttons[i].0 == action {
                proof {
                    lemma_first_index_at(self.mouse_buttons@, pred, i as int);
                }
                return Some(self.mouse_buttons[i].1);
            }
            i = i + 1;
        }
        proof {
            lemma_first_index_at(self.mouse_buttons@, pred, i as int);
        }
        None
    }

    /// The command bound to a gesture's strokes.
    pub fn gesture_command(&self, strokes: &[GestureDirection]) -> (r: Option<Command>)
        ensures
            r == gesture_bound(gestures_view(self.gestures@), strokes@),
    {
        let ghost g = gestures_view(self.gestures@);
        let ghost pred = |b: (Seq<GestureDirection>, Command)| b.0 == strokes@;
        let mut i: usize = 0;
        while i < self.gestures.len()
            invariant
                i <= self.gestures@.len(),
                g == gestures_view(self.gestures@),
                pred == (|b: (Seq<GestureDirection>, Command)| b.0 == strokes@),
                forall|j: int| 0 <= j < i ==> !pred(#[trigger] g[j]),
            decreases self.gestures@.len() - i,
        {
            if same_strokes(self.gestures[i].0.as_slice(), strokes) {
                proof {
                    lemma_first_index_at(g, pred, i as int);
                }
                return Some(self.gestures[i].1);
            }
            i = i + 1;
        }
        proof {
            lemma_first_index_at(g, pred, i as int);
        }
        None
    }
}

} // verus!
