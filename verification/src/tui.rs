//! Full-screen subscription usage view: the keys, the scroll, and the line of
//! hints below the cards.
//!
//! The view shows the same readings as `show`, in the same words, but packed
//! for a small screen: each subscription is a rounded box with its provider
//! in the top border, and a column layout gives up its widest fields first so
//! the identity, the reading, and the reset countdown survive on a phone.

use vstd::prelude::*;
use vstd::string::StringExecFns;

use crate::cards::place;
use crate::service;
use crate::text;
use crate::width;
use crate::width::{display_width, repeat};

pub mod frame;
pub mod session;

verus! {

/// Rows a single wheel notch scrolls.
pub const WHEEL_LINES: u16 = 3;

/// The seconds after which the view asks the daemon for the snapshots again. The
/// daemon probes each account every five minutes, so this catches every round
/// without polling it for nothing. The whole wait is what the refresh bar in the
/// status line counts down.
pub const REFRESH_INTERVAL: u64 = 120;

/// The nanoseconds of a second.
pub const SECOND: u64 = 1000000000;

/// The whole wait for a refresh, in nanoseconds.
pub const REFRESH_WAIT: u64 = 120000000000;

/// Rows kept blank above the cards, so the view does not start against the
/// first row of the terminal.
pub const TOP_MARGIN: u16 = 1;

/// Rows kept blank between the cards and the status line.
pub const STATUS_GAP: u16 = 1;

/// Cells of the refresh bar.
pub const REFRESH_BAR_CELLS: usize = 10;

/// Cells of the refresh bar that survives on a narrow terminal.
pub const MINI_REFRESH_BAR_CELLS: usize = 4;

/// How the cards are placed on the screen.
#[derive(Clone, Copy, Debug, PartialEq, Eq, Structural)]
pub enum Layout {
    /// Cards flow left to right and wrap onto new bands.
    Columns,
    /// One card per band, however wide the terminal is.
    Vertical,
}

impl Default for Layout {
    fn default() -> (result: Self)
        ensures
            result == Layout::Columns,
    {
        Layout::Columns
    }
}

impl Layout {
    /// The other way.
    pub open spec fn other(self) -> Layout {
        match self {
            Layout::Columns => Layout::Vertical,
            Layout::Vertical => Layout::Columns,
        }
    }

    /// The other way.
    pub fn toggled(self) -> (result: Self)
        ensures
            result == self.other(),
    {
        match self {
            Layout::Columns => Layout::Vertical,
            Layout::Vertical => Layout::Columns,
        }
    }

    /// Whether there is one card per band.
    pub fn is_vertical(self) -> (result: bool)
        ensures
            result == (self == Layout::Vertical),
    {
        matches!(self, Layout::Vertical)
    }
}

/// Toggling the layout twice changes nothing.
pub proof fn toggling_twice_changes_nothing(layout: Layout)
    ensures
        layout.other().other() == layout,
        layout.other() != layout,
{
}

/// Where the settings of the view are kept.
#[derive(Clone, Copy, Debug, PartialEq, Eq, Structural)]
pub enum Platform {
    MacOs,
    Unix,
    Windows,
}

/// The directories of the user that the environment names.
#[derive(Debug)]
pub struct UserDirectories {
    pub home: Option<String>,
    pub state: Option<String>,
    pub local: Option<String>,
}

/// A file below a directory, where that is known.
pub open spec fn file_below(directory: Option<String>, relative: Seq<char>) -> Option<Seq<char>> {
    match directory {
        Some(directory) => Some(service::below(directory@, relative)),
        None => None,
    }
}

fn below_known(directory: &Option<String>, relative: &str) -> (result: Option<String>)
    ensures
        crate::validate::optional_view(result) == file_below(*directory, relative@),
{
    match directory {
        Some(directory) => Some(service::path_below(directory.as_str(), relative)),
        None => None,
    }
}

/// The file that holds the settings of the view.
pub open spec fn preferences_file(
    configured: Option<String>,
    platform: Platform,
    directories: UserDirectories,
) -> Option<Seq<char>> {
    match configured {
        Some(path) => Some(path@),
        None => match platform {
            Platform::MacOs => file_below(
                directories.home,
                "Library/Application Support/Ullage/tui.json"@,
            ),
            Platform::Unix => if directories.state is Some {
                file_below(directories.state, "ullage/tui.json"@)
            } else {
                file_below(directories.home, ".local/state/ullage/tui.json"@)
            },
            Platform::Windows => file_below(directories.local, "Ullage/tui.json"@),
        },
    }
}

/// The file that holds the settings of the view: beside the daemon's state file,
/// unless the environment names another.
pub fn preferences_path(
    configured: Option<String>,
    platform: Platform,
    directories: &UserDirectories,
) -> (result: Option<String>)
    ensures
        crate::validate::optional_view(result) == preferences_file(
            configured,
            platform,
            *directories,
        ),
{
    if configured.is_some() {
        return configured;
    }
    match platform {
        Platform::MacOs => below_known(
            &directories.home,
            "Library/Application Support/Ullage/tui.json",
        ),
        Platform::Unix => if directories.state.is_some() {
            below_known(&directories.state, "ullage/tui.json")
        } else {
            below_known(&directories.home, ".local/state/ullage/tui.json")
        },
        Platform::Windows => below_known(&directories.local, "Ullage/tui.json"),
    }
}

/// What the next event asks the view to do.
#[derive(Clone, Copy, Debug, PartialEq, Eq, Structural)]
pub enum Action {
    Quit,
    Up(u16),
    Down(u16),
    HalfUp,
    HalfDown,
    Top,
    Bottom,
    /// Switch between wrapping columns and one card per band.
    ToggleLayout,
    Ignore,
}

/// A key.
#[derive(Clone, Copy, Debug, PartialEq, Eq, Structural)]
pub enum Key {
    Character(char),
    Escape,
    Up,
    Down,
    PageUp,
    PageDown,
    Home,
    End,
    Other,
}

/// What a key asks for, pressed with `Control` or without.
pub open spec fn asked_by_key(key: Key, control: bool) -> Action {
    if control {
        match key {
            Key::Character(character) => if character == 'c' || character == 'C' {
                Action::Quit
            } else {
                Action::Ignore
            },
            _ => Action::Ignore,
        }
    } else {
        match key {
            Key::Escape => Action::Quit,
            Key::Up => Action::Up(1),
            Key::Down => Action::Down(1),
            Key::PageUp => Action::HalfUp,
            Key::PageDown => Action::HalfDown,
            Key::Home => Action::Top,
            Key::End => Action::Bottom,
            Key::Other => Action::Ignore,
            Key::Character(character) => if character == 'q' || character == 'Q' {
                Action::Quit
            } else if character == 'k' {
                Action::Up(1)
            } else if character == 'j' {
                Action::Down(1)
            } else if character == ' ' {
                Action::HalfDown
            } else if character == 'v' || character == 'V' {
                Action::ToggleLayout
            } else if character == 'g' {
                Action::Top
            } else if character == 'G' {
                Action::Bottom
            } else {
                Action::Ignore
            },
        }
    }
}

/// What a key asks for when it is pressed or let go of.
pub open spec fn key_asks(key: Key, control: bool, released: bool) -> Action {
    if released {
        Action::Ignore
    } else {
        asked_by_key(key, control)
    }
}

/// What a key asks for. A key that is let go of asks for nothing.
pub fn key_action(key: Key, control: bool, released: bool) -> (result: Action)
    ensures
        result == key_asks(key, control, released),
{
    if released {
        return Action::Ignore;
    }
    if control {
        return match key {
            Key::Character(character) => if character == 'c' || character == 'C' {
                Action::Quit
            } else {
                Action::Ignore
            },
            _ => Action::Ignore,
        };
    }
    match key {
        Key::Escape => Action::Quit,
        Key::Up => Action::Up(1),
        Key::Down => Action::Down(1),
        Key::PageUp => Action::HalfUp,
        Key::PageDown => Action::HalfDown,
        Key::Home => Action::Top,
        Key::End => Action::Bottom,
        Key::Other => Action::Ignore,
        Key::Character(character) => if character == 'q' || character == 'Q' {
            Action::Quit
        } else if character == 'k' {
            Action::Up(1)
        } else if character == 'j' {
            Action::Down(1)
        } else if character == ' ' {
            Action::HalfDown
        } else if character == 'v' || character == 'V' {
            Action::ToggleLayout
        } else if character == 'g' {
            Action::Top
        } else if character == 'G' {
            Action::Bottom
        } else {
            Action::Ignore
        },
    }
}

/// What happened to the mouse.
#[derive(Clone, Copy, Debug, PartialEq, Eq, Structural)]
pub enum Mouse {
    WheelUp,
    WheelDown,
    Other,
}

/// What the mouse asks for.
pub open spec fn mouse_asks(mouse: Mouse) -> Action {
    match mouse {
        Mouse::WheelUp => Action::Up(WHEEL_LINES),
        Mouse::WheelDown => Action::Down(WHEEL_LINES),
        Mouse::Other => Action::Ignore,
    }
}

/// What the mouse asks for.
pub fn mouse_action(mouse: Mouse) -> (result: Action)
    ensures
        result == mouse_asks(mouse),
{
    match mouse {
        Mouse::WheelUp => Action::Up(WHEEL_LINES),
        Mouse::WheelDown => Action::Down(WHEEL_LINES),
        Mouse::Other => Action::Ignore,
    }
}

/// The first visible content row, plus the action waiting for the next draw.
///
/// An action is applied while drawing because only then are the viewport
/// height and the content height known, and both bound the offset.
#[derive(Clone, Copy, Debug, PartialEq, Eq, Structural)]
pub struct Scroll {
    pub offset: u16,
    pub pending: Action,
}

impl Default for Scroll {
    fn default() -> (result: Self)
        ensures
            result == (Scroll { offset: 0, pending: Action::Ignore }),
    {
        Scroll { offset: 0, pending: Action::Ignore }
    }
}

/// The greatest offset at which the viewport is still full of content.
pub open spec fn last_offset(viewport: int, content: int) -> int {
    if content > viewport {
        content - viewport
    } else {
        0
    }
}

/// Half of the viewport, and at least one row, so a one-row viewport still
/// moves.
pub open spec fn half_page(viewport: int) -> int {
    if viewport / 2 > 1 {
        viewport / 2
    } else {
        1
    }
}

/// The offset that an action asks for, before it is bounded.
pub open spec fn wanted_offset(scroll: Scroll, viewport: int, content: int) -> int {
    match scroll.pending {
        Action::Up(lines) => scroll.offset - lines,
        Action::Down(lines) => scroll.offset + lines,
        Action::HalfUp => scroll.offset - half_page(viewport),
        Action::HalfDown => scroll.offset + half_page(viewport),
        Action::Top => 0,
        Action::Bottom => last_offset(viewport, content),
        Action::Quit | Action::ToggleLayout | Action::Ignore => scroll.offset as int,
    }
}

/// The offset within its bounds.
pub open spec fn bounded_offset(wanted: int, viewport: int, content: int) -> int {
    if wanted < 0 {
        0
    } else if wanted > last_offset(viewport, content) {
        last_offset(viewport, content)
    } else {
        wanted
    }
}

impl Scroll {
    /// The scroll after its action was applied.
    pub open spec fn applied(self, viewport: int, content: int) -> Scroll {
        Scroll {
            offset: bounded_offset(
                wanted_offset(self, viewport, content),
                viewport,
                content,
            ) as u16,
            pending: Action::Ignore,
        }
    }

    /// Applies the waiting action.
    pub fn apply(&mut self, viewport_height: u16, content_height: u16)
        ensures
            *final(self) == old(self).applied(viewport_height as int, content_height as int),
            final(self).offset <= last_offset(viewport_height as int, content_height as int),
    {
        let most: u16 = content_height.saturating_sub(viewport_height);
        let half: u16 = if viewport_height / 2 > 1 {
            viewport_height / 2
        } else {
            1
        };
        let wanted: u16 = match self.pending {
            Action::Up(lines) => self.offset.saturating_sub(lines),
            Action::Down(lines) => self.offset.saturating_add(lines),
            Action::HalfUp => self.offset.saturating_sub(half),
            Action::HalfDown => self.offset.saturating_add(half),
            Action::Top => 0,
            Action::Bottom => most,
            Action::Quit | Action::ToggleLayout | Action::Ignore => self.offset,
        };
        self.pending = Action::Ignore;
        self.offset = if wanted > most {
            most
        } else {
            wanted
        };
    }
}

/// However the view is scrolled, its first row is one of the content, and its
/// last row is too wherever there is content enough.
pub proof fn scrolling_stays_on_the_content(scroll: Scroll, viewport: u16, content: u16)
    ensures
        ({
            let after = scroll.applied(viewport as int, content as int);
            &&& after.offset == 0 || after.offset + viewport <= content
            &&& content <= viewport ==> after.offset == 0
            &&& after.pending == Action::Ignore
        }),
{
}

/// Scrolling down and up again by as much leads back, unless the end of the
/// content cut the way down short.
pub proof fn scrolling_back_leads_back(offset: u16, lines: u16, viewport: u16, content: u16)
    requires
        offset + lines <= last_offset(viewport as int, content as int),
    ensures
        ({
            let down = Scroll { offset, pending: Action::Down(lines) }.applied(
                viewport as int,
                content as int,
            );
            let back = Scroll { offset: down.offset, pending: Action::Up(lines) }.applied(
                viewport as int,
                content as int,
            );
            down.offset == offset + lines && back.offset == offset
        }),
{
}

/// The rows a view of some height spends on other things than cards.
#[derive(Clone, Copy, Debug, PartialEq, Eq, Structural)]
pub struct Chrome {
    /// Blank rows above the cards.
    pub margin: u16,
    /// Blank rows between the cards and the status line.
    pub gap: u16,
    /// There is a status line.
    pub status: bool,
}

/// What a view of that height can afford besides one row of cards: the status
/// line with a blank row before it and one above the cards, or just the blank
/// row above the cards, or nothing.
pub open spec fn affordable(height: int) -> Chrome {
    if height >= TOP_MARGIN + STATUS_GAP + 2 {
        Chrome { margin: TOP_MARGIN, gap: STATUS_GAP, status: true }
    } else if height >= 2 {
        Chrome { margin: TOP_MARGIN, gap: 0, status: false }
    } else {
        Chrome { margin: 0, gap: 0, status: false }
    }
}

/// What a view of that height can afford besides one row of cards.
pub fn chrome(height: u16) -> (result: Chrome)
    ensures
        result == affordable(height as int),
        height > 0 ==> result.margin + result.gap + (if result.status {
            1int
        } else {
            0
        }) < height,
{
    if height >= TOP_MARGIN + STATUS_GAP + 2 {
        Chrome { margin: TOP_MARGIN, gap: STATUS_GAP, status: true }
    } else if height >= 2 {
        Chrome { margin: TOP_MARGIN, gap: 0, status: false }
    } else {
        Chrome { margin: 0, gap: 0, status: false }
    }
}

/// The eighths of a cell that the wait, in nanoseconds, fills in a bar of so many
/// cells: the whole interval fills it, and any wait at all fills an eighth.
pub open spec fn filled_eighths(remaining: u64, cells: nat) -> int {
    let left = if remaining < REFRESH_WAIT {
        remaining as int
    } else {
        REFRESH_WAIT as int
    };
    (left * cells * 8 + (REFRESH_WAIT - 1)) / REFRESH_WAIT as int
}

/// The glyph for so many eighths of a cell.
pub open spec fn partial_block(eighths: int) -> char {
    if eighths <= 1 {
        '▏'
    } else if eighths == 2 {
        '▎'
    } else if eighths == 3 {
        '▍'
    } else if eighths == 4 {
        '▌'
    } else if eighths == 5 {
        '▋'
    } else if eighths == 6 {
        '▊'
    } else {
        '▉'
    }
}

fn partial_glyph(eighths: u64) -> (result: char)
    ensures
        result == partial_block(eighths as int),
{
    if eighths <= 1 {
        '▏'
    } else if eighths == 2 {
        '▎'
    } else if eighths == 3 {
        '▍'
    } else if eighths == 4 {
        '▌'
    } else if eighths == 5 {
        '▋'
    } else if eighths == 6 {
        '▊'
    } else {
        '▉'
    }
}

/// A bar of which so many eighths are filled.
pub open spec fn eighths_bar(eighths: int, cells: nat) -> Seq<char> {
    let whole = eighths / 8;
    let part = eighths % 8;
    let started = if part > 0 {
        width::repeated('█', whole as nat).push(partial_block(part))
    } else {
        width::repeated('█', whole as nat)
    };
    started + width::repeated('░', (cells - started.len()) as nat)
}

proof fn eighths_fit(remaining: u64, cells: nat)
    ensures
        0 <= filled_eighths(remaining, cells) <= cells * 8,
{
    let left = if remaining < REFRESH_WAIT {
        remaining as int
    } else {
        REFRESH_WAIT as int
    };
    assert(0 <= left * cells) by (nonlinear_arith)
        requires
            0 <= left,
            0 <= cells,
    ;
    assert(left * cells <= 120000000000 * cells) by (nonlinear_arith)
        requires
            left <= 120000000000,
            0 <= cells,
    ;
    assert(left * cells * 8 == 8 * (left * cells)) by (nonlinear_arith);
}

/// The wait to the next refresh as a bar: the whole interval is a full bar, the
/// moment the refresh is due is an empty one, and the cell the countdown is
/// inside moves in eighths. Rounded up, so any wait at all still shows and the
/// bar empties exactly when the refresh is due.
pub fn refresh_bar(remaining: u64, cells: usize) -> (result: String)
    ensures
        result@ == eighths_bar(filled_eighths(remaining, cells as nat), cells as nat),
        result@.len() == cells,
        width::plain(result@),
{
    let left: u128 = if remaining < REFRESH_WAIT {
        remaining as u128
    } else {
        REFRESH_WAIT as u128
    };
    proof {
        eighths_fit(remaining, cells as nat);
        assert(left * cells <= 120000000000 * cells) by (nonlinear_arith)
            requires
                left <= 120000000000,
        ;
    }
    let eighths: u128 = (left * cells as u128 * 8 + 119999999999) / 120000000000;
    let whole: usize = (eighths / 8) as usize;
    let part: u64 = (eighths % 8) as u64;
    let mut bar = repeat('█', whole);
    let mut used: usize = whole;
    if part > 0 {
        bar.push(partial_glyph(part));
        used = used + 1;
    }
    assert(bar@.len() == used);
    assert(used <= cells);
    bar.append(repeat('░', cells - used).as_str());
    bar
}

/// The longer the wait, the more of the bar is filled; it is empty exactly when
/// there is none, and full when the whole interval is left.
pub proof fn the_bar_empties_with_the_wait(shorter: u64, longer: u64, cells: nat)
    requires
        shorter <= longer,
        cells > 0,
    ensures
        filled_eighths(shorter, cells) <= filled_eighths(longer, cells),
        filled_eighths(shorter, cells) == 0 <==> shorter == 0,
        longer >= REFRESH_WAIT ==> filled_eighths(longer, cells) == cells * 8,
{
    let less = if shorter < REFRESH_WAIT {
        shorter as int
    } else {
        REFRESH_WAIT as int
    };
    let more = if longer < REFRESH_WAIT {
        longer as int
    } else {
        REFRESH_WAIT as int
    };
    assert(less * cells <= more * cells) by (nonlinear_arith)
        requires
            less <= more,
            0 <= cells,
    ;
    assert(less * cells * 8 == 8 * (less * cells)) by (nonlinear_arith);
    assert(more * cells * 8 == 8 * (more * cells)) by (nonlinear_arith);
    assert(less > 0 ==> less * cells >= 1) by (nonlinear_arith)
        requires
            cells > 0,
    ;
    assert(less == 0 ==> less * cells == 0) by (nonlinear_arith);
    assert(more == 120000000000 ==> more * cells == 120000000000 * cells) by (nonlinear_arith);
}

/// The wait until the next refresh, of so many nanoseconds, in whole seconds. The
/// minutes are always there so the line keeps its width as the countdown runs.
pub open spec fn wait_text(remaining: u64) -> Seq<char> {
    let seconds = remaining / SECOND;
    text::decimal_digits((seconds / 60) as nat) + "m"@ + text::two_digits((seconds % 60) as nat)
        + "s"@
}

/// `2m00s`: the wait until the next refresh, in whole seconds.
pub fn remaining_text(remaining: u64) -> (result: String)
    ensures
        result@ == wait_text(remaining),
{
    let seconds: u64 = remaining / SECOND;
    let mut result = text::join2(text::decimal(seconds / 60).as_str(), "m");
    result.append(text::padded_decimal(seconds % 60).as_str());
    result.append("s");
    result
}

/// What pressing the layout key gives, not what is on screen.
pub open spec fn layout_hint(layout: Layout) -> Seq<char> {
    if layout == Layout::Vertical {
        "v columns"@
    } else {
        "v one per row"@
    }
}

/// The full refresh bar.
pub open spec fn full_bar(remaining: u64) -> Seq<char> {
    eighths_bar(filled_eighths(remaining, REFRESH_BAR_CELLS as nat), REFRESH_BAR_CELLS as nat)
}

/// The small refresh bar.
pub open spec fn mini_bar(remaining: u64) -> Seq<char> {
    eighths_bar(
        filled_eighths(remaining, MINI_REFRESH_BAR_CELLS as nat),
        MINI_REFRESH_BAR_CELLS as nat,
    )
}

/// The row the view starts with, and the rows there are.
pub open spec fn position_text(offset: u16, content: u16) -> Seq<char> {
    text::decimal_digits(place::capped(offset + 1) as nat) + "/"@ + text::decimal_digits(
        content as nat,
    )
}

/// The status lines of a view that can be scrolled, the longest first. Each
/// drops something that the one above it kept, so a narrower terminal never
/// shows more than a wider one.
pub open spec fn scrollable_lines(
    hint: Seq<char>,
    full: Seq<char>,
    mini: Seq<char>,
    wait: Seq<char>,
    position: Seq<char>,
) -> Seq<Seq<char>> {
    let gap = "  "@;
    let paged = "q quit  jk  PgUp/PgDn  "@;
    seq![
        "q quit  wheel/jk scroll  PgUp/PgDn half page  "@ + hint + gap + full + " "@ + wait + gap
            + position,
        paged + hint + gap + full + " "@ + wait + gap + position,
        paged + hint + gap + full + gap + position,
        paged + hint + gap + mini + gap + position,
        "q  jk  PgUp/Dn  v  "@ + mini + gap + position,
        "q  v  "@ + mini + gap + position,
        "q  "@ + position,
        "q"@,
    ]
}

/// The status lines of a view that shows everything, the longest first.
pub open spec fn still_lines(
    hint: Seq<char>,
    full: Seq<char>,
    mini: Seq<char>,
    wait: Seq<char>,
) -> Seq<Seq<char>> {
    let gap = "  "@;
    let quit = "q quit  "@;
    seq![
        quit + hint + gap + full + " "@ + wait,
        quit + hint + gap + full,
        quit + hint + gap + mini,
        quit + hint,
        "q quit"@,
        "q"@,
    ]
}

/// The status lines from which the one that fits is taken.
pub open spec fn status_lines(
    offset: u16,
    viewport: u16,
    content: u16,
    layout: Layout,
    remaining: u64,
) -> Seq<Seq<char>> {
    if content > viewport {
        scrollable_lines(
            layout_hint(layout),
            full_bar(remaining),
            mini_bar(remaining),
            wait_text(remaining),
            position_text(offset, content),
        )
    } else {
        still_lines(
            layout_hint(layout),
            full_bar(remaining),
            mini_bar(remaining),
            wait_text(remaining),
        )
    }
}

/// The place of the first line that fits, or the number of lines.
pub open spec fn first_fitting(lines: Seq<Seq<char>>, width: nat) -> int
    decreases lines.len(),
{
    if lines.len() == 0 || width::cells(lines[0]) <= width {
        0
    } else {
        1 + first_fitting(lines.skip(1), width)
    }
}

/// The first line that fits, or nothing.
pub open spec fn fitting_line(lines: Seq<Seq<char>>, width: nat) -> Seq<char> {
    let place = first_fitting(lines, width);
    if place < lines.len() {
        lines[place]
    } else {
        Seq::empty()
    }
}

fn joined_parts(parts: Vec<&str>) -> (result: String)
    ensures
        result@ == joined_views(parts@),
{
    let mut result = String::new();
    let mut index: usize = 0;
    assert(parts@.take(0) == Seq::<&str>::empty());
    while index < parts.len()
        invariant
            index <= parts@.len(),
            result@ == joined_views(parts@.take(index as int)),
        decreases parts@.len() - index,
    {
        proof {
            assert(parts@.take(index + 1).drop_last() == parts@.take(index as int));
            assert(parts@.take(index + 1).last() == parts@[index as int]);
        }
        result.append(parts[index]);
        index = index + 1;
    }
    assert(parts@.take(index as int) == parts@);
    result
}

/// The texts one behind the other.
spec fn joined_views(parts: Seq<&str>) -> Seq<char>
    decreases parts.len(),
{
    if parts.len() == 0 {
        Seq::empty()
    } else {
        joined_views(parts.drop_last()) + parts.last()@
    }
}

fn first_that_fits(lines: &Vec<String>, width: usize) -> (result: String)
    ensures
        result@ == fitting_line(crate::summary::filter::text_views(lines@), width as nat),
{
    let ghost views = crate::summary::filter::text_views(lines@);
    let mut index: usize = 0;
    assert(views.skip(0) == views);
    while index < lines.len()
        invariant
            index <= lines@.len(),
            views == crate::summary::filter::text_views(lines@),
            index + first_fitting(views.skip(index as int), width as nat) == first_fitting(
                views,
                width as nat,
            ),
        decreases lines@.len() - index,
    {
        assert(views.skip(index as int)[0] == lines@[index as int]@);
        if display_width(lines[index].as_str()) <= width {
            return lines[index].clone();
        }
        assert(views.skip(index as int).skip(1) == views.skip(index + 1));
        index = index + 1;
    }
    String::new()
}

fn push_line(lines: &mut Vec<String>, line: String)
    ensures
        crate::summary::filter::text_views(final(lines)@) == crate::summary::filter::text_views(
            old(lines)@,
        ).push(line@),
{
    lines.push(line);
    assert(crate::summary::filter::text_views(lines@) =~= crate::summary::filter::text_views(
        old(lines)@,
    ).push(line@));
}

fn scrollable_candidates(hint: &str, full: &str, mini: &str, wait: &str, position: &str) -> (result:
    Vec<String>)
    ensures
        crate::summary::filter::text_views(result@) == scrollable_lines(
            hint@,
            full@,
            mini@,
            wait@,
            position@,
        ),
{
    let paged = "q quit  jk  PgUp/PgDn  ";
    let mut lines: Vec<String> = Vec::new();
    assert(crate::summary::filter::text_views(lines@) =~= Seq::<Seq<char>>::empty());
    proof {
        reveal_with_fuel(joined_views, 10);
    }
    push_line(
        &mut lines,
        joined_parts(
            vec![
                "q quit  wheel/jk scroll  PgUp/PgDn half page  ",
                hint,
                "  ",
                full,
                " ",
                wait,
                "  ",
                position,
            ],
        ),
    );
    push_line(
        &mut lines,
        joined_parts(vec![paged, hint, "  ", full, " ", wait, "  ", position]),
    );
    push_line(&mut lines, joined_parts(vec![paged, hint, "  ", full, "  ", position]));
    push_line(&mut lines, joined_parts(vec![paged, hint, "  ", mini, "  ", position]));
    push_line(&mut lines, joined_parts(vec!["q  jk  PgUp/Dn  v  ", mini, "  ", position]));
    push_line(&mut lines, joined_parts(vec!["q  v  ", mini, "  ", position]));
    push_line(&mut lines, text::join2("q  ", position));
    push_line(&mut lines, "q".to_owned());
    assert(crate::summary::filter::text_views(lines@) =~= scrollable_lines(
        hint@,
        full@,
        mini@,
        wait@,
        position@,
    ));
    lines
}

fn still_candidates(hint: &str, full: &str, mini: &str, wait: &str) -> (result: Vec<String>)
    ensures
        crate::summary::filter::text_views(result@) == still_lines(hint@, full@, mini@, wait@),
{
    let quit = "q quit  ";
    let mut lines: Vec<String> = Vec::new();
    assert(crate::summary::filter::text_views(lines@) =~= Seq::<Seq<char>>::empty());
    proof {
        reveal_with_fuel(joined_views, 8);
    }
    push_line(&mut lines, joined_parts(vec![quit, hint, "  ", full, " ", wait]));
    push_line(&mut lines, joined_parts(vec![quit, hint, "  ", full]));
    push_line(&mut lines, joined_parts(vec![quit, hint, "  ", mini]));
    push_line(&mut lines, text::join2(quit, hint));
    push_line(&mut lines, "q quit".to_owned());
    push_line(&mut lines, "q".to_owned());
    assert(crate::summary::filter::text_views(lines@) =~= still_lines(
        hint@,
        full@,
        mini@,
        wait@,
    ));
    lines
}

/// The hints, the countdown to the next refresh, and the position, shortened as
/// the terminal narrows.
pub fn status_line(
    offset: u16,
    viewport_height: u16,
    content_height: u16,
    width: u16,
    layout: Layout,
    remaining: u64,
) -> (result: String)
    ensures
        result@ == fitting_line(
            status_lines(offset, viewport_height, content_height, layout, remaining),
            width as nat,
        ),
        width::cells(result@) <= width,
{
    let hint = if layout.is_vertical() {
        "v columns"
    } else {
        "v one per row"
    };
    let full = refresh_bar(remaining, REFRESH_BAR_CELLS);
    let mini = refresh_bar(remaining, MINI_REFRESH_BAR_CELLS);
    let wait = remaining_text(remaining);
    let lines = if content_height > viewport_height {
        let first = text::decimal(offset.saturating_add(1) as u64);
        let position = text::join3(
            first.as_str(),
            "/",
            text::decimal(content_height as u64).as_str(),
        );
        scrollable_candidates(
            hint,
            full.as_str(),
            mini.as_str(),
            wait.as_str(),
            position.as_str(),
        )
    } else {
        still_candidates(hint, full.as_str(), mini.as_str(), wait.as_str())
    };
    proof {
        fitting_lines_fit(crate::summary::filter::text_views(lines@), width as nat);
    }
    first_that_fits(&lines, width as usize)
}

/// The line that is taken fits.
pub proof fn fitting_lines_fit(lines: Seq<Seq<char>>, width: nat)
    ensures
        0 <= first_fitting(lines, width) <= lines.len(),
        width::cells(fitting_line(lines, width)) <= width,
    decreases lines.len(),
{
    if lines.len() > 0 && width::cells(lines[0]) > width {
        fitting_lines_fit(lines.skip(1), width);
        let place = first_fitting(lines.skip(1), width);
        if place < lines.skip(1).len() {
            assert(lines.skip(1)[place] == lines[place + 1]);
        }
    }
}

/// A narrower terminal never shows a line that stands before the one a wider
/// terminal shows: once given up, a piece does not come back.
pub proof fn narrower_terminals_show_less(lines: Seq<Seq<char>>, narrow: nat, wide: nat)
    requires
        narrow <= wide,
    ensures
        first_fitting(lines, wide) <= first_fitting(lines, narrow),
    decreases lines.len(),
{
    fitting_lines_fit(lines, narrow);
    if lines.len() > 0 && width::cells(lines[0]) > wide {
        narrower_terminals_show_less(lines.skip(1), narrow, wide);
    }
}

} // verus!
