//! The tabbed editor window: tab list and active tab, tab-bar and toolbar
//! hit testing, scrolling, the colour palette and hex colour input, and the
//! tooltip timer. Drawing and the message loop are the caller's.
use vstd::prelude::*;
use crate::geometry::{Point, Rect, normalise, clamp_int, min_int, max_int};
use crate::editor::tool::{Stroke, StrokeView};
use crate::editor::tool::Tool;
use crate::editor::canvas::{Canvas, CanvasView, sized_bitmap, fresh_canvas, spec_push_stroke, spec_crop, spec_undo, crop_fits};
use crate::capture::screen::ScreenBitmap;
use crate::text::{push_padded_decimal, push_decimal_u64, decimal};
use crate::text::padded_decimal;
use crate::text::{strip_trailing_nuls, skip_trailing_nuls, hex_value, hex_digit_char, hex_digit_to_char, string_push};
use vstd::string::StrSliceExecFns;

verus! {

/// Height of the tab bar.
pub const TAB_H: i32 = 28;
/// Height of the toolbar above it.
pub const TOOLBAR_H: i32 = 48;
/// Top of the canvas area in client coordinates.
pub const CANVAS_Y: i32 = 76;
/// Width of one tab.
pub const TAB_W: i32 = 130;
/// Width of the tab-list drop-down button shown when tabs overflow.
pub const DROP_W: i32 = 22;
/// Width of the close-cross hit area at the right end of a tab.
pub const TAB_CLOSE_W: i32 = 18;
pub const BTN_W: i32 = 40;
pub const BTN_H: i32 = 36;
pub const BTN_MARGIN: i32 = 4;

pub const BTN_PEN: usize = 10;
pub const BTN_ARROW: usize = 11;
pub const BTN_RECT: usize = 12;
pub const BTN_TEXT: usize = 13;
pub const BTN_CROP: usize = 14;
pub const BTN_COLOR: usize = 15;
pub const BTN_COPY: usize = 20;
pub const BTN_SAVE: usize = 21;
pub const BTN_UNDO: usize = 22;

/// First command id of the tab drop-down menu; tab `i` is `TAB_MENU_BASE + i`.
pub const TAB_MENU_BASE: usize = 2000;

// ─── Message parameters ─────────────────────────────────────────────────────

/// A 16-bit field read as a signed value.
pub open spec fn sign16(v: int) -> int {
    if v >= 0x8000 { v - 0x10000 } else { v }
}

/// Client coordinates packed in a mouse message's LPARAM: the low word is x,
/// the next word y, both signed.
pub fn client_xy(lp: isize) -> (xy: (i32, i32))
    ensures
        xy.0 == sign16(lp as int % 0x10000),
        xy.1 == sign16((lp as int / 0x10000) % 0x10000),
{
    let lo: u16 = (lp & 0xFFFF) as u16;
    let hi: u16 = ((lp >> 16) & 0xFFFF) as u16;
    assert(lo == lp as int % 0x10000 && hi == (lp as int / 0x10000) % 0x10000) by (bit_vector)
        requires
            lo == (lp & 0xFFFF) as u16,
            hi == ((lp >> 16) & 0xFFFF) as u16,
    ;
    let x: i32 = if lo >= 0x8000 { lo as i32 - 0x10000 } else { lo as i32 };
    let y: i32 = if hi >= 0x8000 { hi as i32 - 0x10000 } else { hi as i32 };
    (x, y)
}

// ─── Custom colour as hex text ──────────────────────────────────────────────

/// Whitespace as `char::is_whitespace` defines it (the Unicode White_Space
/// property).
pub open spec fn is_ws(c: char) -> bool {
    let v = c as int;
    (0x09 <= v <= 0x0D) || v == 0x20 || v == 0x85 || v == 0xA0 || v == 0x1680 || (0x2000 <= v <= 0x200A)
        || v == 0x2028 || v == 0x2029 || v == 0x202F || v == 0x205F || v == 0x3000
}

pub open spec fn trim_ws_end(s: Seq<char>) -> Seq<char>
    decreases s.len(),
{
    if s.len() > 0 && is_ws(s.last()) { trim_ws_end(s.drop_last()) } else { s }
}

pub open spec fn trim_ws_start(s: Seq<char>) -> Seq<char>
    decreases s.len(),
{
    if s.len() > 0 && is_ws(s[0]) { trim_ws_start(s.drop_first()) } else { s }
}

pub open spec fn strip_leading_hashes(s: Seq<char>) -> Seq<char>
    decreases s.len(),
{
    if s.len() > 0 && s[0] == '#' { strip_leading_hashes(s.drop_first()) } else { s }
}

/// The text the colour is read from: the edit text without its trailing
/// NULs, trimmed of whitespace, without leading '#'s.
pub open spec fn color_text(text: Seq<char>) -> Seq<char> {
    strip_leading_hashes(trim_ws_start(trim_ws_end(strip_trailing_nuls(text))))
}

/// One two-character field of a colour code: two hex digits, read in base 16.
pub open spec fn hex_pair(a: char, b: char) -> Option<int> {
    if hex_value(a) is Some && hex_value(b) is Some {
        Some(hex_value(a)->0 * 16 + hex_value(b)->0)
    } else {
        None
    }
}

/// The colour typed as "RRGGBB" (optionally with '#'), as COLORREF
/// 0x00BBGGRR; `None` when the text is not six characters of that form.
pub open spec fn spec_parse_hex_color(text: Seq<char>) -> Option<u32> {
    let s = color_text(text);
    if s.len() == 6 && hex_pair(s[0], s[1]) is Some && hex_pair(s[2], s[3]) is Some && hex_pair(
        s[4],
        s[5],
    ) is Some {
        Some(
            (hex_pair(s[0], s[1])->0 + hex_pair(s[2], s[3])->0 * 0x100 + hex_pair(s[4], s[5])->0
                * 0x10000) as u32,
        )
    } else {
        None
    }
}

/// "RRGGBB" in upper-case hex for a COLORREF 0x00BBGGRR.
pub open spec fn spec_hex_of(c: u32) -> Seq<char> {
    let r = c as int % 0x100;
    let g = (c as int / 0x100) % 0x100;
    let b = (c as int / 0x10000) % 0x100;
    seq![
        hex_digit_char(r / 16),
        hex_digit_char(r % 16),
        hex_digit_char(g / 16),
        hex_digit_char(g % 16),
        hex_digit_char(b / 16),
        hex_digit_char(b % 16),
    ]
}

fn is_ws_char(c: char) -> (b: bool)
    ensures
        b == is_ws(c),
{
    let v = c as u32;
    (0x09 <= v && v <= 0x0D) || v == 0x20 || v == 0x85 || v == 0xA0 || v == 0x1680 || (0x2000 <= v
        && v <= 0x200A) || v == 0x2028 || v == 0x2029 || v == 0x202F || v == 0x205F || v == 0x3000
}

fn hex_char_value(c: char) -> (v: Option<u32>)
    ensures
        v matches Some(x) ==> hex_value(c) == Some(x as int),
        v is None ==> hex_value(c) is None,
{
    if '0' <= c && c <= '9' {
        Some(c as u32 - 0x30)
    } else if 'a' <= c && c <= 'f' {
        Some(c as u32 - 0x61 + 10)
    } else if 'A' <= c && c <= 'F' {
        Some(c as u32 - 0x41 + 10)
    } else {
        None
    }
}

fn parse_hex_pair(a: char, b: char) -> (v: Option<u32>)
    ensures
        v matches Some(x) ==> hex_pair(a, b) == Some(x as int),
        v is None ==> hex_pair(a, b) is None,
        v matches Some(x) ==> x < 256,
{
    match (hex_char_value(a), hex_char_value(b)) {
        (Some(x), Some(y)) => Some(x * 16 + y),
        _ => None,
    }
}

pub(crate) fn skip_trailing_ws(text: &str, hi: usize) -> (r: usize)
    requires
        hi <= text@.len(),
    ensures
        r <= hi,
        trim_ws_end(text@.subrange(0, hi as int)) == text@.subrange(0, r as int),
{
    let ghost t = text@;
    let mut k = hi;
    while k > 0 && is_ws_char(text.get_char(k - 1))
        invariant
            t == text@,
            k <= hi <= t.len(),
            trim_ws_end(t.subrange(0, hi as int)) == trim_ws_end(t.subrange(0, k as int)),
        decreases k,
    {
        proof {
            assert(t.subrange(0, k as int).drop_last() =~= t.subrange(0, k - 1));
        }
        k = k - 1;
    }
    k
}

pub(crate) fn skip_leading_ws(text: &str, lo: usize, hi: usize) -> (r: usize)
    requires
        lo <= hi <= text@.len(),
    ensures
        lo <= r <= hi,
        trim_ws_start(text@.subrange(lo as int, hi as int)) == text@.subrange(r as int, hi as int),
{
    let ghost t = text@;
    let mut k = lo;
    while k < hi && is_ws_char(text.get_char(k))
        invariant
            t == text@,
            lo <= k <= hi <= t.len(),
            trim_ws_start(t.subrange(lo as int, hi as int)) == trim_ws_start(t.subrange(k as int, hi as int)),
        decreases hi - k,
    {
        proof {
            assert(t.subrange(k as int, hi as int).drop_first() =~= t.subrange(k + 1, hi as int));
        }
        k = k + 1;
    }
    k
}

fn skip_leading_hashes(text: &str, lo: usize, hi: usize) -> (r: usize)
    requires
        lo <= hi <= text@.len(),
    ensures
        lo <= r <= hi,
        strip_leading_hashes(text@.subrange(lo as int, hi as int)) == text@.subrange(r as int, hi as int),
{
    let ghost t = text@;
    let mut k = lo;
    while k < hi && text.get_char(k) == '#'
        invariant
            t == text@,
            lo <= k <= hi <= t.len(),
            strip_leading_hashes(t.subrange(lo as int, hi as int)) == strip_leading_hashes(
                t.subrange(k as int, hi as int),
            ),
        decreases hi - k,
    {
        proof {
            assert(t.subrange(k as int, hi as int).drop_first() =~= t.subrange(k + 1, hi as int));
        }
        k = k + 1;
    }
    k
}

/// The colour a user typed in the custom-colour box: "RRGGBB", six hex
/// digits in either case, optionally after '#'s and surrounded by
/// whitespace, as COLORREF 0x00BBGGRR. `None` when the text is not of that
/// form.
pub fn parse_hex_color(text: &str) -> (c: Option<u32>)
    ensures
        c == spec_parse_hex_color(text@),
{
    let ghost t = text@;
    let n = text.unicode_len();
    assert(t.subrange(0, n as int) =~= t);
    let hi1 = skip_trailing_nuls(text, n);
    let hi = skip_trailing_ws(text, hi1);
    assert(t.subrange(0, hi as int) =~= t.subrange(0, hi as int).subrange(0, hi as int));
    let lo1 = skip_leading_ws(text, 0, hi);
    let lo = skip_leading_hashes(text, lo1, hi);
    let ghost s = t.subrange(lo as int, hi as int);
    assert(color_text(t) == s);
    if hi - lo != 6 {
        return None;
    }
    let r = parse_hex_pair(text.get_char(lo), text.get_char(lo + 1));
    let g = parse_hex_pair(text.get_char(lo + 2), text.get_char(lo + 3));
    let b = parse_hex_pair(text.get_char(lo + 4), text.get_char(lo + 5));
    assert(s[0] == t[lo as int] && s[1] == t[lo + 1] && s[2] == t[lo + 2] && s[3] == t[lo + 3]
        && s[4] == t[lo + 4] && s[5] == t[lo + 5]);
    match (r, g, b) {
        (Some(r), Some(g), Some(b)) => Some(r + g * 0x100 + b * 0x10000),
        _ => None,
    }
}

/// "RRGGBB" in upper-case hex for a COLORREF 0x00BBGGRR, as shown pre-filled
/// in the custom-colour box.
pub fn hex_of_colorref(c: u32) -> (s: String)
    ensures
        s@ == spec_hex_of(c),
{
    let r = c % 0x100;
    let g = (c / 0x100) % 0x100;
    let b = (c / 0x10000) % 0x100;
    let mut s = String::new();
    string_push(&mut s, hex_digit_to_char(r / 16));
    string_push(&mut s, hex_digit_to_char(r % 16));
    string_push(&mut s, hex_digit_to_char(g / 16));
    string_push(&mut s, hex_digit_to_char(g % 16));
    string_push(&mut s, hex_digit_to_char(b / 16));
    string_push(&mut s, hex_digit_to_char(b % 16));
    assert(s@ =~= spec_hex_of(c));
    s
}

proof fn lemma_hex_digit_roundtrip(d: int)
    requires
        0 <= d < 16,
    ensures
        hex_value(hex_digit_char(d)) == Some(d),
        !is_ws(hex_digit_char(d)),
        hex_digit_char(d) != '#',
        hex_digit_char(d) != '\0',
        hex_digit_char(d) != '+',
{
}

/// Reading back the hex text shown for a colour gives that colour (its low
/// 24 bits, the part a COLORREF uses).
pub proof fn lemma_hex_color_roundtrip(c: u32)
    ensures
        spec_parse_hex_color(spec_hex_of(c)) == Some((c as int % 0x1000000) as u32),
{
    let s = spec_hex_of(c);
    let r = c as int % 0x100;
    let g = (c as int / 0x100) % 0x100;
    let b = (c as int / 0x10000) % 0x100;
    lemma_hex_digit_roundtrip(r / 16);
    lemma_hex_digit_roundtrip(r % 16);
    lemma_hex_digit_roundtrip(g / 16);
    lemma_hex_digit_roundtrip(g % 16);
    lemma_hex_digit_roundtrip(b / 16);
    lemma_hex_digit_roundtrip(b % 16);
    assert(strip_trailing_nuls(s) == s);
    assert(trim_ws_end(s) == s);
    assert(trim_ws_start(s) == s);
    assert(strip_leading_hashes(s) == s);
    assert(hex_pair(s[0], s[1]) == Some(r));
    assert(hex_pair(s[2], s[3]) == Some(g));
    assert(hex_pair(s[4], s[5]) == Some(b));
    assert(r + g * 0x100 + b * 0x10000 == c as int % 0x1000000) by (nonlinear_arith)
        requires
            r == c as int % 0x100,
            g == (c as int / 0x100) % 0x100,
            b == (c as int / 0x10000) % 0x100,
            c >= 0,
    ;
}

// ─── Tabs ───────────────────────────────────────────────────────────────────

/// One capture open in the editor.
pub struct TabInfo {
    pub canvas: Canvas,
    pub save_dir: String,
    pub scroll_x: i32,
    pub scroll_y: i32,
    pub result_sent: bool,
    pub name: String,
    /// The file the tab was last saved to; later saves overwrite it.
    pub saved_path: Option<String>,
}

/// The editor's state apart from its window handles.
pub struct EditorState {
    pub tabs: Vec<TabInfo>,
    pub active_tab: usize,
    pub tab_counter: u32,
    pub active_tool: Tool,
    pub dragging: bool,
    pub drag_start: Point,
    pub default_save_dir: String,
    pub hovering_canvas: bool,
    pub hover_btn: i32,
    pub hover_ticks: i32,
}

/// What closing a tab did.
#[derive(Clone, Copy, Debug, PartialEq, Eq, Structural)]
pub enum CloseOutcome {
    /// There is no tab at that index.
    Ignored,
    /// The last tab closed: hide the window.
    Emptied,
    /// A tab closed and others remain: refresh scroll bars and repaint.
    Closed,
}

impl EditorState {
    /// The active tab exists whenever there is a tab, and every canvas is
    /// well formed.
    pub open spec fn wf(&self) -> bool {
        &&& (self.tabs@.len() == 0 || self.active_tab < self.tabs@.len())
        &&& forall|i: int| 0 <= i < self.tabs@.len() ==> (#[trigger] self.tabs@[i]).canvas.wf()
    }

    /// An editor holding one tab for `bmp`, named `name`, with the pen tool.
    pub fn new(bmp: ScreenBitmap, save_dir: String, name: String) -> (e: EditorState)
        requires
            sized_bitmap(bmp.width as int, bmp.height as int, bmp.data@),
        ensures
            e.wf(),
            e.tabs@.len() == 1,
            e.active_tab == 0,
            e.tab_counter == 1,
            e.tabs@[0].canvas.wf(),
            e.tabs@[0].canvas@ == fresh_canvas(bmp.width as int, bmp.height as int, bmp.data@),
            e.tabs@[0].save_dir@ == save_dir@,
            e.tabs@[0].scroll_x == 0 && e.tabs@[0].scroll_y == 0,
            !e.tabs@[0].result_sent,
            e.tabs@[0].saved_path is None,
            e.tabs@[0].name@ == name@,
            e.active_tool == Tool::Pen,
            !e.dragging,
            e.default_save_dir@ == save_dir@,
            e.drag_start == (Point { x: 0, y: 0 }),
            !e.hovering_canvas,
            e.hover_btn == -1,
            e.hover_ticks == 0,
    {
        let first = TabInfo {
            canvas: Canvas::new(bmp),
            save_dir: save_dir.clone(),
            scroll_x: 0,
            scroll_y: 0,
            result_sent: false,
            name,
            saved_path: None,
        };
        let mut tabs: Vec<TabInfo> = Vec::new();
        tabs.push(first);
        EditorState {
            tabs,
            active_tab: 0,
            tab_counter: 1,
            active_tool: Tool::Pen,
            dragging: false,
            drag_start: Point { x: 0, y: 0 },
            default_save_dir: save_dir,
            hovering_canvas: false,
            hover_btn: -1,
            hover_ticks: 0,
        }
    }

    /// Opens a new tab for a fresh capture and makes it the active one.
    pub fn add_tab(&mut self, bmp: ScreenBitmap, name: String)
        requires
            old(self).wf(),
            old(self).tab_counter < u32::MAX,
            sized_bitmap(bmp.width as int, bmp.height as int, bmp.data@),
        ensures
            final(self).wf(),
            final(self).tabs@.len() == old(self).tabs@.len() + 1,
            final(self).tabs@.subrange(0, old(self).tabs@.len() as int) == old(self).tabs@,
            final(self).active_tab == old(self).tabs@.len(),
            final(self).tab_counter == old(self).tab_counter + 1,
            !final(self).dragging,
            ({
                let t = final(self).tabs@.last();
                &&& t.canvas.wf()
                &&& t.canvas@ == fresh_canvas(bmp.width as int, bmp.height as int, bmp.data@)
                &&& t.save_dir@ == old(self).default_save_dir@
                &&& t.scroll_x == 0 && t.scroll_y == 0
                &&& !t.result_sent
                &&& t.saved_path is None
                &&& t.name@ == name@
            }),
            final(self).active_tool == old(self).active_tool,
            final(self).default_save_dir == old(self).default_save_dir,
            final(self).drag_start == old(self).drag_start,
            final(self).hovering_canvas == old(self).hovering_canvas,
            final(self).hover_btn == old(self).hover_btn,
            final(self).hover_ticks == old(self).hover_ticks,
    {
        self.tab_counter = self.tab_counter + 1;
        let tab = TabInfo {
            canvas: Canvas::new(bmp),
            save_dir: self.default_save_dir.clone(),
            scroll_x: 0,
            scroll_y: 0,
            result_sent: false,
            name,
            saved_path: None,
        };
        self.tabs.push(tab);
        self.active_tab = self.tabs.len() - 1;
        self.dragging = false;
        proof {
            assert(self.tabs@.subrange(0, old(self).tabs@.len() as int) =~= old(self).tabs@);
            assert forall|i: int| 0 <= i < self.tabs@.len() implies (#[trigger] self.tabs@[i]).canvas.wf() by {
                if i < old(self).tabs@.len() {
                    assert(self.tabs@[i] == old(self).tabs@[i]);
                }
            }
        }
    }

    /// Makes tab `idx` the active one (a click on it, or its entry in the
    /// tab list), ending any drag.
    pub fn select_tab(&mut self, idx: usize)
        requires
            old(self).wf(),
            idx < old(self).tabs@.len(),
        ensures
            final(self).wf(),
            final(self).tabs == old(self).tabs,
            final(self).active_tab == idx,
            !final(self).dragging,
            final(self).tab_counter == old(self).tab_counter,
            final(self).active_tool == old(self).active_tool,
            final(self).drag_start == old(self).drag_start,
            final(self).default_save_dir == old(self).default_save_dir,
            final(self).hovering_canvas == old(self).hovering_canvas,
            final(self).hover_btn == old(self).hover_btn,
            final(self).hover_ticks == old(self).hover_ticks,
    {
        self.active_tab = idx;
        self.dragging = false;
    }

    /// Closes tab `idx`. The active index stays where it was unless it now
    /// points past the last tab, in which case the last tab becomes active.
    pub fn close_tab(&mut self, idx: usize) -> (o: CloseOutcome)
        requires
            old(self).wf(),
        ensures
            final(self).wf(),
            idx >= old(self).tabs@.len() ==> o == CloseOutcome::Ignored && final(self).tabs == old(
                self,
            ).tabs && final(self).active_tab == old(self).active_tab && final(self).dragging == old(
                self,
            ).dragging,
            idx < old(self).tabs@.len() ==> final(self).tabs@ == old(self).tabs@.remove(idx as int),
            idx < old(self).tabs@.len() && old(self).tabs@.len() == 1 ==> o == CloseOutcome::Emptied
                && final(self).active_tab == old(self).active_tab && final(self).dragging == old(
                self,
            ).dragging,
            idx < old(self).tabs@.len() && old(self).tabs@.len() > 1 ==> o == CloseOutcome::Closed
                && !final(self).dragging && final(self).active_tab == (if old(self).active_tab
                >= old(self).tabs@.len() - 1 {
                (old(self).tabs@.len() - 2) as usize
            } else {
                old(self).active_tab
            }),
            final(self).tab_counter == old(self).tab_counter,
            final(self).active_tool == old(self).active_tool,
            final(self).drag_start == old(self).drag_start,
            final(self).default_save_dir == old(self).default_save_dir,
            final(self).hovering_canvas == old(self).hovering_canvas,
            final(self).hover_btn == old(self).hover_btn,
            final(self).hover_ticks == old(self).hover_ticks,
    {
        if idx >= self.tabs.len() {
            return CloseOutcome::Ignored;
        }
        let ghost pre = self.tabs@;
        let _closed = self.tabs.remove(idx);
        proof {
            assert forall|i: int| 0 <= i < self.tabs@.len() implies (#[trigger] self.tabs@[i]).canvas.wf() by {
                if i < idx {
                    assert(self.tabs@[i] == pre[i]);
                } else {
                    assert(self.tabs@[i] == pre[i + 1]);
                }
            }
        }
        if self.tabs.len() == 0 {
            return CloseOutcome::Emptied;
        }
        if self.active_tab >= self.tabs.len() {
            self.active_tab = self.tabs.len() - 1;
        }
        self.dragging = false;
        CloseOutcome::Closed
    }

    /// The tab a tab-list menu command selects, if it names one.
    pub fn tab_for_menu_command(&self, id: usize) -> (t: Option<usize>)
        ensures
            t == (if TAB_MENU_BASE <= id < TAB_MENU_BASE + self.tabs@.len() {
                Some((id - TAB_MENU_BASE) as usize)
            } else {
                None
            }),
    {
        if id >= TAB_MENU_BASE && id - TAB_MENU_BASE < self.tabs.len() {
            Some(id - TAB_MENU_BASE)
        } else {
            None
        }
    }

    /// One tick (100 ms) of the tooltip timer with the cursor over toolbar
    /// button `btn` (-1 when over none): moving to another button restarts
    /// the count and hides the tooltip; staying on a button shows its tooltip
    /// on the fifth tick.
    pub fn hover_tick(&mut self, btn: i32) -> (a: TooltipAction)
        requires
            old(self).hover_ticks < i32::MAX,
        ensures
            btn != old(self).hover_btn ==> a == TooltipAction::Hide && final(self).hover_btn == btn
                && final(self).hover_ticks == 0,
            btn == old(self).hover_btn && btn >= 0 ==> final(self).hover_btn == btn
                && final(self).hover_ticks == old(self).hover_ticks + 1 && a == (if old(self).hover_ticks
                + 1 == 5 {
                TooltipAction::Show(btn)
            } else {
                TooltipAction::Keep
            }),
            btn == old(self).hover_btn && btn < 0 ==> a == TooltipAction::Keep && final(self).hover_btn
                == old(self).hover_btn && final(self).hover_ticks == old(self).hover_ticks,
            final(self).tabs == old(self).tabs,
            final(self).active_tab == old(self).active_tab,
            final(self).tab_counter == old(self).tab_counter,
            final(self).active_tool == old(self).active_tool,
            final(self).dragging == old(self).dragging,
            final(self).drag_start == old(self).drag_start,
            final(self).default_save_dir == old(self).default_save_dir,
            final(self).hovering_canvas == old(self).hovering_canvas,
    {
        if btn != self.hover_btn {
            self.hover_btn = btn;
            self.hover_ticks = 0;
            TooltipAction::Hide
        } else if btn >= 0 {
            self.hover_ticks = self.hover_ticks + 1;
            if self.hover_ticks == 5 {
                TooltipAction::Show(btn)
            } else {
                TooltipAction::Keep
            }
        } else {
            TooltipAction::Keep
        }
    }

    /// The window title: "ezshot-" and the active tab's name, or "ezshot"
    /// when no tab is open.
    pub fn title(&self) -> (t: String)
        ensures
            t@ == (if self.active_tab < self.tabs@.len() {
                "ezshot-"@ + self.tabs@[self.active_tab as int].name@
            } else {
                "ezshot"@
            }),
    {
        if self.active_tab < self.tabs.len() {
            let mut t = String::from_str("ezshot-");
            t.append(self.tabs[self.active_tab].name.as_str());
            t
        } else {
            String::from_str("ezshot")
        }
    }

    /// Where a save of the active tab goes: nowhere without a tab; the file
    /// of its last save, overwritten; or, the first time, a file the user
    /// picks in the save dialog.
    pub fn save_target(&self) -> (t: SaveTarget)
        ensures
            self.active_tab >= self.tabs@.len() ==> t == SaveTarget::NoTab,
            self.active_tab < self.tabs@.len() ==> match self.tabs@[self.active_tab as int].saved_path {
                Some(p) => t matches SaveTarget::Overwrite(q) && q@ == p@,
                None => t == SaveTarget::Ask,
            },
    {
        if self.active_tab >= self.tabs.len() {
            return SaveTarget::NoTab;
        }
        match &self.tabs[self.active_tab].saved_path {
            Some(p) => SaveTarget::Overwrite(p.clone()),
            None => SaveTarget::Ask,
        }
    }

    /// Sets the ink colour of the active tab's later strokes.
    pub fn set_active_color(&mut self, color: u32)
        requires
            old(self).wf(),
        ensures
            final(self).wf(),
            same_but_tabs(*old(self), *final(self)),
            old(self).active_tab >= old(self).tabs@.len() ==> final(self).tabs == old(self).tabs,
            old(self).active_tab < old(self).tabs@.len() ==> {
                let a = old(self).active_tab as int;
                &&& only_canvas_changed(old(self).tabs@, final(self).tabs@, a)
                &&& final(self).tabs@[a].canvas@ == (CanvasView { tool_color: color, ..old(self).tabs@[a].canvas@ })
            },
    {
        let a = self.active_tab;
        if a < self.tabs.len() {
            self.tabs[a].canvas.set_tool_color(color);
            proof { lemma_tabs_wf_after_change(old(self).tabs@, self.tabs@, a as int); }
        }
    }

    /// The text tool at `pos`: commits `text` there on the active canvas in
    /// the current ink, recorded for undo like any stroke. Empty text, or no
    /// open tab, places nothing.
    pub fn place_text(&mut self, pos: Point, text: String) -> (placed: bool)
        requires
            old(self).wf(),
        ensures
            final(self).wf(),
            same_but_tabs(*old(self), *final(self)),
            placed == (text@.len() > 0 && old(self).active_tab < old(self).tabs@.len()),
            !placed ==> final(self).tabs == old(self).tabs,
            placed ==> {
                let a = old(self).active_tab as int;
                let c = old(self).tabs@[a].canvas@;
                &&& only_canvas_changed(old(self).tabs@, final(self).tabs@, a)
                &&& final(self).tabs@[a].canvas@ == spec_push_stroke(
                    c,
                    (StrokeView::Text(pos, text@), c.tool_color, c.tool_thickness),
                )
            },
    {
        let a = self.active_tab;
        if text.as_str().unicode_len() == 0 || a >= self.tabs.len() {
            return false;
        }
        self.tabs[a].canvas.commit(Stroke::Text { pos, text });
        proof { lemma_tabs_wf_after_change(old(self).tabs@, self.tabs@, a as int); }
        true
    }

    /// A press on the canvas at `pt`. With the text tool nothing changes and
    /// the result asks for the text to place; any other tool starts a drag
    /// from `pt`, and the pen starts its stroke there.
    pub fn press(&mut self, pt: Point) -> (wants_text: bool)
        requires
            old(self).wf(),
        ensures
            final(self).wf(),
            wants_text == (old(self).active_tool == Tool::Text),
            wants_text ==> *final(self) == *old(self),
            !wants_text ==> {
                &&& final(self).dragging
                &&& final(self).drag_start == pt
                &&& same_but_drag(*old(self), *final(self))
                &&& if old(self).active_tool == Tool::Pen && old(self).active_tab < old(self).tabs@.len() {
                    let a = old(self).active_tab as int;
                    &&& only_canvas_changed(old(self).tabs@, final(self).tabs@, a)
                    &&& final(self).tabs@[a].canvas@ == (CanvasView {
                        current: Some(StrokeView::Pen(seq![pt])),
                        ..old(self).tabs@[a].canvas@
                    })
                } else {
                    final(self).tabs == old(self).tabs
                }
            },
    {
        if self.active_tool == Tool::Text {
            return true;
        }
        self.dragging = true;
        self.drag_start = pt;
        let a = self.active_tab;
        if self.active_tool == Tool::Pen && a < self.tabs.len() {
            let mut points: Vec<Point> = Vec::new();
            points.push(pt);
            proof { assert(points@ =~= seq![pt]); }
            self.tabs[a].canvas.set_current(Some(Stroke::Pen { points }));
            proof { lemma_tabs_wf_after_change(old(self).tabs@, self.tabs@, a as int); }
        }
        false
    }

    /// The mouse moved to `pt` during a drag: the pen's stroke gains `pt`;
    /// the arrow, rectangle and crop tools redraw their shape from the drag
    /// start to `pt`. Outside a drag nothing changes.
    pub fn drag_to(&mut self, pt: Point)
        requires
            old(self).wf(),
        ensures
            final(self).wf(),
            same_but_tabs(*old(self), *final(self)),
            !old(self).dragging || old(self).active_tab >= old(self).tabs@.len() ==> final(self).tabs
                == old(self).tabs,
            old(self).dragging && old(self).active_tab < old(self).tabs@.len() ==> {
                let a = old(self).active_tab as int;
                let c = old(self).tabs@[a].canvas@;
                &&& only_canvas_changed(old(self).tabs@, final(self).tabs@, a)
                &&& final(self).tabs@[a].canvas@ == (CanvasView {
                    current: dragged_current(c.current, old(self).active_tool, old(self).drag_start, pt),
                    ..c
                })
            },
    {
        let a = self.active_tab;
        if !self.dragging || a >= self.tabs.len() {
            return;
        }
        if self.active_tool == Tool::Pen {
            let cur = self.tabs[a].canvas.take_current();
            let next = match cur {
                Some(Stroke::Pen { points }) => {
                    let mut p = points;
                    p.push(pt);
                    Some(Stroke::Pen { points: p })
                },
                other => other,
            };
            self.tabs[a].canvas.set_current(next);
        } else {
            match drag_stroke(self.active_tool, self.drag_start, pt) {
                Some(s) => {
                    self.tabs[a].canvas.set_current(Some(s));
                },
                None => {
                    let cur = self.tabs[a].canvas.take_current();
                    self.tabs[a].canvas.set_current(cur);
                },
            }
        }
        proof { lemma_tabs_wf_after_change(old(self).tabs@, self.tabs@, a as int); }
    }

    /// The mouse button came up. Outside a drag nothing changes. Otherwise
    /// the drag ends and the in-progress stroke is taken off the active
    /// canvas: with the crop tool, a rectangle more than 4 pixels wide and
    /// high crops the canvas (when every stroke still fits in `i32` after
    /// moving) and resets the scroll position; with the other tools the
    /// stroke is committed in the current ink.
    pub fn release(&mut self) -> (o: ReleaseOutcome)
        requires
            old(self).wf(),
        ensures
            final(self).wf(),
            !old(self).dragging ==> o == ReleaseOutcome::Ignored && *final(self) == *old(self),
            old(self).dragging ==> !final(self).dragging && same_but_drag(*old(self), *final(self))
                && final(self).drag_start == old(self).drag_start,
            old(self).dragging && old(self).active_tab >= old(self).tabs@.len() ==> o
                == ReleaseOutcome::Nothing && final(self).tabs == old(self).tabs,
            old(self).dragging && old(self).active_tab < old(self).tabs@.len() ==> {
                let a = old(self).active_tab as int;
                let t0 = old(self).tabs@[a];
                let c = CanvasView { current: None, ..t0.canvas@ };
                let t = final(self).tabs@[a];
                &&& only_tab_changed(old(self).tabs@, final(self).tabs@, a)
                &&& t.save_dir == t0.save_dir && t.result_sent == t0.result_sent && t.name == t0.name
                &&& t.saved_path == t0.saved_path
                &&& if old(self).active_tool == Tool::Crop {
                    if crop_applies(t0.canvas@) {
                        let r = t0.canvas@.current->0->Rect_0;
                        &&& o == ReleaseOutcome::CropFinished { cropped: true }
                        &&& t.canvas@ == spec_crop(c, r)
                        &&& t.scroll_x == 0 && t.scroll_y == 0
                    } else {
                        &&& o == ReleaseOutcome::CropFinished { cropped: false }
                        &&& t.canvas@ == c
                        &&& t.scroll_x == t0.scroll_x && t.scroll_y == t0.scroll_y
                    }
                } else {
                    &&& t.scroll_x == t0.scroll_x && t.scroll_y == t0.scroll_y
                    &&& match t0.canvas@.current {
                        Some(s) => o == ReleaseOutcome::Committed && t.canvas@ == spec_push_stroke(
                            c,
                            (s, c.tool_color, c.tool_thickness),
                        ),
                        None => o == ReleaseOutcome::Nothing && t.canvas@ == c,
                    }
                }
            },
    {
        if !self.dragging {
            return ReleaseOutcome::Ignored;
        }
        self.dragging = false;
        let a = self.active_tab;
        if a >= self.tabs.len() {
            return ReleaseOutcome::Nothing;
        }
        let cur = self.tabs[a].canvas.take_current();
        let o = if self.active_tool == Tool::Crop {
            let mut cropped = false;
            match cur {
                Some(Stroke::Rect { r }) => {
                    if crop_accepted(r) && self.tabs[a].canvas.can_crop(r) {
                        self.tabs[a].canvas.crop(r);
                        self.tabs[a].scroll_x = 0;
                        self.tabs[a].scroll_y = 0;
                        cropped = true;
                    }
                },
                _ => {},
            }
            ReleaseOutcome::CropFinished { cropped }
        } else {
            match cur {
                Some(s) => {
                    self.tabs[a].canvas.commit(s);
                    ReleaseOutcome::Committed
                },
                None => ReleaseOutcome::Nothing,
            }
        };
        proof { lemma_tabs_wf_after_change(old(self).tabs@, self.tabs@, a as int); }
        o
    }

    /// Undo on the active tab. An undone crop changes the canvas size, so
    /// each scroll position is pulled back inside the canvas.
    pub fn undo_active(&mut self)
        requires
            old(self).wf(),
        ensures
            final(self).wf(),
            same_but_tabs(*old(self), *final(self)),
            old(self).active_tab >= old(self).tabs@.len() ==> final(self).tabs == old(self).tabs,
            old(self).active_tab < old(self).tabs@.len() ==> {
                let a = old(self).active_tab as int;
                let t0 = old(self).tabs@[a];
                let t = final(self).tabs@[a];
                let c = spec_undo(t0.canvas@);
                &&& only_tab_changed(old(self).tabs@, final(self).tabs@, a)
                &&& t.save_dir == t0.save_dir && t.result_sent == t0.result_sent && t.name == t0.name
                &&& t.saved_path == t0.saved_path
                &&& t.canvas@ == c
                &&& t.scroll_x == min_int(t0.scroll_x as int, max_int(c.width - 1, 0))
                &&& t.scroll_y == min_int(t0.scroll_y as int, max_int(c.height - 1, 0))
            },
    {
        let a = self.active_tab;
        if a >= self.tabs.len() {
            return;
        }
        self.tabs[a].canvas.undo();
        let (w, h) = self.tabs[a].canvas.size();
        let sx = scroll_within(self.tabs[a].scroll_x, w);
        let sy = scroll_within(self.tabs[a].scroll_y, h);
        self.tabs[a].scroll_x = sx;
        self.tabs[a].scroll_y = sy;
        proof { lemma_tabs_wf_after_change(old(self).tabs@, self.tabs@, a as int); }
    }

    /// The active tab was saved to `path` (in folder `dir`, when the path
    /// has one): the tab stays open, remembers the file so that later saves
    /// overwrite it, takes `dir` as its save folder, and is marked as answered.
    pub fn finish_save(&mut self, path: String, dir: Option<String>)
        requires
            old(self).wf(),
        ensures
            final(self).wf(),
            same_but_tabs(*old(self), *final(self)),
            old(self).active_tab >= old(self).tabs@.len() ==> final(self).tabs == old(self).tabs,
            old(self).active_tab < old(self).tabs@.len() ==> {
                let a = old(self).active_tab as int;
                let t0 = old(self).tabs@[a];
                let t = final(self).tabs@[a];
                &&& only_tab_changed(old(self).tabs@, final(self).tabs@, a)
                &&& t.canvas == t0.canvas
                &&& t.scroll_x == t0.scroll_x && t.scroll_y == t0.scroll_y
                &&& t.name == t0.name
                &&& t.result_sent
                &&& t.saved_path == Some(path)
                &&& t.save_dir == (match dir {
                    Some(d) => d,
                    None => t0.save_dir,
                })
            },
    {
        let a = self.active_tab;
        if a >= self.tabs.len() {
            return;
        }
        match dir {
            Some(d) => {
                self.tabs[a].save_dir = d;
            },
            None => {},
        }
        self.tabs[a].result_sent = true;
        self.tabs[a].saved_path = Some(path);
        proof { lemma_tabs_wf_after_change(old(self).tabs@, self.tabs@, a as int); }
    }
}

/// The editor fields other than the tab list are as in `a`.
pub open spec fn same_but_tabs(a: EditorState, b: EditorState) -> bool {
    &&& b.active_tab == a.active_tab
    &&& b.dragging == a.dragging
    &&& b.drag_start == a.drag_start
    &&& same_but_drag(a, b)
}

/// The editor fields other than the tab list and the drag state are as in `a`.
pub open spec fn same_but_drag(a: EditorState, b: EditorState) -> bool {
    &&& b.active_tab == a.active_tab
    &&& b.tab_counter == a.tab_counter
    &&& b.active_tool == a.active_tool
    &&& b.default_save_dir == a.default_save_dir
    &&& b.hovering_canvas == a.hovering_canvas
    &&& b.hover_btn == a.hover_btn
    &&& b.hover_ticks == a.hover_ticks
}

/// `b` is the tab list `a` with at most tab `i` changed.
pub open spec fn only_tab_changed(a: Seq<TabInfo>, b: Seq<TabInfo>, i: int) -> bool {
    &&& 0 <= i < a.len()
    &&& b.len() == a.len()
    &&& forall|j: int| 0 <= j < a.len() && j != i ==> #[trigger] b[j] == a[j]
}

/// `b` is the tab list `a` with at most the canvas of tab `i` changed.
pub open spec fn only_canvas_changed(a: Seq<TabInfo>, b: Seq<TabInfo>, i: int) -> bool {
    &&& only_tab_changed(a, b, i)
    &&& b[i].save_dir == a[i].save_dir
    &&& b[i].scroll_x == a[i].scroll_x
    &&& b[i].scroll_y == a[i].scroll_y
    &&& b[i].result_sent == a[i].result_sent
    &&& b[i].saved_path == a[i].saved_path
    &&& b[i].name == a[i].name
}

/// The in-progress stroke after the mouse moves to `pt` during a drag that
/// started at `start`.
pub open spec fn dragged_current(cur: Option<StrokeView>, tool: Tool, start: Point, pt: Point) -> Option<StrokeView> {
    match tool {
        Tool::Pen => match cur {
            Some(StrokeView::Pen(ps)) => Some(StrokeView::Pen(ps.push(pt))),
            _ => cur,
        },
        Tool::Arrow => Some(StrokeView::Arrow(start, pt)),
        Tool::Rect | Tool::Crop => Some(StrokeView::Rect(Rect {
            left: min_int(start.x as int, pt.x as int) as i32,
            top: min_int(start.y as int, pt.y as int) as i32,
            right: max_int(start.x as int, pt.x as int) as i32,
            bottom: max_int(start.y as int, pt.y as int) as i32,
        })),
        Tool::Text => cur,
    }
}

/// A drag shapes the in-progress stroke from the press point `start` to the
/// mouse point `pt`: the arrow's tail is at `start` and its head at `pt`; the
/// rectangle (and crop) has `start` and `pt` as opposite corners, left/top
/// no greater than right/bottom; the pen's stroke keeps its points and gains
/// `pt` at the end; the text tool draws nothing.
pub proof fn lemma_drag_follows_the_mouse(cur: Option<StrokeView>, tool: Tool, start: Point, pt: Point)
    ensures
        tool == Tool::Arrow ==> (dragged_current(cur, tool, start, pt) matches Some(
            StrokeView::Arrow(from, to),
        ) && from == start && to == pt),
        tool == Tool::Rect || tool == Tool::Crop ==> (dragged_current(cur, tool, start, pt) matches Some(
            StrokeView::Rect(r),
        ) && r.left <= r.right && r.top <= r.bottom && ((r.left == start.x && r.right == pt.x) || (
        r.left == pt.x && r.right == start.x)) && ((r.top == start.y && r.bottom == pt.y) || (r.top
            == pt.y && r.bottom == start.y))),
        tool == Tool::Pen && cur is Some && cur->0 is Pen ==> ({
            let ps = cur->0->Pen_0;
            dragged_current(cur, tool, start, pt) matches Some(StrokeView::Pen(qs)) && qs.len() == ps.len()
                + 1 && qs.last() == pt && qs.drop_last() == ps
        }),
        tool == Tool::Pen && !(cur is Some && cur->0 is Pen) ==> dragged_current(
            cur,
            tool,
            start,
            pt,
        ) == cur,
        tool == Tool::Text ==> dragged_current(cur, tool, start, pt) == cur,
{
    if tool == Tool::Pen {
        if let Some(StrokeView::Pen(ps)) = cur {
            assert(ps.push(pt).drop_last() =~= ps);
        }
    }
}

/// A finished crop drag crops: its stroke is a rectangle more than 4 pixels
/// wide and high, and every stroke still fits in `i32` after the crop.
pub open spec fn crop_applies(c: CanvasView) -> bool {
    match c.current {
        Some(StrokeView::Rect(r)) => r.right - r.left > 4 && r.bottom - r.top > 4 && crop_fits(c, r),
        _ => false,
    }
}

/// What releasing the mouse button did.
#[derive(Clone, Copy, Debug, PartialEq, Eq, Structural)]
pub enum ReleaseOutcome {
    /// No drag was under way.
    Ignored,
    /// A crop drag ended; `cropped` tells whether the canvas was cropped
    /// (its size changed: refresh the scroll bars and repaint everything).
    CropFinished { cropped: bool },
    /// A stroke was committed: repaint the canvas.
    Committed,
    /// The drag left nothing to commit.
    Nothing,
}

/// Where a save goes.
pub enum SaveTarget {
    /// No tab is open.
    NoTab,
    /// First save of the tab: ask with the save dialog.
    Ask,
    /// Overwrite the file of the tab's last save.
    Overwrite(String),
}

/// The file name the save dialog proposes: "srcshot_", the time of the save
/// in seconds since 1970, and ".png".
pub open spec fn spec_save_file_name(unix_secs: u64) -> Seq<char> {
    "srcshot_"@ + decimal(unix_secs as nat) + ".png"@
}

/// The file name the save dialog proposes for a save at `unix_secs`
/// (seconds since 1970).
pub fn save_file_name(unix_secs: u64) -> (f: String)
    ensures
        f@ == spec_save_file_name(unix_secs),
{
    let mut f = String::from_str("srcshot_");
    push_decimal_u64(&mut f, unix_secs);
    f.append(".png");
    f
}

/// Changing one tab's canvas through its own methods, which keep it well
/// formed, keeps the editor's tab list well formed.
proof fn lemma_tabs_wf_after_change(a: Seq<TabInfo>, b: Seq<TabInfo>, i: int)
    requires
        forall|j: int| 0 <= j < a.len() ==> (#[trigger] a[j]).canvas.wf(),
        only_tab_changed(a, b, i),
        b[i].canvas.wf(),
    ensures
        forall|j: int| 0 <= j < b.len() ==> (#[trigger] b[j]).canvas.wf(),
{
    assert forall|j: int| 0 <= j < b.len() implies (#[trigger] b[j]).canvas.wf() by {
        if j != i {
            assert(b[j] == a[j]);
        }
    }
}

/// What the tooltip timer does on a tick.
#[derive(Clone, Copy, Debug, PartialEq, Eq, Structural)]
pub enum TooltipAction {
    Keep,
    Hide,
    /// Show the tooltip of toolbar button number `i` (0-based).
    Show(i32),
}

/// Closing tabs never leaves the active index pointing past the tab list:
/// after any close, either no tab remains or the active tab exists.
pub proof fn lemma_close_keeps_active_valid(old_len: int, old_active: int, idx: int)
    requires
        0 <= idx < old_len,
        0 <= old_active < old_len,
        old_len > 1,
    ensures
        0 <= (if old_active >= old_len - 1 { old_len - 2 } else { old_active }) < old_len - 1,
{
}

/// A tab name from the local capture time: YYYYMMDDhhmmss.
pub open spec fn spec_timestamp_name(year: u32, month: u32, day: u32, hour: u32, minute: u32, second: u32) -> Seq<
    char,
> {
    padded_decimal(year as nat, 4) + padded_decimal(month as nat, 2) + padded_decimal(day as nat, 2)
        + padded_decimal(hour as nat, 2) + padded_decimal(minute as nat, 2) + padded_decimal(
        second as nat,
        2,
    )
}

/// The name of a new tab: its capture time as YYYYMMDDhhmmss.
pub fn timestamp_name(year: u32, month: u32, day: u32, hour: u32, minute: u32, second: u32) -> (s: String)
    ensures
        s@ == spec_timestamp_name(year, month, day, hour, minute, second),
{
    let mut s = String::new();
    push_padded_decimal(&mut s, year, 4);
    push_padded_decimal(&mut s, month, 2);
    push_padded_decimal(&mut s, day, 2);
    push_padded_decimal(&mut s, hour, 2);
    push_padded_decimal(&mut s, minute, 2);
    push_padded_decimal(&mut s, second, 2);
    assert(s@ =~= spec_timestamp_name(year, month, day, hour, minute, second));
    s
}

// ─── Tab bar ────────────────────────────────────────────────────────────────

/// What a click in the tab bar hits.
#[derive(Clone, Copy, Debug, PartialEq, Eq, Structural)]
pub enum TabHit {
    Nothing,
    /// The drop-down button listing all tabs.
    DropDown,
    /// The close cross of tab `i`.
    Close(usize),
    /// Tab `i` itself.
    Select(usize),
}

/// How many tabs fit beside the drop-down button (at least one).
pub open spec fn spec_max_visible_tabs(client_w: int) -> int {
    if client_w - DROP_W < TAB_W { 1 } else { (client_w - DROP_W) / (TAB_W as int) }
}

/// Whether the tabs overflow the bar, so that the drop-down button shows.
pub open spec fn spec_tabs_overflow(client_w: int, ntabs: int) -> bool {
    ntabs > spec_max_visible_tabs(client_w)
}

/// The first tab the bar shows: the bar scrolls just far enough that the
/// active tab (the newest, right after a capture) is on it.
pub open spec fn spec_first_visible_tab(ntabs: int, visible: int, active: int) -> int {
    if ntabs <= visible || active < visible {
        0
    } else if active + 1 - visible <= ntabs - visible {
        active + 1 - visible
    } else {
        ntabs - visible
    }
}

pub open spec fn spec_tab_bar_hit(cx: int, client_w: int, ntabs: int, first: int) -> TabHit {
    let overflow = spec_tabs_overflow(client_w, ntabs);
    let visible = if overflow { spec_max_visible_tabs(client_w) } else { ntabs };
    if overflow && cx >= client_w - DROP_W {
        TabHit::DropDown
    } else if cx <= -TAB_W {
        TabHit::Nothing
    } else {
        let idx = if cx < 0 { 0 } else { cx / (TAB_W as int) };
        if idx < visible && first + idx < ntabs {
            if cx >= idx * TAB_W + TAB_W - TAB_CLOSE_W {
                TabHit::Close((first + idx) as usize)
            } else {
                TabHit::Select((first + idx) as usize)
            }
        } else {
            TabHit::Nothing
        }
    }
}

/// How many tabs the bar shows beside the drop-down button.
pub fn max_visible_tabs(client_w: i32) -> (n: usize)
    ensures
        n == spec_max_visible_tabs(client_w as int),
        n >= 1,
{
    let room: i64 = client_w as i64 - DROP_W as i64;
    if room < TAB_W as i64 {
        1
    } else {
        (room / TAB_W as i64) as usize
    }
}

/// The first tab the bar shows when `visible` of `ntabs` tabs fit and tab
/// `active` is the active one.
pub fn first_visible_tab(ntabs: usize, visible: usize, active: usize) -> (first: usize)
    ensures
        first == spec_first_visible_tab(ntabs as int, visible as int, active as int),
{
    if ntabs <= visible || active < visible {
        0
    } else if active - visible < ntabs - visible {
        active - visible + 1
    } else {
        ntabs - visible
    }
}

/// The tab bar always shows the active tab, and never runs past the last
/// tab: with at least one tab fitting, the active tab lies among the
/// `visible` tabs from the first one shown, and when the tabs overflow the
/// bar, the shown tabs all exist.
pub proof fn lemma_active_tab_shown(ntabs: int, visible: int, active: int)
    requires
        visible >= 1,
        0 <= active < ntabs,
    ensures
        spec_first_visible_tab(ntabs, visible, active) <= active < spec_first_visible_tab(ntabs, visible, active)
            + visible,
        spec_first_visible_tab(ntabs, visible, active) >= 0,
        ntabs > visible ==> spec_first_visible_tab(ntabs, visible, active) + visible <= ntabs,
        ntabs <= visible ==> spec_first_visible_tab(ntabs, visible, active) == 0,
{
}

/// What a click at client x `cx` in the tab bar hits, with `ntabs` tabs in
/// a client area `client_w` wide, the bar showing tabs from `first` on.
pub fn tab_bar_hit(cx: i32, client_w: i32, ntabs: usize, first: usize) -> (h: TabHit)
    ensures
        h == spec_tab_bar_hit(cx as int, client_w as int, ntabs as int, first as int),
{
    let max_vis = max_visible_tabs(client_w);
    let overflow = ntabs > max_vis;
    let visible = if overflow { max_vis } else { ntabs };
    if overflow && cx as i64 >= client_w as i64 - DROP_W as i64 {
        return TabHit::DropDown;
    }
    if cx <= -TAB_W {
        return TabHit::Nothing;
    }
    let idx: i32 = if cx < 0 { 0 } else { cx / TAB_W };
    if (idx as usize) < visible && first < ntabs && (idx as usize) < ntabs - first {
        if cx as i64 >= idx as i64 * TAB_W as i64 + TAB_W as i64 - TAB_CLOSE_W as i64 {
            TabHit::Close(first + idx as usize)
        } else {
            TabHit::Select(first + idx as usize)
        }
    } else {
        TabHit::Nothing
    }
}

/// Left edge of tab `i` in the tab bar.
pub fn tab_left(i: usize) -> (x: i64)
    requires
        i <= 0xFFFF_FFFF,
    ensures
        x == i * TAB_W,
{
    assert(i * 130 <= 0xFFFF_FFFFusize * 130) by (nonlinear_arith)
        requires
            i <= 0xFFFF_FFFFusize,
    ;
    i as i64 * 130i64
}

// ─── Scrolling ──────────────────────────────────────────────────────────────

/// A scroll position kept within `[0, max(canvas - client, 0)]`.
pub open spec fn spec_clamp_scroll(val: int, canvas_size: int, client_size: int) -> int {
    clamp_int(val, 0, max_int(canvas_size - client_size, 0))
}

/// Keeps a scroll position within the canvas.
pub fn clamp_scroll(val: i64, canvas_size: i32, client_size: i32) -> (r: i32)
    requires
        canvas_size >= 0,
        canvas_size - client_size <= i32::MAX,
    ensures
        r == spec_clamp_scroll(val as int, canvas_size as int, client_size as int),
{
    let hi: i64 = if canvas_size as i64 - client_size as i64 > 0 {
        canvas_size as i64 - client_size as i64
    } else {
        0
    };
    if val < 0 {
        0
    } else if val > hi {
        hi as i32
    } else {
        val as i32
    }
}

/// The scroll position after a scroll-bar request (SB_LINEUP/LEFT 0,
/// SB_LINEDOWN/RIGHT 1, SB_PAGEUP/LEFT 2, SB_PAGEDOWN/RIGHT 3,
/// SB_THUMBTRACK 5 to `track`; other codes keep the position). Lines are
/// 20 pixels, pages one client extent.
pub fn scroll_for_code(code: u32, current: i32, page: i32, track: i32, canvas_size: i32, client_size: i32) -> (r: i32)
    requires
        canvas_size >= 0,
        canvas_size - client_size <= i32::MAX,
    ensures
        r == spec_clamp_scroll(
            if code == 0 {
                current - 20
            } else if code == 1 {
                current + 20
            } else if code == 2 {
                current - page
            } else if code == 3 {
                current + page
            } else if code == 5 {
                track as int
            } else {
                current as int
            },
            canvas_size as int,
            client_size as int,
        ),
{
    let target: i64 = if code == 0 {
        current as i64 - 20
    } else if code == 1 {
        current as i64 + 20
    } else if code == 2 {
        current as i64 - page as i64
    } else if code == 3 {
        current as i64 + page as i64
    } else if code == 5 {
        track as i64
    } else {
        current as i64
    };
    clamp_scroll(target, canvas_size, client_size)
}

/// The vertical scroll position after a mouse-wheel step: 60 pixels up for
/// a positive delta, 60 down otherwise.
pub fn wheel_scroll(delta: i16, current: i32, canvas_size: i32, client_size: i32) -> (r: i32)
    requires
        canvas_size >= 0,
        canvas_size - client_size <= i32::MAX,
    ensures
        r == spec_clamp_scroll(
            if delta > 0 { current - 60 } else { current + 60 },
            canvas_size as int,
            client_size as int,
        ),
{
    let target: i64 = if delta > 0 { current as i64 - 60 } else { current as i64 + 60 };
    clamp_scroll(target, canvas_size, client_size)
}

/// A scroll position pulled back inside a canvas that may have shrunk or
/// grown (after undo): at most `size - 1`, and never below 0 on that account.
pub fn scroll_within(scroll: i32, size: i32) -> (r: i32)
    ensures
        r == min_int(scroll as int, max_int(size as int - 1, 0)),
{
    let cap: i64 = if size as i64 - 1 > 0 { size as i64 - 1 } else { 0 };
    if (scroll as i64) < cap { scroll } else { cap as i32 }
}

/// Which scroll bars a canvas needs in a client area (horizontal, vertical).
pub fn scrollbars_needed(canvas_w: i32, canvas_h: i32, client_w: i32, client_bottom: i32) -> (r: (bool, bool))
    ensures
        r.0 == (canvas_w > client_w),
        r.1 == (canvas_h > client_bottom - CANVAS_Y),
{
    (canvas_w > client_w, canvas_h as i64 > client_bottom as i64 - CANVAS_Y as i64)
}

/// The part of the canvas that shows: from the scroll position to the
/// canvas edge, at most the client extent, never negative.
pub fn visible_extent(canvas_size: i32, scroll: i32, client_size: i32) -> (v: i32)
    ensures
        v == max_int(min_int(canvas_size - scroll, client_size as int), 0),
{
    let rest: i64 = canvas_size as i64 - scroll as i64;
    let m: i64 = if rest < client_size as i64 { rest } else { client_size as i64 };
    if m > 0 { m as i32 } else { 0 }
}

/// Canvas coordinates of a client point in the canvas area, given the
/// scroll position.
pub fn canvas_point(cx: i32, cy: i32, scroll_x: i32, scroll_y: i32) -> (p: Option<Point>)
    ensures
        p == (if cx + scroll_x <= i32::MAX && cy - CANVAS_Y + scroll_y <= i32::MAX && cx + scroll_x >= i32::MIN
            && cy - CANVAS_Y + scroll_y >= i32::MIN {
            Some(Point { x: (cx + scroll_x) as i32, y: (cy - CANVAS_Y + scroll_y) as i32 })
        } else {
            None
        }),
{
    let x: i64 = cx as i64 + scroll_x as i64;
    let y: i64 = cy as i64 - CANVAS_Y as i64 + scroll_y as i64;
    if x <= i32::MAX as i64 && y <= i32::MAX as i64 && x >= i32::MIN as i64 && y >= i32::MIN as i64 {
        Some(Point { x: x as i32, y: y as i32 })
    } else {
        None
    }
}

// ─── Window size ────────────────────────────────────────────────────────────

/// Narrowest editor window: room for the nine toolbar buttons.
pub const MIN_WINDOW_W: i32 = 420;
/// Lowest editor window: toolbar, tab bar and 120 pixels of canvas.
pub const MIN_WINDOW_H: i32 = 196;

/// The editor's first window size for a canvas: the canvas plus frame, at
/// least the minimum, at most nine tenths of the screen.
pub fn initial_window_size(canvas_w: i32, canvas_h: i32, screen_w: i32, screen_h: i32) -> (r: (i32, i32))
    requires
        screen_w >= 0,
        screen_h >= 0,
    ensures
        r.0 == min_int(max_int(canvas_w + 20, MIN_WINDOW_W as int), screen_w * 9 / 10),
        r.1 == min_int(max_int(canvas_h + CANVAS_Y + 45, MIN_WINDOW_H as int), screen_h * 9 / 10),
{
    let want_w: i64 = if canvas_w as i64 + 20 > MIN_WINDOW_W as i64 { canvas_w as i64 + 20 } else { MIN_WINDOW_W as i64 };
    let want_h: i64 = if canvas_h as i64 + CANVAS_Y as i64 + 45 > MIN_WINDOW_H as i64 {
        canvas_h as i64 + CANVAS_Y as i64 + 45
    } else {
        MIN_WINDOW_H as i64
    };
    let cap_w: i64 = screen_w as i64 * 9 / 10;
    let cap_h: i64 = screen_h as i64 * 9 / 10;
    let w = if want_w < cap_w { want_w } else { cap_w };
    let h = if want_h < cap_h { want_h } else { cap_h };
    (w as i32, h as i32)
}

// ─── Toolbar ────────────────────────────────────────────────────────────────

/// Control ids of the toolbar buttons, left to right.
pub open spec fn spec_toolbar_button(i: int) -> usize {
    if i == 0 {
        BTN_PEN
    } else if i == 1 {
        BTN_ARROW
    } else if i == 2 {
        BTN_RECT
    } else if i == 3 {
        BTN_TEXT
    } else if i == 4 {
        BTN_CROP
    } else if i == 5 {
        BTN_COLOR
    } else if i == 6 {
        BTN_COPY
    } else if i == 7 {
        BTN_SAVE
    } else {
        BTN_UNDO
    }
}

/// The control id of toolbar button `i` (0 to 8, left to right).
pub fn toolbar_button(i: usize) -> (id: usize)
    requires
        i < 9,
    ensures
        id == spec_toolbar_button(i as int),
{
    if i == 0 {
        BTN_PEN
    } else if i == 1 {
        BTN_ARROW
    } else if i == 2 {
        BTN_RECT
    } else if i == 3 {
        BTN_TEXT
    } else if i == 4 {
        BTN_CROP
    } else if i == 5 {
        BTN_COLOR
    } else if i == 6 {
        BTN_COPY
    } else if i == 7 {
        BTN_SAVE
    } else {
        BTN_UNDO
    }
}

/// Left edge of toolbar button `i`.
pub fn toolbar_button_x(i: usize) -> (x: i32)
    requires
        i < 9,
    ensures
        x == BTN_MARGIN + i * (BTN_W + BTN_MARGIN),
{
    BTN_MARGIN + (i as i32) * (BTN_W + BTN_MARGIN)
}

/// The position (0 to 8) of the toolbar button with this control id, or -1.
pub fn toolbar_index(id: usize) -> (i: i32)
    ensures
        0 <= i < 9 ==> spec_toolbar_button(i as int) == id,
        i == -1 ==> forall|k: int| 0 <= k < 9 ==> spec_toolbar_button(k) != id,
        -1 <= i < 9,
{
    if id == BTN_PEN {
        0
    } else if id == BTN_ARROW {
        1
    } else if id == BTN_RECT {
        2
    } else if id == BTN_TEXT {
        3
    } else if id == BTN_CROP {
        4
    } else if id == BTN_COLOR {
        5
    } else if id == BTN_COPY {
        6
    } else if id == BTN_SAVE {
        7
    } else if id == BTN_UNDO {
        8
    } else {
        -1
    }
}

/// The drawing tool a toolbar button selects, if it is a tool button.
pub open spec fn spec_tool_for_button(id: usize) -> Option<Tool> {
    if id == BTN_PEN {
        Some(Tool::Pen)
    } else if id == BTN_ARROW {
        Some(Tool::Arrow)
    } else if id == BTN_RECT {
        Some(Tool::Rect)
    } else if id == BTN_TEXT {
        Some(Tool::Text)
    } else if id == BTN_CROP {
        Some(Tool::Crop)
    } else {
        None
    }
}

/// The drawing tool a toolbar button selects, if it is a tool button.
pub fn tool_for_button(id: usize) -> (t: Option<Tool>)
    ensures
        t == spec_tool_for_button(id),
{
    if id == BTN_PEN {
        Some(Tool::Pen)
    } else if id == BTN_ARROW {
        Some(Tool::Arrow)
    } else if id == BTN_RECT {
        Some(Tool::Rect)
    } else if id == BTN_TEXT {
        Some(Tool::Text)
    } else if id == BTN_CROP {
        Some(Tool::Crop)
    } else {
        None
    }
}

/// Toolbar background (COLORREF).
pub const TOOLBAR_BG: u32 = 0x00F0F0F0;

/// Background and icon colours of an owner-drawn toolbar button: dark while
/// pressed, blue for the active tool, toolbar grey otherwise; white icons on
/// the first two, dark grey on the last.
pub fn button_colors(id: usize, pressed: bool, active_tool: Tool) -> (c: (u32, u32))
    ensures
        ({
            let is_active = spec_tool_for_button(id) == Some(active_tool);
            &&& c.0 == (if pressed { 0x0022_2222u32 } else if is_active { 0x00D4_7800u32 } else { TOOLBAR_BG })
            &&& c.1 == (if pressed || is_active { 0x00FF_FFFFu32 } else { 0x0040_4040u32 })
        }),
{
    let is_active = match tool_for_button(id) {
        Some(t) => t == active_tool,
        None => false,
    };
    let bg = if pressed { 0x0022_2222u32 } else if is_active { 0x00D4_7800u32 } else { TOOLBAR_BG };
    let fg = if pressed || is_active { 0x00FF_FFFFu32 } else { 0x0040_4040u32 };
    (bg, fg)
}

// ─── Colour palette drop-down ───────────────────────────────────────────────

/// Swatch size, gap, padding and layout of the palette drop-down.
pub const SWATCH: i32 = 28;
pub const SWATCH_GAP: i32 = 2;
pub const PALETTE_PAD: i32 = 4;
pub const PALETTE_COLS: i32 = 6;
/// Width and height of the drop-down, and the top of its "Custom..." row.
pub const PALETTE_W: i32 = 186;
pub const PALETTE_H: i32 = 92;
pub const PALETTE_CUSTOM_Y: i32 = 66;

/// The twelve preset colours (COLORREF), row by row.
pub open spec fn spec_palette(i: int) -> u32 {
    if i == 0 {
        0x0000_0000
    } else if i == 1 {
        0x0040_4040
    } else if i == 2 {
        0x0080_8080
    } else if i == 3 {
        0x00FF_FFFF
    } else if i == 4 {
        0x0000_00FF
    } else if i == 5 {
        0x0000_80FF
    } else if i == 6 {
        0x0000_FFFF
    } else if i == 7 {
        0x0000_C800
    } else if i == 8 {
        0x00FF_FF00
    } else if i == 9 {
        0x00FF_0000
    } else if i == 10 {
        0x0080_0080
    } else {
        0x00FF_00FF
    }
}

/// Preset colour `i` (0 to 11).
pub fn palette_color(i: usize) -> (c: u32)
    requires
        i < 12,
    ensures
        c == spec_palette(i as int),
{
    if i == 0 {
        0x0000_0000
    } else if i == 1 {
        0x0040_4040
    } else if i == 2 {
        0x0080_8080
    } else if i == 3 {
        0x00FF_FFFF
    } else if i == 4 {
        0x0000_00FF
    } else if i == 5 {
        0x0000_80FF
    } else if i == 6 {
        0x0000_FFFF
    } else if i == 7 {
        0x0000_C800
    } else if i == 8 {
        0x00FF_FF00
    } else if i == 9 {
        0x00FF_0000
    } else if i == 10 {
        0x0080_0080
    } else {
        0x00FF_00FF
    }
}

/// Top-left corner of swatch `i` in the drop-down.
pub open spec fn swatch_origin(i: int) -> (int, int) {
    (PALETTE_PAD + (i % (PALETTE_COLS as int)) * (SWATCH + SWATCH_GAP), PALETTE_PAD + (i / (PALETTE_COLS as int)) * (SWATCH
        + SWATCH_GAP))
}

pub open spec fn in_swatch(i: int, cx: int, cy: int) -> bool {
    let (x, y) = swatch_origin(i);
    x <= cx < x + SWATCH && y <= cy < y + SWATCH
}

/// What a click in the palette drop-down chose.
#[derive(Clone, Copy, Debug, PartialEq, Eq, Structural)]
pub enum PaletteHit {
    /// Outside the drop-down: close it without a choice.
    Outside,
    /// Preset colour `i`.
    Swatch(usize),
    /// The "Custom..." row: ask for a hex colour.
    Custom,
    /// Between swatches: keep the drop-down open.
    Nothing,
}

/// What a click at `(cx, cy)` (drop-down client coordinates) chose.
pub fn palette_hit(cx: i32, cy: i32) -> (h: PaletteHit)
    ensures
        (cx < 0 || cy < 0 || cx >= PALETTE_W || cy >= PALETTE_H) ==> h == PaletteHit::Outside,
        !(cx < 0 || cy < 0 || cx >= PALETTE_W || cy >= PALETTE_H) ==> match h {
            PaletteHit::Swatch(i) => i < 12 && in_swatch(i as int, cx as int, cy as int) && forall|j: int|
                0 <= j < i ==> !#[trigger] in_swatch(j, cx as int, cy as int),
            PaletteHit::Custom => (forall|j: int| 0 <= j < 12 ==> !#[trigger] in_swatch(j, cx as int, cy as int))
                && cy >= PALETTE_CUSTOM_Y,
            PaletteHit::Nothing => (forall|j: int| 0 <= j < 12 ==> !#[trigger] in_swatch(j, cx as int, cy as int))
                && cy < PALETTE_CUSTOM_Y,
            PaletteHit::Outside => false,
        },
{
    if cx < 0 || cy < 0 || cx >= PALETTE_W || cy >= PALETTE_H {
        return PaletteHit::Outside;
    }
    let mut i: i32 = 0;
    while i < 12
        invariant
            0 <= i <= 12,
            0 <= cx < PALETTE_W,
            0 <= cy < PALETTE_H,
            forall|j: int| 0 <= j < i ==> !#[trigger] in_swatch(j, cx as int, cy as int),
        decreases 12 - i,
    {
        let iu = i as u32;
        assert(iu % 6 < 6 && iu / 6 <= 2);
        let col = (iu % 6) as i32;
        let row = (iu / 6) as i32;
        let x = PALETTE_PAD + col * (SWATCH + SWATCH_GAP);
        let y = PALETTE_PAD + row * (SWATCH + SWATCH_GAP);
        if cx >= x && cx < x + SWATCH && cy >= y && cy < y + SWATCH {
            return PaletteHit::Swatch(i as usize);
        }
        i = i + 1;
    }
    if cy >= PALETTE_CUSTOM_Y {
        PaletteHit::Custom
    } else {
        PaletteHit::Nothing
    }
}

// ─── Drawing with the mouse ─────────────────────────────────────────────────

/// The in-progress stroke while dragging from `start` to `pt` with an arrow,
/// rectangle or crop tool (the pen extends its own stroke; text does not drag).
pub fn drag_stroke(tool: Tool, start: Point, pt: Point) -> (s: Option<Stroke>)
    ensures
        tool == Tool::Arrow ==> s is Some && s->0@ == StrokeView::Arrow(start, pt),
        (tool == Tool::Rect || tool == Tool::Crop) ==> s is Some && s->0@ == StrokeView::Rect(
            Rect {
                left: min_int(start.x as int, pt.x as int) as i32,
                top: min_int(start.y as int, pt.y as int) as i32,
                right: max_int(start.x as int, pt.x as int) as i32,
                bottom: max_int(start.y as int, pt.y as int) as i32,
            },
        ),
        (tool == Tool::Pen || tool == Tool::Text) ==> s is None,
{
    match tool {
        Tool::Arrow => Some(Stroke::Arrow { from: start, to: pt }),
        Tool::Rect | Tool::Crop => Some(Stroke::Rect { r: normalise(start.x, start.y, pt.x, pt.y) }),
        _ => None,
    }
}

/// A finished crop drag is applied only when it is more than 4 pixels wide
/// and high.
pub fn crop_accepted(r: Rect) -> (b: bool)
    ensures
        b == (r.right - r.left > 4 && r.bottom - r.top > 4),
{
    r.right as i64 - r.left as i64 > 4 && r.bottom as i64 - r.top as i64 > 4
}

/// What the colour drop-down's choice means for the ink colour.
#[derive(Clone, Copy, Debug, PartialEq, Eq, Structural)]
pub enum ColorChoice {
    /// Use this preset colour.
    Color(u32),
    /// Ask for a hex colour.
    Custom,
    /// Keep the current colour.
    Cancelled,
}

/// The choice made in the colour drop-down from the click that closed it.
pub fn color_choice(hit: PaletteHit) -> (c: ColorChoice)
    ensures
        c == (match hit {
            PaletteHit::Swatch(i) => if i < 12 {
                ColorChoice::Color(spec_palette(i as int))
            } else {
                ColorChoice::Cancelled
            },
            PaletteHit::Custom => ColorChoice::Custom,
            _ => ColorChoice::Cancelled,
        }),
{
    match hit {
        PaletteHit::Swatch(i) => if i < 12 {
            ColorChoice::Color(palette_color(i))
        } else {
            ColorChoice::Cancelled
        },
        PaletteHit::Custom => ColorChoice::Custom,
        _ => ColorChoice::Cancelled,
    }
}

} // verus!
