//! User settings.
use vstd::prelude::*;
use vstd::string::StrSliceExecFns;
use crate::editor::window::{skip_leading_ws, skip_trailing_ws, trim_ws_end, trim_ws_start};

verus! {

pub struct Config {
    /// Folder the save dialog opens in.
    pub save_dir: String,
    /// Draw the mouse cursor into captures.
    pub capture_cursor: bool,
    /// Copy every capture to the clipboard before it reaches the editor.
    pub auto_copy: bool,
    /// Hide the editor window while a capture is taken.
    pub hide_editor_on_capture: bool,
    /// Countdown before a capture, in seconds.
    pub capture_delay_secs: u32,
    /// "auto", "zh" or "en".
    pub language: String,
    /// "auto", "light" or "dark".
    pub theme: String,
}

impl Config {
    /// Settings with the given save folder and everything else at its
    /// default: no cursor, no auto-copy, editor left visible, no delay,
    /// language and theme following the system.
    pub fn new(save_dir: String) -> (c: Config)
        ensures
            c.save_dir@ == save_dir@,
            !c.capture_cursor,
            !c.auto_copy,
            !c.hide_editor_on_capture,
            c.capture_delay_secs == 0,
            c.language@ == "auto"@,
            c.theme@ == "auto"@,
    {
        Config {
            save_dir,
            capture_cursor: false,
            auto_copy: false,
            hide_editor_on_capture: false,
            capture_delay_secs: 0,
            language: String::from_str("auto"),
            theme: String::from_str("auto"),
        }
    }
}

/// The directory named by the contents of the last-directory file: the text
/// without surrounding whitespace.
pub fn saved_dir_text(contents: &str) -> (dir: String)
    ensures
        dir@ == trim_ws_start(trim_ws_end(contents@)),
{
    let ghost t = contents@;
    let n = contents.unicode_len();
    assert(t.subrange(0, n as int) =~= t);
    let hi = skip_trailing_ws(contents, n);
    assert(t.subrange(0, hi as int) =~= t.subrange(0, hi as int).subrange(0, hi as int));
    let lo = skip_leading_ws(contents, 0, hi);
    contents.substring_char(lo, hi).to_owned()
}

} // verus!
