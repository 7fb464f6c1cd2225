//! Two-language support (Chinese / English). The language in force is kept by
//! the caller as a one-byte code; these functions decide what that code is
//! and what it means.
use vstd::prelude::*;
use crate::text::{str_equals, encode_utf16_nul, utf16_of};

verus! {

/// Stored code for Chinese.
pub const ZH: u8 = 0;
/// Stored code for English.
pub const EN: u8 = 1;

#[derive(Clone, Copy, Debug, PartialEq, Eq, Structural)]
pub enum Lang {
    Zh,
    En,
}

pub open spec fn lang_code(l: Lang) -> u8 {
    match l {
        Lang::Zh => ZH,
        Lang::En => EN,
    }
}

/// The language a stored code stands for: `ZH` is Chinese, anything else English.
pub open spec fn lang_of_code(c: u8) -> Lang {
    if c == ZH { Lang::Zh } else { Lang::En }
}

/// A locale name, as UTF-16 units, that begins with "zh".
pub open spec fn is_zh_locale(units: Seq<u16>) -> bool {
    units.len() >= 2 && units[0] == 0x7Au16 && units[1] == 0x68u16
}

/// The language chosen by a setting string: "zh", "en", or anything else
/// (such as "auto") for the detected system language.
pub open spec fn spec_setting_lang(setting: Seq<char>, detected: Lang) -> Lang {
    if setting == "zh"@ {
        Lang::Zh
    } else if setting == "en"@ {
        Lang::En
    } else {
        detected
    }
}

impl Lang {
    /// The stored code of this language.
    pub fn as_u8(self) -> (c: u8)
        ensures
            c == lang_code(self),
    {
        if self == Lang::Zh { ZH } else { EN }
    }
}

/// The system language from the user's default locale name, given as the
/// UTF-16 units the system reported (possibly empty): Chinese for names that
/// start with "zh", English otherwise.
pub fn detect(locale_name: &[u16]) -> (l: Lang)
    ensures
        l == (if is_zh_locale(locale_name@) { Lang::Zh } else { Lang::En }),
{
    if locale_name.len() >= 2 && locale_name[0] == 0x7A && locale_name[1] == 0x68 {
        Lang::Zh
    } else {
        Lang::En
    }
}

/// The code to store at start-up for a language setting ("zh", "en" or
/// "auto"); any other setting falls back to the system locale.
pub fn init(setting: &str, locale_name: &[u16]) -> (code: u8)
    ensures
        code == lang_code(
            spec_setting_lang(
                setting@,
                if is_zh_locale(locale_name@) { Lang::Zh } else { Lang::En },
            ),
        ),
{
    let lang = if str_equals(setting, "zh") {
        Lang::Zh
    } else if str_equals(setting, "en") {
        Lang::En
    } else {
        detect(locale_name)
    };
    lang.as_u8()
}

/// The language a stored code stands for.
pub fn current(stored: u8) -> (l: Lang)
    ensures
        l == lang_of_code(stored),
{
    if stored == ZH { Lang::Zh } else { Lang::En }
}

/// The code to store when switching to `lang`.
pub fn set(lang: Lang) -> (code: u8)
    ensures
        code == lang_code(lang),
{
    lang.as_u8()
}

/// The text for the language in force.
pub fn t(stored: u8, zh: &'static str, en: &'static str) -> (s: &'static str)
    ensures
        s == (if lang_of_code(stored) == Lang::Zh { zh } else { en }),
{
    if current(stored) == Lang::Zh { zh } else { en }
}

/// The text for the language in force as a zero-terminated UTF-16 string.
pub fn tw(stored: u8, zh: &'static str, en: &'static str) -> (w: Vec<u16>)
    ensures
        w@ == utf16_of((if lang_of_code(stored) == Lang::Zh { zh } else { en })@).push(0u16),
{
    encode_utf16_nul(t(stored, zh, en))
}

/// Switching to a language and then reading the language in force gives
/// back that language.
pub proof fn lemma_set_then_current(lang: Lang)
    ensures
        lang_of_code(lang_code(lang)) == lang,
{
}

/// A setting of "zh" or "en" decides the language whatever the system locale.
pub proof fn lemma_explicit_setting_ignores_locale(setting: Seq<char>, a: Lang, b: Lang)
    requires
        setting == "zh"@ || setting == "en"@,
    ensures
        spec_setting_lang(setting, a) == spec_setting_lang(setting, b),
{
}

} // verus!
