//! Language selection: English by default, Chinese when the system asks for
//! it. Every user-facing text has an English and a Chinese form; the active
//! language picks one at display time.
//!
//! The active language is kept as one byte, so that a program can hold it in
//! an atomic; `set` and `get` say what the byte means.
use vstd::prelude::*;

verus! {

#[derive(Debug, Clone, Copy, PartialEq, Eq, Structural)]
pub enum Lang {
    En,
    Zh,
}

/// The language that a stored byte stands for.
pub open spec fn lang_of(slot: u8) -> Lang {
    if slot == 1 {
        Lang::Zh
    } else {
        Lang::En
    }
}

/// The form of a text for a language.
pub open spec fn say(l: Lang, en: Seq<char>, zh: Seq<char>) -> Seq<char> {
    match l {
        Lang::Zh => zh,
        Lang::En => en,
    }
}

/// Stores a language.
pub fn set(slot: &mut u8, l: Lang)
    ensures
        *final(slot) == (if l == Lang::Zh {
            1u8
        } else {
            0u8
        }),
        lang_of(*final(slot)) == l,
{
    *slot = match l {
        Lang::Zh => 1,
        Lang::En => 0,
    };
}

/// The stored language; anything but the Chinese byte is English.
pub fn get(slot: u8) -> (r: Lang)
    ensures
        r == lang_of(slot),
{
    if slot == 1 {
        Lang::Zh
    } else {
        Lang::En
    }
}

/// The English or Chinese form of a string, for the language `l`.
pub fn tr<'a>(l: Lang, en: &'a str, zh: &'a str) -> (r: &'a str)
    ensures
        r@ == say(l, en@, zh@),
{
    match l {
        Lang::Zh => zh,
        Lang::En => en,
    }
}

/// A Windows language identifier of Simplified Chinese: China, Singapore, or no
/// country. Those of Traditional Chinese have the same primary language.
pub open spec fn is_simplified_chinese(id: u16) -> bool {
    id == 0x0804 || id == 0x1004 || id == 0x0004
}

/// The language that goes with the language of the user interface.
pub open spec fn default_lang(ui_language: Option<u16>) -> Lang {
    if ui_language is Some && is_simplified_chinese(ui_language->0) {
        Lang::Zh
    } else {
        Lang::En
    }
}

/// A sensible default: Chinese on a Simplified-Chinese Windows, English
/// otherwise. `ui_language` is the language of its user interface.
pub fn system_default(ui_language: Option<u16>) -> (r: Lang)
    ensures
        r == (if ui_language is Some && is_simplified_chinese(ui_language->0) {
            Lang::Zh
        } else {
            Lang::En
        }),
        r == default_lang(ui_language),
{
    match ui_language {
        Some(id) => if id == 0x0804 || id == 0x1004 || id == 0x0004 {
            Lang::Zh
        } else {
            Lang::En
        },
        None => Lang::En,
    }
}

// ── laws ───────────────────────────────────────────────────────────

/// Each language shows its own form of a text, and a stored byte stands for
/// Chinese where it is one, for English wherever it is not.
pub proof fn law_each_language_has_its_form(l: Lang, en: Seq<char>, zh: Seq<char>, slot: u8)
    ensures
        say(Lang::En, en, zh) == en,
        say(Lang::Zh, en, zh) == zh,
        lang_of(slot) == Lang::Zh <==> slot == 1,
        lang_of(slot) == Lang::En <==> slot != 1,
{
}

/// The default is Chinese exactly on a Windows whose language is Chinese as it is
/// written in China, in Singapore, or in no country named.
pub proof fn law_default_is_chinese_on_chinese_windows(ui_language: Option<u16>)
    ensures
        default_lang(ui_language) == Lang::Zh <==> ui_language == Some(0x0804u16) || ui_language
            == Some(0x1004u16) || ui_language == Some(0x0004u16),
{
}

/// The identifiers of Simplified Chinese are those of the primary language
/// Chinese whose country is China, Singapore or none.
pub proof fn law_simplified_chinese_is_by_country(id: u16)
    ensures
        is_simplified_chinese(id) <==> id & 0x3ff == 4 && (id >> 10 == 0 || id >> 10 == 2 || id
            >> 10 == 4),
{
    assert((id == 0x0804 || id == 0x1004 || id == 0x0004) <==> (id & 0x3ff == 4 && (id >> 10 == 0
        || id >> 10 == 2 || id >> 10 == 4))) by (bit_vector);
}

} // verus!
