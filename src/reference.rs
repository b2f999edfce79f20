//! The reference tables that ship with the library.

use vstd::prelude::*;
use vstd::string::*;
use crate::cascade::{override_views, OverrideEntry, OverrideView};
use crate::language::{
    country_views, substitution_views, substitutions_settled, CodePair, CountryLanguage,
    LanguageSubstitution,
};
use crate::pipeline::ReferenceData;
use crate::script::{ScriptRange, ScriptTag};

verus! {

pub open spec fn range(tag: ScriptTag, start: u32, end: u32) -> ScriptRange {
    ScriptRange { tag, start, end }
}

/// The script ranges: letters and digits of basic Latin, the extended Latin
/// letters, and the main blocks of the other scripts, sorted by start.
/// Punctuation, spaces and symbols fall in the gaps.
pub open spec fn standard_ranges() -> Seq<ScriptRange> {
    seq![
        range(ScriptTag::Latn, 0x30, 0x39),
        range(ScriptTag::Latn, 0x41, 0x5A),
        range(ScriptTag::Latn, 0x61, 0x7A),
        range(ScriptTag::Latn2, 0xC0, 0xD6),
        range(ScriptTag::Latn2, 0xD8, 0xF6),
        range(ScriptTag::Latn2, 0xF8, 0x24F),
        range(ScriptTag::Grek, 0x370, 0x3FF),
        range(ScriptTag::Cyrl, 0x400, 0x52F),
        range(ScriptTag::Armn, 0x530, 0x58F),
        range(ScriptTag::Hebr, 0x590, 0x5FF),
        range(ScriptTag::Arab, 0x600, 0x6FF),
        range(ScriptTag::Thaa, 0x780, 0x7BF),
        range(ScriptTag::Deva, 0x900, 0x97F),
        range(ScriptTag::Beng, 0x980, 0x9FF),
        range(ScriptTag::Guru, 0xA00, 0xA7F),
        range(ScriptTag::Gujr, 0xA80, 0xAFF),
        range(ScriptTag::Taml, 0xB80, 0xBFF),
        range(ScriptTag::Telu, 0xC00, 0xC7F),
        range(ScriptTag::Knda, 0xC80, 0xCFF),
        range(ScriptTag::Mlym, 0xD00, 0xD7F),
        range(ScriptTag::Sinh, 0xD80, 0xDFF),
        range(ScriptTag::Thai, 0xE00, 0xE7F),
        range(ScriptTag::Laoo, 0xE80, 0xEFF),
        range(ScriptTag::Tibt, 0xF00, 0xFFF),
        range(ScriptTag::Mymr, 0x1000, 0x109F),
        range(ScriptTag::Geor, 0x10A0, 0x10FF),
        range(ScriptTag::Hang, 0x1100, 0x11FF),
        range(ScriptTag::Ethi, 0x1200, 0x137F),
        range(ScriptTag::Khmr, 0x1780, 0x17FF),
        range(ScriptTag::Mong, 0x1800, 0x18AF),
        range(ScriptTag::Latn2, 0x1E00, 0x1EFF),
        range(ScriptTag::Grek, 0x1F00, 0x1FFF),
        range(ScriptTag::Hira, 0x3040, 0x309F),
        range(ScriptTag::Kana, 0x30A0, 0x30FA),
        range(ScriptTag::Kana, 0x30FC, 0x30FF),
        range(ScriptTag::Hani, 0x3400, 0x4DBF),
        range(ScriptTag::Hani, 0x4E00, 0x9FFF),
        range(ScriptTag::Hang, 0xAC00, 0xD7AF),
        range(ScriptTag::Hani, 0xF900, 0xFAFF),
        range(ScriptTag::Kana, 0xFF66, 0xFF9F),
    ]
}

/// The standard script ranges.
pub fn standard_script_ranges() -> (r: Vec<ScriptRange>)
    ensures
        r@ == standard_ranges(),
{
    vec![
        ScriptRange { tag: ScriptTag::Latn, start: 0x30, end: 0x39 },
        ScriptRange { tag: ScriptTag::Latn, start: 0x41, end: 0x5A },
        ScriptRange { tag: ScriptTag::Latn, start: 0x61, end: 0x7A },
        ScriptRange { tag: ScriptTag::Latn2, start: 0xC0, end: 0xD6 },
        ScriptRange { tag: ScriptTag::Latn2, start: 0xD8, end: 0xF6 },
        ScriptRange { tag: ScriptTag::Latn2, start: 0xF8, end: 0x24F },
        ScriptRange { tag: ScriptTag::Grek, start: 0x370, end: 0x3FF },
        ScriptRange { tag: ScriptTag::Cyrl, start: 0x400, end: 0x52F },
        ScriptRange { tag: ScriptTag::Armn, start: 0x530, end: 0x58F },
        ScriptRange { tag: ScriptTag::Hebr, start: 0x590, end: 0x5FF },
        ScriptRange { tag: ScriptTag::Arab, start: 0x600, end: 0x6FF },
        ScriptRange { tag: ScriptTag::Thaa, start: 0x780, end: 0x7BF },
        ScriptRange { tag: ScriptTag::Deva, start: 0x900, end: 0x97F },
        ScriptRange { tag: ScriptTag::Beng, start: 0x980, end: 0x9FF },
        ScriptRange { tag: ScriptTag::Guru, start: 0xA00, end: 0xA7F },
        ScriptRange { tag: ScriptTag::Gujr, start: 0xA80, end: 0xAFF },
        ScriptRange { tag: ScriptTag::Taml, start: 0xB80, end: 0xBFF },
        ScriptRange { tag: ScriptTag::Telu, start: 0xC00, end: 0xC7F },
        ScriptRange { tag: ScriptTag::Knda, start: 0xC80, end: 0xCFF },
        ScriptRange { tag: ScriptTag::Mlym, start: 0xD00, end: 0xD7F },
        ScriptRange { tag: ScriptTag::Sinh, start: 0xD80, end: 0xDFF },
        ScriptRange { tag: ScriptTag::Thai, start: 0xE00, end: 0xE7F },
        ScriptRange { tag: ScriptTag::Laoo, start: 0xE80, end: 0xEFF },
        ScriptRange { tag: ScriptTag::Tibt, start: 0xF00, end: 0xFFF },
        ScriptRange { tag: ScriptTag::Mymr, start: 0x1000, end: 0x109F },
        ScriptRange { tag: ScriptTag::Geor, start: 0x10A0, end: 0x10FF },
        ScriptRange { tag: ScriptTag::Hang, start: 0x1100, end: 0x11FF },
        ScriptRange { tag: ScriptTag::Ethi, start: 0x1200, end: 0x137F },
        ScriptRange { tag: ScriptTag::Khmr, start: 0x1780, end: 0x17FF },
        ScriptRange { tag: ScriptTag::Mong, start: 0x1800, end: 0x18AF },
        ScriptRange { tag: ScriptTag::Latn2, start: 0x1E00, end: 0x1EFF },
        ScriptRange { tag: ScriptTag::Grek, start: 0x1F00, end: 0x1FFF },
        ScriptRange { tag: ScriptTag::Hira, start: 0x3040, end: 0x309F },
        ScriptRange { tag: ScriptTag::Kana, start: 0x30A0, end: 0x30FA },
        ScriptRange { tag: ScriptTag::Kana, start: 0x30FC, end: 0x30FF },
        ScriptRange { tag: ScriptTag::Hani, start: 0x3400, end: 0x4DBF },
        ScriptRange { tag: ScriptTag::Hani, start: 0x4E00, end: 0x9FFF },
        ScriptRange { tag: ScriptTag::Hang, start: 0xAC00, end: 0xD7AF },
        ScriptRange { tag: ScriptTag::Hani, start: 0xF900, end: 0xFAFF },
        ScriptRange { tag: ScriptTag::Kana, start: 0xFF66, end: 0xFF9F },
    ]
}

pub open spec fn ov(organization_id: &str, value: &str, language: &str) -> OverrideView {
    OverrideView { organization_id: organization_id@, value: value@, language: language@ }
}

pub open spec fn pair(from: &str, to: &str) -> CodePair {
    CodePair { from: from@, to: to@ }
}

/// Duplicates that the general rules resolve the wrong way: each names the
/// record to remove.
pub open spec fn standard_override_list() -> Seq<OverrideView> {
    seq![
        ov("00bep5t26", "Biblioteca de Catalunya", "gl"),
        ov("00dsy9f04", "Ebsco information services", "fr"),
        ov("00wge5k78", "Universitetet i Tromsø – Noregs arktiske universitet", "nn"),
        ov("00wge5k78", "UiT Noregs arktiske universitet", "nn"),
        ov("00yrf4e35", "Osservatorio Astronomico di Torino", "de"),
        ov("00zb6nk96", "Labor Spiez", "rm"),
        ov("01767d733", "Erasmushogeschool brussel", "fr"),
        ov("01cdn3r29", "École des Beaux-Arts", "ca"),
        ov("01kwczx50", "Skadden, arps, slate, meagher & flom", "fr"),
        ov("02vc99v03", "Calbinotox", "en"),
        ov("03v8adn41", "Queens college, city university of new york", "fr"),
        ov("05c2g3729", "Ministarstvo vanjskih poslova", "hr"),
        ov("05e0vkr08", "Bibliothèque nationale de Luxembourg", "de"),
    ]
}

/// The language assumed for each listed country.
pub open spec fn standard_country_list() -> Seq<CodePair> {
    seq![
        pair("JP", "ja"),
        pair("CN", "zh"),
        pair("TW", "zh"),
        pair("KR", "ko"),
        pair("RU", "ru"),
        pair("UA", "uk"),
        pair("BY", "be"),
        pair("BG", "bg"),
        pair("RS", "sr"),
        pair("MK", "mk"),
        pair("GR", "el"),
        pair("IL", "he"),
        pair("SA", "ar"),
        pair("EG", "ar"),
        pair("IR", "fa"),
        pair("TH", "th"),
        pair("GE", "ka"),
        pair("AM", "hy"),
    ]
}

/// Serbo-Croatian, a superseded macrolanguage code, becomes Serbian.
pub open spec fn standard_substitution_list() -> Seq<CodePair> {
    seq![pair("sh", "sr")]
}

fn override_entry(organization_id: &str, value: &str, language: &str) -> (r: OverrideEntry)
    ensures
        r@ == ov(organization_id, value, language),
{
    OverrideEntry {
        organization_id: String::from_str(organization_id),
        value: String::from_str(value),
        language: String::from_str(language),
    }
}

fn country_language(country: &str, language: &str) -> (r: CountryLanguage)
    ensures
        r@ == pair(country, language),
{
    CountryLanguage { country_code: String::from_str(country), language: String::from_str(language) }
}

/// The standard list of manual overrides.
pub fn standard_overrides() -> (r: Vec<OverrideEntry>)
    ensures
        override_views(r@) == standard_override_list(),
{
    let mut r: Vec<OverrideEntry> = Vec::new();
    r.push(override_entry("00bep5t26", "Biblioteca de Catalunya", "gl"));
    r.push(override_entry("00dsy9f04", "Ebsco information services", "fr"));
    r.push(override_entry("00wge5k78", "Universitetet i Tromsø – Noregs arktiske universitet", "nn"));
    r.push(override_entry("00wge5k78", "UiT Noregs arktiske universitet", "nn"));
    r.push(override_entry("00yrf4e35", "Osservatorio Astronomico di Torino", "de"));
    r.push(override_entry("00zb6nk96", "Labor Spiez", "rm"));
    r.push(override_entry("01767d733", "Erasmushogeschool brussel", "fr"));
    r.push(override_entry("01cdn3r29", "École des Beaux-Arts", "ca"));
    r.push(override_entry("01kwczx50", "Skadden, arps, slate, meagher & flom", "fr"));
    r.push(override_entry("02vc99v03", "Calbinotox", "en"));
    r.push(override_entry("03v8adn41", "Queens college, city university of new york", "fr"));
    r.push(override_entry("05c2g3729", "Ministarstvo vanjskih poslova", "hr"));
    r.push(override_entry("05e0vkr08", "Bibliothèque nationale de Luxembourg", "de"));
    assert(override_views(r@) =~= standard_override_list());
    r
}

/// The standard country to language table.
pub fn standard_country_languages() -> (r: Vec<CountryLanguage>)
    ensures
        country_views(r@) == standard_country_list(),
{
    let mut r: Vec<CountryLanguage> = Vec::new();
    r.push(country_language("JP", "ja"));
    r.push(country_language("CN", "zh"));
    r.push(country_language("TW", "zh"));
    r.push(country_language("KR", "ko"));
    r.push(country_language("RU", "ru"));
    r.push(country_language("UA", "uk"));
    r.push(country_language("BY", "be"));
    r.push(country_language("BG", "bg"));
    r.push(country_language("RS", "sr"));
    r.push(country_language("MK", "mk"));
    r.push(country_language("GR", "el"));
    r.push(country_language("IL", "he"));
    r.push(country_language("SA", "ar"));
    r.push(country_language("EG", "ar"));
    r.push(country_language("IR", "fa"));
    r.push(country_language("TH", "th"));
    r.push(country_language("GE", "ka"));
    r.push(country_language("AM", "hy"));
    assert(country_views(r@) =~= standard_country_list());
    r
}

/// The standard table of deprecated language codes.
pub fn standard_substitutions() -> (r: Vec<LanguageSubstitution>)
    ensures
        substitution_views(r@) == standard_substitution_list(),
        substitutions_settled(substitution_views(r@)),
{
    let mut r: Vec<LanguageSubstitution> = Vec::new();
    r.push(LanguageSubstitution { deprecated: String::from_str("sh"), current: String::from_str("sr") });
    assert(substitution_views(r@) =~= standard_substitution_list());
    proof {
        reveal_strlit("sh");
        reveal_strlit("sr");
        assert("sr"@ != "sh"@) by {
            assert("sr"@[1] != "sh"@[1]);
        }
    }
    r
}

impl ReferenceData {
    /// The tables that ship with the library.
    pub fn standard() -> (r: ReferenceData)
        ensures
            r@.ranges == standard_ranges(),
            r@.countries == standard_country_list(),
            r@.substitutions == standard_substitution_list(),
            r@.overrides == standard_override_list(),
            substitutions_settled(r@.substitutions),
    {
        ReferenceData {
            script_ranges: standard_script_ranges(),
            country_languages: standard_country_languages(),
            substitutions: standard_substitutions(),
            overrides: standard_overrides(),
        }
    }
}

} // verus!
