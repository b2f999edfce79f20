//! Reduction of compound script codes that stem from noise: extended Latin
//! letters, Japanese syllabaries, embedded numerals and short stray runs.

use vstd::prelude::*;
use crate::script::{
    count_matched, digits_only, matched_count, matched_digits_only, raw_tags, scanned, ScriptRange,
    ScriptTag, add_script_codes, contains_tag, scanned_chars,
};

verus! {

pub open spec fn latin_family(g: ScriptTag) -> bool {
    g == ScriptTag::Latn || g == ScriptTag::Latn2
}

pub open spec fn japanese_script(g: ScriptTag) -> bool {
    g == ScriptTag::Kana || g == ScriptTag::Hira || g == ScriptTag::Hani
}

/// A script that a name may mix with numerals written in Latin digits.
pub open spec fn digit_partner(g: ScriptTag) -> bool {
    g == ScriptTag::Cyrl || g == ScriptTag::Grek || g == ScriptTag::Arab
}

pub open spec fn has_kana(t: Seq<ScriptTag>) -> bool {
    t.contains(ScriptTag::Kana) || t.contains(ScriptTag::Hira)
}

pub open spec fn has_latin(t: Seq<ScriptTag>) -> bool {
    t.contains(ScriptTag::Latn) || t.contains(ScriptTag::Latn2)
}

pub open spec fn has_japanese(t: Seq<ScriptTag>) -> bool {
    has_kana(t) || t.contains(ScriptTag::Hani)
}

/// Two tags, base and extended Latin.
pub open spec fn extended_latin_pair(t: Seq<ScriptTag>) -> bool {
    t.len() == 2 && latin_family(t[0]) && latin_family(t[1])
}

/// Japanese writing: kana, or Han characters in a Japanese context.
pub open spec fn reads_japanese(t: Seq<ScriptTag>, japanese: bool) -> bool {
    has_kana(t) || (japanese && t.contains(ScriptTag::Hani))
}

/// Only kana and Han characters, read as Japanese.
pub open spec fn japanese_only(t: Seq<ScriptTag>, japanese: bool) -> bool {
    &&& forall|i: int| 0 <= i < t.len() ==> japanese_script(#[trigger] t[i])
    &&& reads_japanese(t, japanese)
}

/// Latin beside kana or Han characters, read as Japanese.
pub open spec fn latin_and_japanese(t: Seq<ScriptTag>, japanese: bool) -> bool {
    &&& forall|i: int| 0 <= i < t.len() ==> latin_family(#[trigger] t[i]) || japanese_script(t[i])
    &&& has_latin(t)
    &&& reads_japanese(t, japanese)
}

/// The other tag of a pair that holds base Latin.
pub open spec fn partner_of_latin(t: Seq<ScriptTag>) -> ScriptTag {
    if t[0] == ScriptTag::Latn {
        t[1]
    } else {
        t[0]
    }
}

/// Base Latin that is only numerals, beside Cyrillic, Greek or Arabic.
pub open spec fn latin_digits_pair(t: Seq<ScriptRange>, s: Seq<char>, tags: Seq<ScriptTag>) -> bool {
    &&& tags.len() == 2
    &&& tags.contains(ScriptTag::Latn)
    &&& digit_partner(partner_of_latin(tags))
    &&& matched_digits_only(t, s, ScriptTag::Latn)
}

/// Of a pair, the first tag has fewer than three characters and the second
/// more than five.
pub open spec fn minority_first(t: Seq<ScriptRange>, s: Seq<char>, tags: Seq<ScriptTag>) -> bool {
    tags.len() == 2 && matched_count(t, s, tags[0]) < 3 && matched_count(t, s, tags[1]) > 5
}

pub open spec fn minority_second(t: Seq<ScriptRange>, s: Seq<char>, tags: Seq<ScriptTag>) -> bool {
    tags.len() == 2 && matched_count(t, s, tags[1]) < 3 && matched_count(t, s, tags[0]) > 5
}

/// The script code after disambiguation of the tags `tags` found in the
/// characters `s`: the first rule whose shape fits decides, and a code that
/// no rule fits stays as it is.
pub open spec fn disambiguated(t: Seq<ScriptRange>, s: Seq<char>, tags: Seq<ScriptTag>, japanese: bool) -> Seq<
    ScriptTag,
> {
    if extended_latin_pair(tags) {
        seq![ScriptTag::Latn]
    } else if japanese_only(tags, japanese) {
        seq![ScriptTag::Jpan]
    } else if latin_and_japanese(tags, japanese) {
        seq![ScriptTag::Latn, ScriptTag::Jpan]
    } else if latin_digits_pair(t, s, tags) {
        seq![partner_of_latin(tags)]
    } else if minority_first(t, s, tags) {
        seq![tags[1]]
    } else if minority_second(t, s, tags) {
        seq![tags[0]]
    } else {
        tags
    }
}

/// The final script code of a name with value `value`.
pub open spec fn script_code_of(t: Seq<ScriptRange>, value: Seq<char>, japanese: bool) -> Seq<ScriptTag> {
    disambiguated(t, scanned(value), raw_tags(t, value), japanese)
}

fn all_japanese_scripts(t: &Vec<ScriptTag>) -> (r: bool)
    ensures
        r == forall|i: int| 0 <= i < t@.len() ==> japanese_script(#[trigger] t@[i]),
{
    let mut i: usize = 0;
    while i < t.len()
        invariant
            i <= t.len(),
            forall|k: int| 0 <= k < i ==> japanese_script(#[trigger] t@[k]),
        decreases t.len() - i,
    {
        let g = t[i];
        if !(g == ScriptTag::Kana || g == ScriptTag::Hira || g == ScriptTag::Hani) {
            return false;
        }
        i = i + 1;
    }
    true
}

fn all_latin_or_japanese(t: &Vec<ScriptTag>) -> (r: bool)
    ensures
        r == forall|i: int| 0 <= i < t@.len() ==> latin_family(#[trigger] t@[i]) || japanese_script(t@[i]),
{
    let mut i: usize = 0;
    while i < t.len()
        invariant
            i <= t.len(),
            forall|k: int| 0 <= k < i ==> latin_family(#[trigger] t@[k]) || japanese_script(t@[k]),
        decreases t.len() - i,
    {
        let g = t[i];
        if !(g == ScriptTag::Latn || g == ScriptTag::Latn2 || g == ScriptTag::Kana || g
            == ScriptTag::Hira || g == ScriptTag::Hani) {
            return false;
        }
        i = i + 1;
    }
    true
}

fn reads_japanese_exec(t: &Vec<ScriptTag>, japanese: bool) -> (r: bool)
    ensures
        r == reads_japanese(t@, japanese),
{
    contains_tag(t, ScriptTag::Kana) || contains_tag(t, ScriptTag::Hira) || (japanese
        && contains_tag(t, ScriptTag::Hani))
}

/// The Japanese rule: kana and Han characters read as Japanese become `Jpan`,
/// beside Latin `Latn, Jpan`; `None` where the rule does not apply.
pub fn clean_japanese_script_codes(tags: &Vec<ScriptTag>, japanese: bool) -> (r: Option<Vec<ScriptTag>>)
    ensures
        match r {
            Some(v) => (japanese_only(tags@, japanese) && v@ == seq![ScriptTag::Jpan]) || (!japanese_only(
                tags@,
                japanese,
            ) && latin_and_japanese(tags@, japanese) && v@ == seq![ScriptTag::Latn, ScriptTag::Jpan]),
            None => !japanese_only(tags@, japanese) && !latin_and_japanese(tags@, japanese),
        },
{
    if all_japanese_scripts(tags) && reads_japanese_exec(tags, japanese) {
        return Some(vec![ScriptTag::Jpan]);
    }
    if all_latin_or_japanese(tags) && (contains_tag(tags, ScriptTag::Latn) || contains_tag(
        tags,
        ScriptTag::Latn2,
    )) && reads_japanese_exec(tags, japanese) {
        return Some(vec![ScriptTag::Latn, ScriptTag::Jpan]);
    }
    None
}

/// The rules for pairs of scripts: Latin that is only numerals gives way to
/// Cyrillic, Greek or Arabic; a script with fewer than three characters
/// gives way to one with more than five. `None` where no rule applies.
pub fn clean_double_script_codes(table: &Vec<ScriptRange>, chars: &Vec<char>, tags: &Vec<ScriptTag>) -> (r:
    Option<Vec<ScriptTag>>)
    ensures
        match r {
            Some(v) => if latin_digits_pair(table@, chars@, tags@) {
                v@ == seq![partner_of_latin(tags@)]
            } else if minority_first(table@, chars@, tags@) {
                v@ == seq![tags@[1]]
            } else {
                minority_second(table@, chars@, tags@) && v@ == seq![tags@[0]]
            },
            None => !latin_digits_pair(table@, chars@, tags@) && !minority_first(table@, chars@, tags@)
                && !minority_second(table@, chars@, tags@),
        },
{
    if tags.len() != 2 {
        return None;
    }
    let first = tags[0];
    let second = tags[1];
    if first == ScriptTag::Latn || second == ScriptTag::Latn {
        let partner = if first == ScriptTag::Latn {
            second
        } else {
            first
        };
        if (partner == ScriptTag::Cyrl || partner == ScriptTag::Grek || partner == ScriptTag::Arab)
            && digits_only(table, chars, ScriptTag::Latn) {
            return Some(vec![partner]);
        }
    }
    let n_first = count_matched(table, chars, first);
    let n_second = count_matched(table, chars, second);
    if n_first < 3 && n_second > 5 {
        Some(vec![second])
    } else if n_second < 3 && n_first > 5 {
        Some(vec![first])
    } else {
        None
    }
}

/// Disambiguates the tags `tags` found in the characters `chars`.
pub fn disambiguate(
    table: &Vec<ScriptRange>,
    chars: &Vec<char>,
    tags: Vec<ScriptTag>,
    japanese: bool,
) -> (r: Vec<ScriptTag>)
    ensures
        r@ == disambiguated(table@, chars@, tags@, japanese),
{
    if tags.len() == 2 && (tags[0] == ScriptTag::Latn || tags[0] == ScriptTag::Latn2) && (tags[1]
        == ScriptTag::Latn || tags[1] == ScriptTag::Latn2) {
        return vec![ScriptTag::Latn];
    }
    if let Some(v) = clean_japanese_script_codes(&tags, japanese) {
        return v;
    }
    match clean_double_script_codes(table, chars, &tags) {
        Some(v) => v,
        None => tags,
    }
}

/// The final script code of `value`: its tags, disambiguated; `japanese`
/// says whether the name is read in a Japanese context.
pub fn script_code(table: &Vec<ScriptRange>, value: &str, japanese: bool) -> (r: Vec<ScriptTag>)
    ensures
        r@ == script_code_of(table@, value@, japanese),
{
    let chars = scanned_chars(value);
    let tags = add_script_codes(table, value);
    disambiguate(table, &chars, tags, japanese)
}

} // verus!
