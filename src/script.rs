//! Script codes and the classification of names by the Unicode ranges of
//! their characters.

use vstd::prelude::*;
use crate::text::{chars_of, is_digit};

verus! {

/// A writing-system code, after ISO 15924; `Latn2` marks the extended Latin
/// letters, told apart from the basic ones.
#[derive(Clone, Copy, Debug, PartialEq, Eq, Structural)]
pub enum ScriptTag {
    Latn,
    Latn2,
    Grek,
    Cyrl,
    Armn,
    Hebr,
    Arab,
    Thaa,
    Deva,
    Beng,
    Guru,
    Gujr,
    Taml,
    Telu,
    Knda,
    Mlym,
    Sinh,
    Thai,
    Laoo,
    Tibt,
    Mymr,
    Geor,
    Hang,
    Ethi,
    Khmr,
    Mong,
    Hira,
    Kana,
    Hani,
    Jpan,
}

/// The characters from `start` to `end`, both included, belong to `tag`.
#[derive(Clone, Copy, Debug, PartialEq, Eq, Structural)]
pub struct ScriptRange {
    pub tag: ScriptTag,
    pub start: u32,
    pub end: u32,
}

pub open spec fn in_range(r: ScriptRange, c: char) -> bool {
    r.start <= (c as u32) && (c as u32) <= r.end
}

/// The tag of the first range of `t` that holds `c`, if any does.
pub open spec fn tag_of(t: Seq<ScriptRange>, c: char) -> Option<ScriptTag>
    decreases t.len(),
{
    if t.len() == 0 {
        None
    } else if in_range(t[0], c) {
        Some(t[0].tag)
    } else {
        tag_of(t.drop_first(), c)
    }
}

/// The characters that decide a name's script: all of them, but for a
/// leading opening parenthesis.
pub open spec fn scanned(s: Seq<char>) -> Seq<char> {
    if s.len() > 0 && s[0] == '(' {
        s.drop_first()
    } else {
        s
    }
}

/// The distinct tags of the characters of `s`, in the order first met.
pub open spec fn tags_in(t: Seq<ScriptRange>, s: Seq<char>) -> Seq<ScriptTag>
    decreases s.len(),
{
    if s.len() == 0 {
        Seq::empty()
    } else {
        let p = tags_in(t, s.drop_last());
        match tag_of(t, s.last()) {
            Some(g) => if p.contains(g) {
                p
            } else {
                p.push(g)
            },
            None => p,
        }
    }
}

/// The script code of a name before any disambiguation.
pub open spec fn raw_tags(t: Seq<ScriptRange>, s: Seq<char>) -> Seq<ScriptTag> {
    tags_in(t, scanned(s))
}

/// How many characters of `s` belong to `g`.
pub open spec fn matched_count(t: Seq<ScriptRange>, s: Seq<char>, g: ScriptTag) -> nat
    decreases s.len(),
{
    if s.len() == 0 {
        0
    } else {
        matched_count(t, s.drop_last(), g) + if tag_of(t, s.last()) == Some(g) {
            1nat
        } else {
            0nat
        }
    }
}

/// Every character of `s` that belongs to `g` is a decimal digit.
pub open spec fn matched_digits_only(t: Seq<ScriptRange>, s: Seq<char>, g: ScriptTag) -> bool {
    forall|i: int| 0 <= i < s.len() && tag_of(t, #[trigger] s[i]) == Some(g) ==> is_digit(s[i])
}

/// The tag of `c`, by the first range of `table` that holds it.
pub fn lookup(table: &Vec<ScriptRange>, c: char) -> (r: Option<ScriptTag>)
    ensures
        r == tag_of(table@, c),
{
    let cp = c as u32;
    let mut i: usize = 0;
    assert(table@.subrange(0, table@.len() as int) =~= table@);
    while i < table.len()
        invariant
            i <= table.len(),
            cp == c as u32,
            tag_of(table@, c) == tag_of(table@.subrange(i as int, table@.len() as int), c),
        decreases table.len() - i,
    {
        let ghost rest = table@.subrange(i as int, table@.len() as int);
        assert(rest.drop_first() =~= table@.subrange(i + 1, table@.len() as int));
        if table[i].start <= cp && cp <= table[i].end {
            return Some(table[i].tag);
        }
        i = i + 1;
    }
    None
}

/// Whether `v` holds `g`.
pub fn contains_tag(v: &Vec<ScriptTag>, g: ScriptTag) -> (r: bool)
    ensures
        r == v@.contains(g),
{
    let mut i: usize = 0;
    while i < v.len()
        invariant
            i <= v.len(),
            forall|k: int| 0 <= k < i ==> v@[k] != g,
        decreases v.len() - i,
    {
        if v[i] == g {
            return true;
        }
        i = i + 1;
    }
    false
}

/// The characters of `value` that decide its script.
pub fn scanned_chars(value: &str) -> (r: Vec<char>)
    ensures
        r@ == scanned(value@),
{
    let all = chars_of(value);
    if all.len() > 0 && all[0] == '(' {
        let mut r: Vec<char> = Vec::new();
        let mut i: usize = 1;
        while i < all.len()
            invariant
                1 <= i <= all.len(),
                r@ == all@.subrange(1, i as int),
            decreases all.len() - i,
        {
            r.push(all[i]);
            i = i + 1;
            assert(r@ =~= all@.subrange(1, i as int));
        }
        assert(r@ =~= all@.drop_first());
        r
    } else {
        all
    }
}

/// The distinct tags of the characters of `chars`, in the order first met.
pub fn tags_of_chars(table: &Vec<ScriptRange>, chars: &Vec<char>) -> (r: Vec<ScriptTag>)
    ensures
        r@ == tags_in(table@, chars@),
{
    let mut r: Vec<ScriptTag> = Vec::new();
    let mut i: usize = 0;
    while i < chars.len()
        invariant
            i <= chars.len(),
            r@ == tags_in(table@, chars@.subrange(0, i as int)),
        decreases chars.len() - i,
    {
        let ghost pre = chars@.subrange(0, i as int + 1);
        assert(pre.drop_last() =~= chars@.subrange(0, i as int));
        match lookup(table, chars[i]) {
            Some(g) => {
                if !contains_tag(&r, g) {
                    r.push(g);
                }
            },
            None => {},
        }
        i = i + 1;
    }
    assert(chars@.subrange(0, chars@.len() as int) =~= chars@);
    r
}

/// The script code of `value` before any disambiguation: the distinct tags
/// of its characters in the order first met, a leading parenthesis left out.
pub fn add_script_codes(table: &Vec<ScriptRange>, value: &str) -> (r: Vec<ScriptTag>)
    ensures
        r@ == raw_tags(table@, value@),
{
    let chars = scanned_chars(value);
    tags_of_chars(table, &chars)
}

/// How many characters of `chars` belong to `g`.
pub fn count_matched(table: &Vec<ScriptRange>, chars: &Vec<char>, g: ScriptTag) -> (r: usize)
    ensures
        r == matched_count(table@, chars@, g),
{
    let mut n: usize = 0;
    let mut i: usize = 0;
    while i < chars.len()
        invariant
            i <= chars.len(),
            n == matched_count(table@, chars@.subrange(0, i as int), g),
            n <= i,
        decreases chars.len() - i,
    {
        let ghost pre = chars@.subrange(0, i as int + 1);
        assert(pre.drop_last() =~= chars@.subrange(0, i as int));
        if lookup(table, chars[i]) == Some(g) {
            n = n + 1;
        }
        i = i + 1;
    }
    assert(chars@.subrange(0, chars@.len() as int) =~= chars@);
    n
}

/// Whether every character of `chars` that belongs to `g` is a decimal digit.
pub fn digits_only(table: &Vec<ScriptRange>, chars: &Vec<char>, g: ScriptTag) -> (r: bool)
    ensures
        r == matched_digits_only(table@, chars@, g),
{
    let mut i: usize = 0;
    while i < chars.len()
        invariant
            i <= chars.len(),
            forall|k: int|
                0 <= k < i && tag_of(table@, #[trigger] chars@[k]) == Some(g) ==> is_digit(chars@[k]),
        decreases chars.len() - i,
    {
        let c = chars[i];
        if lookup(table, c) == Some(g) && !('0' <= c && c <= '9') {
            return false;
        }
        i = i + 1;
    }
    true
}

/// The four-letter code of a tag.
pub open spec fn code_text(g: ScriptTag) -> Seq<char> {
    match g {
        ScriptTag::Latn => "Latn"@,
        ScriptTag::Latn2 => "Latn2"@,
        ScriptTag::Grek => "Grek"@,
        ScriptTag::Cyrl => "Cyrl"@,
        ScriptTag::Armn => "Armn"@,
        ScriptTag::Hebr => "Hebr"@,
        ScriptTag::Arab => "Arab"@,
        ScriptTag::Thaa => "Thaa"@,
        ScriptTag::Deva => "Deva"@,
        ScriptTag::Beng => "Beng"@,
        ScriptTag::Guru => "Guru"@,
        ScriptTag::Gujr => "Gujr"@,
        ScriptTag::Taml => "Taml"@,
        ScriptTag::Telu => "Telu"@,
        ScriptTag::Knda => "Knda"@,
        ScriptTag::Mlym => "Mlym"@,
        ScriptTag::Sinh => "Sinh"@,
        ScriptTag::Thai => "Thai"@,
        ScriptTag::Laoo => "Laoo"@,
        ScriptTag::Tibt => "Tibt"@,
        ScriptTag::Mymr => "Mymr"@,
        ScriptTag::Geor => "Geor"@,
        ScriptTag::Hang => "Hang"@,
        ScriptTag::Ethi => "Ethi"@,
        ScriptTag::Khmr => "Khmr"@,
        ScriptTag::Mong => "Mong"@,
        ScriptTag::Hira => "Hira"@,
        ScriptTag::Kana => "Kana"@,
        ScriptTag::Hani => "Hani"@,
        ScriptTag::Jpan => "Jpan"@,
    }
}

/// A script code as text: the codes of its tags joined by a comma and a
/// space, as in `Latn, Cyrl`.
pub open spec fn joined_codes(tags: Seq<ScriptTag>) -> Seq<char>
    decreases tags.len(),
{
    if tags.len() == 0 {
        Seq::empty()
    } else if tags.len() == 1 {
        code_text(tags[0])
    } else {
        joined_codes(tags.drop_last()) + ", "@ + code_text(tags.last())
    }
}

impl ScriptTag {
    /// The four-letter code of this tag.
    pub fn code(&self) -> (r: &'static str)
        ensures
            r@ == code_text(*self),
    {
        match self {
            ScriptTag::Latn => "Latn",
            ScriptTag::Latn2 => "Latn2",
            ScriptTag::Grek => "Grek",
            ScriptTag::Cyrl => "Cyrl",
            ScriptTag::Armn => "Armn",
            ScriptTag::Hebr => "Hebr",
            ScriptTag::Arab => "Arab",
            ScriptTag::Thaa => "Thaa",
            ScriptTag::Deva => "Deva",
            ScriptTag::Beng => "Beng",
            ScriptTag::Guru => "Guru",
            ScriptTag::Gujr => "Gujr",
            ScriptTag::Taml => "Taml",
            ScriptTag::Telu => "Telu",
            ScriptTag::Knda => "Knda",
            ScriptTag::Mlym => "Mlym",
            ScriptTag::Sinh => "Sinh",
            ScriptTag::Thai => "Thai",
            ScriptTag::Laoo => "Laoo",
            ScriptTag::Tibt => "Tibt",
            ScriptTag::Mymr => "Mymr",
            ScriptTag::Geor => "Geor",
            ScriptTag::Hang => "Hang",
            ScriptTag::Ethi => "Ethi",
            ScriptTag::Khmr => "Khmr",
            ScriptTag::Mong => "Mong",
            ScriptTag::Hira => "Hira",
            ScriptTag::Kana => "Kana",
            ScriptTag::Hani => "Hani",
            ScriptTag::Jpan => "Jpan",
        }
    }
}

/// The text of a script code.
pub fn script_code_text(tags: &Vec<ScriptTag>) -> (r: String)
    ensures
        r@ == joined_codes(tags@),
{
    let mut r = String::new();
    let mut i: usize = 0;
    while i < tags.len()
        invariant
            i <= tags.len(),
            r@ == joined_codes(tags@.subrange(0, i as int)),
        decreases tags.len() - i,
    {
        let ghost pre = tags@.subrange(0, i as int + 1);
        assert(pre.drop_last() =~= tags@.subrange(0, i as int));
        if i > 0 {
            r.append(", ");
        } else {
            assert(r@ =~= Seq::<char>::empty());
        }
        r.append(tags[i].code());
        i = i + 1;
    }
    assert(tags@.subrange(0, tags@.len() as int) =~= tags@);
    r
}

} // verus!
