//! Language codes: the substitution of deprecated codes and the fallback from
//! an organisation's country.

use vstd::prelude::*;
use vstd::string::*;

verus! {

/// The language assumed for names of organisations in a country.
#[derive(Debug)]
pub struct CountryLanguage {
    pub country_code: String,
    pub language: String,
}

/// A deprecated language code and the code that replaces it.
#[derive(Debug)]
pub struct LanguageSubstitution {
    pub deprecated: String,
    pub current: String,
}

pub struct CodePair {
    pub from: Seq<char>,
    pub to: Seq<char>,
}

impl View for CountryLanguage {
    type V = CodePair;

    open spec fn view(&self) -> CodePair {
        CodePair { from: self.country_code@, to: self.language@ }
    }
}

impl View for LanguageSubstitution {
    type V = CodePair;

    open spec fn view(&self) -> CodePair {
        CodePair { from: self.deprecated@, to: self.current@ }
    }
}

pub open spec fn country_views(s: Seq<CountryLanguage>) -> Seq<CodePair> {
    s.map_values(|e: CountryLanguage| e@)
}

pub open spec fn substitution_views(s: Seq<LanguageSubstitution>) -> Seq<CodePair> {
    s.map_values(|e: LanguageSubstitution| e@)
}

/// The target of the first pair of `t` whose source is `key`, if any.
pub open spec fn look_up(t: Seq<CodePair>, key: Seq<char>) -> Option<Seq<char>>
    decreases t.len(),
{
    if t.len() == 0 {
        None
    } else if t[0].from == key {
        Some(t[0].to)
    } else {
        look_up(t.drop_first(), key)
    }
}

/// `code`, or its replacement where it is deprecated.
pub open spec fn normalized(subs: Seq<CodePair>, code: Seq<char>) -> Seq<char> {
    match look_up(subs, code) {
        Some(c) => c,
        None => code,
    }
}

pub open spec fn normalized_opt(subs: Seq<CodePair>, code: Option<Seq<char>>) -> Option<Seq<char>> {
    match code {
        Some(c) => Some(normalized(subs, c)),
        None => None,
    }
}

/// No replacement is itself deprecated.
pub open spec fn substitutions_settled(subs: Seq<CodePair>) -> bool {
    forall|i: int, j: int| 0 <= i < subs.len() && 0 <= j < subs.len() ==> #[trigger] subs[i].to != #[trigger] subs[j].from
}

proof fn lemma_look_up_some(t: Seq<CodePair>, key: Seq<char>)
    ensures
        look_up(t, key) matches Some(v) ==> exists|i: int| 0 <= i < t.len() && #[trigger] t[i].to == v,
        look_up(t, key) is None ==> forall|i: int| 0 <= i < t.len() ==> #[trigger] t[i].from != key,
    decreases t.len(),
{
    if t.len() > 0 {
        lemma_look_up_some(t.drop_first(), key);
        if t[0].from != key {
            if let Some(v) = look_up(t, key) {
                let i = choose|i: int| 0 <= i < t.drop_first().len() && #[trigger] t.drop_first()[i].to == v;
                assert(t[i + 1].to == v);
            } else {
                assert forall|i: int| 0 <= i < t.len() implies #[trigger] t[i].from != key by {
                    if i > 0 {
                        assert(t[i] == t.drop_first()[i - 1]);
                    }
                }
            }
        }
    }
}

proof fn lemma_look_up_none(t: Seq<CodePair>, key: Seq<char>)
    requires
        forall|i: int| 0 <= i < t.len() ==> #[trigger] t[i].from != key,
    ensures
        look_up(t, key) is None,
    decreases t.len(),
{
    if t.len() > 0 {
        assert forall|i: int| 0 <= i < t.drop_first().len() implies #[trigger] t.drop_first()[i].from != key by {
            assert(t.drop_first()[i] == t[i + 1]);
        }
        lemma_look_up_none(t.drop_first(), key);
    }
}

/// With settled substitutions, a normalised code is left as it is.
pub proof fn lemma_normalized_idempotent(subs: Seq<CodePair>, code: Seq<char>)
    requires
        substitutions_settled(subs),
    ensures
        normalized(subs, normalized(subs, code)) == normalized(subs, code),
{
    lemma_look_up_some(subs, code);
    let n = normalized(subs, code);
    if let Some(v) = look_up(subs, code) {
        let i = choose|i: int| 0 <= i < subs.len() && #[trigger] subs[i].to == v;
        assert forall|j: int| 0 <= j < subs.len() implies #[trigger] subs[j].from != n by {
            assert(subs[i].to != subs[j].from);
        }
        lemma_look_up_none(subs, n);
    }
}

/// The target of the first pair of `t` whose source is `key`, if any.
fn look_up_pair(t: &Vec<CountryLanguage>, key: &str) -> (r: Option<String>)
    ensures
        match r {
            Some(v) => look_up(country_views(t@), key@) == Some(v@),
            None => look_up(country_views(t@), key@) is None,
        },
{
    let ghost v = country_views(t@);
    let k = String::from_str(key);
    let mut i: usize = 0;
    assert(v.subrange(0, v.len() as int) =~= v);
    while i < t.len()
        invariant
            i <= t.len(),
            v == country_views(t@),
            k@ == key@,
            look_up(v, key@) == look_up(v.subrange(i as int, v.len() as int), key@),
        decreases t.len() - i,
    {
        assert(v.subrange(i as int, v.len() as int).drop_first() =~= v.subrange(i + 1, v.len() as int));
        if t[i].country_code == k {
            return Some(t[i].language.clone());
        }
        i = i + 1;
    }
    None
}

/// The language listed for `country`, if the table lists one.
pub fn fallback_language(table: &Vec<CountryLanguage>, country: &str) -> (r: Option<String>)
    ensures
        match r {
            Some(v) => look_up(country_views(table@), country@) == Some(v@),
            None => look_up(country_views(table@), country@) is None,
        },
{
    look_up_pair(table, country)
}

/// `code`, or its replacement where the table marks it deprecated.
pub fn normalize_language(subs: &Vec<LanguageSubstitution>, code: &String) -> (r: String)
    ensures
        r@ == normalized(substitution_views(subs@), code@),
{
    let ghost v = substitution_views(subs@);
    let mut i: usize = 0;
    assert(v.subrange(0, v.len() as int) =~= v);
    while i < subs.len()
        invariant
            i <= subs.len(),
            v == substitution_views(subs@),
            look_up(v, code@) == look_up(v.subrange(i as int, v.len() as int), code@),
        decreases subs.len() - i,
    {
        assert(v.subrange(i as int, v.len() as int).drop_first() =~= v.subrange(i + 1, v.len() as int));
        if subs[i].deprecated == *code {
            return subs[i].current.clone();
        }
        i = i + 1;
    }
    code.clone()
}

/// Whether no replacement in `subs` is itself deprecated.
pub fn substitutions_are_settled(subs: &Vec<LanguageSubstitution>) -> (r: bool)
    ensures
        r == substitutions_settled(substitution_views(subs@)),
{
    let ghost v = substitution_views(subs@);
    let mut i: usize = 0;
    while i < subs.len()
        invariant
            i <= subs.len(),
            v == substitution_views(subs@),
            forall|a: int, b: int| 0 <= a < i && 0 <= b < v.len() ==> #[trigger] v[a].to != #[trigger] v[b].from,
        decreases subs.len() - i,
    {
        let mut j: usize = 0;
        while j < subs.len()
            invariant
                i < subs.len(),
                j <= subs.len(),
                v == substitution_views(subs@),
                forall|a: int, b: int| 0 <= a < i && 0 <= b < v.len() ==> #[trigger] v[a].to != #[trigger] v[b].from,
                forall|b: int| 0 <= b < j ==> v[i as int].to != #[trigger] v[b].from,
            decreases subs.len() - j,
        {
            if subs[i].current == subs[j].deprecated {
                assert(v[i as int].to == v[j as int].from);
                return false;
            }
            j = j + 1;
        }
        i = i + 1;
    }
    true
}

} // verus!
