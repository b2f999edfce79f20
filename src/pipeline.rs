//! The canonicalisation of one organisation's names: malformed records set
//! aside, duplicates resolved, then each name given its script code and,
//! where it lacks one, a language.

use vstd::prelude::*;
use vstd::string::*;
use crate::cascade::{
    audit_views, cascade, keyed_by_lowercase, lemma_cascade_fixed, lemma_cascade_preferred,
    lemma_cascade_unique, lemma_cascade_within, no_duplicates, override_views, preferred_count,
    records_of, remove_dups, same_key, AuditEntry, AuditView, OverrideEntry, OverrideView,
};
use crate::disambiguate::{script_code, script_code_of};
use crate::language::{
    country_views, fallback_language, lemma_normalized_idempotent, look_up, normalize_language,
    normalized_opt, substitution_views, substitutions_settled, CodePair, CountryLanguage,
    LanguageSubstitution,
};
use crate::names::{opt_view, views, NameRecord, NameRecordView};
use crate::script::{ScriptRange, ScriptTag};
use crate::text::lower_of;

verus! {

/// The tables that steer the canonicalisation.
#[derive(Debug)]
pub struct ReferenceData {
    pub script_ranges: Vec<ScriptRange>,
    pub country_languages: Vec<CountryLanguage>,
    pub substitutions: Vec<LanguageSubstitution>,
    pub overrides: Vec<OverrideEntry>,
}

pub struct ReferenceView {
    pub ranges: Seq<ScriptRange>,
    pub countries: Seq<CodePair>,
    pub substitutions: Seq<CodePair>,
    pub overrides: Seq<OverrideView>,
}

impl View for ReferenceData {
    type V = ReferenceView;

    open spec fn view(&self) -> ReferenceView {
        ReferenceView {
            ranges: self.script_ranges@,
            countries: country_views(self.country_languages@),
            substitutions: substitution_views(self.substitutions@),
            overrides: override_views(self.overrides@),
        }
    }
}

/// Why an organisation's names could not be made canonical.
#[derive(Clone, Copy, Debug, PartialEq, Eq, Structural)]
pub enum PipelineError {
    /// More than one of the organisation's names is marked for display.
    SeveralPreferred,
}

/// The canonical names of an organisation and what became of the others.
#[derive(Debug)]
pub struct Canonical {
    /// The names kept, in input order, with script and language.
    pub names: Vec<NameRecord>,
    /// The names removed as duplicates, each with its reason.
    pub audit: Vec<AuditEntry>,
    /// The records set aside as malformed.
    pub rejected: Vec<NameRecord>,
    /// How many kept names still carry a code of several scripts.
    pub multi_script: usize,
}

/// A record with a value and an organisation.
pub open spec fn well_formed(r: NameRecordView) -> bool {
    r.value.len() > 0 && r.organization_id.len() > 0
}

/// The well-formed records of `s`, in order.
pub open spec fn accepted(s: Seq<NameRecordView>) -> Seq<NameRecordView>
    decreases s.len(),
{
    if s.len() == 0 {
        Seq::empty()
    } else if well_formed(s.last()) {
        accepted(s.drop_last()).push(s.last())
    } else {
        accepted(s.drop_last())
    }
}

/// The malformed records of `s`, in order.
pub open spec fn rejected(s: Seq<NameRecordView>) -> Seq<NameRecordView>
    decreases s.len(),
{
    if s.len() == 0 {
        Seq::empty()
    } else if well_formed(s.last()) {
        rejected(s.drop_last())
    } else {
        rejected(s.drop_last()).push(s.last())
    }
}

/// The code of the Japanese language.
pub open spec fn japanese_code() -> Seq<char> {
    seq!['j', 'a']
}

/// The language that the country table gives, normalised.
pub open spec fn fallback_for(refs: ReferenceView, country: Option<Seq<char>>) -> Option<Seq<char>> {
    match country {
        Some(c) => normalized_opt(refs.substitutions, look_up(refs.countries, c)),
        None => None,
    }
}

/// A known script code other than plain Latin.
pub open spec fn non_latin(tags: Seq<ScriptTag>) -> bool {
    tags.len() > 0 && tags != seq![ScriptTag::Latn]
}

/// A kept record after script coding and language inference. Its language is
/// normalised; a record without one takes the country's language when its
/// script is known and not plain Latin. Han characters read as Japanese when
/// that language, given or inferred, is Japanese.
pub open spec fn processed(refs: ReferenceView, r: NameRecordView, country: Option<Seq<char>>) -> NameRecordView {
    let lang0 = normalized_opt(refs.substitutions, r.language);
    let fallback = fallback_for(refs, country);
    let effective = if lang0 is Some {
        lang0
    } else {
        fallback
    };
    let tags = script_code_of(refs.ranges, r.value, effective == Some(japanese_code()));
    let lang = if lang0 is None && non_latin(tags) {
        fallback
    } else {
        lang0
    };
    NameRecordView { language: lang, script: tags, ..r }
}

pub open spec fn processed_all(refs: ReferenceView, s: Seq<NameRecordView>, country: Option<Seq<char>>) -> Seq<
    NameRecordView,
> {
    s.map_values(|r: NameRecordView| processed(refs, r, country))
}

/// The number of records of `s` whose code names several scripts.
pub open spec fn multi_script_count(s: Seq<NameRecordView>) -> nat
    decreases s.len(),
{
    if s.len() == 0 {
        0
    } else {
        multi_script_count(s.drop_last()) + if s.last().script.len() > 1 {
            1nat
        } else {
            0nat
        }
    }
}

/// The whole pipeline for the names of one organisation in `country`: the
/// kept names, the audit log and the rejected records, or the error.
pub open spec fn pipeline(refs: ReferenceView, country: Option<Seq<char>>, names: Seq<NameRecordView>) -> Result<
    (Seq<NameRecordView>, Seq<AuditView>, Seq<NameRecordView>),
    PipelineError,
> {
    let good = accepted(names);
    if preferred_count(good) > 1 {
        Err(PipelineError::SeveralPreferred)
    } else {
        let (kept, log) = cascade(keyed_by_lowercase(good), refs.overrides);
        Ok((processed_all(refs, records_of(kept), country), log, rejected(names)))
    }
}

/// The country's language, normalised.
fn fallback_of_country(refs: &ReferenceData, country: &Option<String>) -> (r: Option<String>)
    ensures
        opt_view(r) == fallback_for(refs@, opt_view(*country)),
{
    match country {
        Some(c) => match fallback_language(&refs.country_languages, c.as_str()) {
            Some(l) => Some(normalize_language(&refs.substitutions, &l)),
            None => None,
        },
        None => None,
    }
}

fn is_japanese(lang: &Option<String>) -> (r: bool)
    ensures
        r == (opt_view(*lang) == Some(japanese_code())),
{
    match lang {
        Some(l) => {
            let ja = String::from_str("ja");
            proof {
                reveal_strlit("ja");
            }
            assert(ja@ =~= japanese_code());
            *l == ja
        },
        None => false,
    }
}

/// Gives `r` its script code and, where it has none, a language.
pub fn process_name(refs: &ReferenceData, r: &NameRecord, country: &Option<String>) -> (out: NameRecord)
    ensures
        out@ == processed(refs@, r@, opt_view(*country)),
{
    let lang0 = match &r.language {
        Some(l) => Some(normalize_language(&refs.substitutions, l)),
        None => None,
    };
    let fallback = fallback_of_country(refs, country);
    let japanese = match &lang0 {
        Some(_) => is_japanese(&lang0),
        None => is_japanese(&fallback),
    };
    let tags = script_code(&refs.script_ranges, r.value.as_str(), japanese);
    let non_latin = tags.len() > 0 && !(tags.len() == 1 && tags[0] == ScriptTag::Latn);
    proof {
        if tags@.len() == 1 && tags@[0] == ScriptTag::Latn {
            assert(tags@ =~= seq![ScriptTag::Latn]);
        }
    }
    let language = match lang0 {
        Some(l) => Some(l),
        None => if non_latin {
            fallback
        } else {
            None
        },
    };
    NameRecord {
        organization_id: r.organization_id.clone(),
        value: r.value.clone(),
        name_type: r.name_type,
        is_preferred_display: r.is_preferred_display,
        language,
        script: tags,
    }
}

fn well_formed_record(r: &NameRecord) -> (b: bool)
    ensures
        b == well_formed(r@),
{
    r.value.as_str().unicode_len() > 0 && r.organization_id.as_str().unicode_len() > 0
}

/// The well-formed records of `names` and the malformed ones.
fn split_well_formed(names: &Vec<NameRecord>) -> (r: (Vec<NameRecord>, Vec<NameRecord>))
    ensures
        views(r.0@) == accepted(views(names@)),
        views(r.1@) == rejected(views(names@)),
{
    let ghost v = views(names@);
    let mut good: Vec<NameRecord> = Vec::new();
    let mut bad: Vec<NameRecord> = Vec::new();
    let mut i: usize = 0;
    while i < names.len()
        invariant
            i <= names.len(),
            v == views(names@),
            views(good@) == accepted(v.subrange(0, i as int)),
            views(bad@) == rejected(v.subrange(0, i as int)),
        decreases names.len() - i,
    {
        let ghost pre = v.subrange(0, i as int + 1);
        assert(pre.drop_last() =~= v.subrange(0, i as int));
        let ghost g0 = good@;
        let ghost b0 = bad@;
        if well_formed_record(&names[i]) {
            good.push(names[i].duplicate());
            assert(views(good@) =~= views(g0).push(v[i as int]));
        } else {
            bad.push(names[i].duplicate());
            assert(views(bad@) =~= views(b0).push(v[i as int]));
        }
        i = i + 1;
    }
    assert(v.subrange(0, v.len() as int) =~= v);
    (good, bad)
}

/// How many records of `l` are marked for display.
fn count_preferred(l: &Vec<NameRecord>) -> (n: usize)
    ensures
        n == preferred_count(views(l@)),
{
    let ghost v = views(l@);
    let mut n: usize = 0;
    let mut i: usize = 0;
    while i < l.len()
        invariant
            i <= l.len(),
            v == views(l@),
            n == preferred_count(v.subrange(0, i as int)),
            n <= i,
        decreases l.len() - i,
    {
        let ghost pre = v.subrange(0, i as int + 1);
        assert(pre.drop_last() =~= v.subrange(0, i as int));
        let p = match l[i].is_preferred_display {
            Some(b) => b,
            None => false,
        };
        if p {
            n = n + 1;
        }
        i = i + 1;
    }
    assert(v.subrange(0, v.len() as int) =~= v);
    n
}

/// Gives each kept name its script code and language; counts the names left
/// with several scripts.
pub fn apply_script_codes_to_names(refs: &ReferenceData, kept: &Vec<NameRecord>, country: &Option<String>) -> (r: (
    Vec<NameRecord>,
    usize,
))
    ensures
        views(r.0@) == processed_all(refs@, views(kept@), opt_view(*country)),
        r.1 == multi_script_count(views(r.0@)),
{
    let ghost v = views(kept@);
    let ghost c = opt_view(*country);
    let mut out: Vec<NameRecord> = Vec::new();
    let mut multi: usize = 0;
    let mut i: usize = 0;
    while i < kept.len()
        invariant
            i <= kept.len(),
            v == views(kept@),
            c == opt_view(*country),
            views(out@) == processed_all(refs@, v.subrange(0, i as int), c),
            multi == multi_script_count(views(out@)),
            multi <= i,
        decreases kept.len() - i,
    {
        let ghost o0 = views(out@);
        let p = process_name(refs, &kept[i], country);
        let several = p.script.len() > 1;
        out.push(p);
        assert(views(out@) =~= o0.push(processed(refs@, v[i as int], c)));
        assert(processed_all(refs@, v.subrange(0, i as int + 1), c) =~= o0.push(
            processed(refs@, v[i as int], c),
        ));
        assert(views(out@).drop_last() =~= o0);
        if several {
            multi = multi + 1;
        }
        i = i + 1;
    }
    assert(v.subrange(0, v.len() as int) =~= v);
    (out, multi)
}

/// Makes the names of one organisation canonical. Malformed records (no
/// value or no organisation) are set aside; if more than one of the others
/// is marked for display the organisation fails; otherwise duplicates are
/// resolved and each kept name is coded. `country_code` is the
/// organisation's country, if known.
pub fn process_organization(refs: &ReferenceData, country_code: &Option<String>, names: Vec<NameRecord>) -> (r:
    Result<Canonical, PipelineError>)
    ensures
        r is Ok <==> pipeline(refs@, opt_view(*country_code), views(names@)) is Ok,
        r matches Ok(c) ==> pipeline(refs@, opt_view(*country_code), views(names@)) == Ok::<
            (Seq<NameRecordView>, Seq<AuditView>, Seq<NameRecordView>),
            PipelineError,
        >((views(c.names@), audit_views(c.audit@), views(c.rejected@))) && c.multi_script
            == multi_script_count(views(c.names@)),
        r matches Err(e) ==> pipeline(refs@, opt_view(*country_code), views(names@)) == Err::<
            (Seq<NameRecordView>, Seq<AuditView>, Seq<NameRecordView>),
            PipelineError,
        >(e),
{
    let (good, bad) = split_well_formed(&names);
    if count_preferred(&good) > 1 {
        return Err(PipelineError::SeveralPreferred);
    }
    let (kept, audit) = remove_dups(good, &refs.overrides);
    let (processed_names, multi) = apply_script_codes_to_names(refs, &kept, country_code);
    Ok(Canonical { names: processed_names, audit, rejected: bad, multi_script: multi })
}

proof fn lemma_accepted_well_formed(s: Seq<NameRecordView>)
    ensures
        forall|k: int| 0 <= k < accepted(s).len() ==> well_formed(#[trigger] accepted(s)[k]),
    decreases s.len(),
{
    if s.len() > 0 {
        lemma_accepted_well_formed(s.drop_last());
        let p = accepted(s.drop_last());
        assert forall|k: int| 0 <= k < accepted(s).len() implies well_formed(#[trigger] accepted(s)[k]) by {
            if k < p.len() {
                assert(accepted(s)[k] == p[k]);
            }
        }
    }
}

proof fn lemma_all_accepted(s: Seq<NameRecordView>)
    requires
        forall|k: int| 0 <= k < s.len() ==> well_formed(#[trigger] s[k]),
    ensures
        accepted(s) == s,
        rejected(s) == Seq::<NameRecordView>::empty(),
    decreases s.len(),
{
    if s.len() > 0 {
        lemma_all_accepted(s.drop_last());
        assert(s.drop_last().push(s.last()) =~= s);
    }
}

proof fn lemma_processed_preferred(refs: ReferenceView, s: Seq<NameRecordView>, country: Option<Seq<char>>)
    ensures
        preferred_count(processed_all(refs, s, country)) == preferred_count(s),
    decreases s.len(),
{
    if s.len() > 0 {
        lemma_processed_preferred(refs, s.drop_last(), country);
        assert(processed_all(refs, s, country).drop_last() =~= processed_all(refs, s.drop_last(), country));
    }
}

/// Two records of one organisation whose values agree once lower-cased.
pub open spec fn same_name(a: NameRecordView, b: NameRecordView) -> bool {
    a.organization_id == b.organization_id && lower_of(a.value) == lower_of(b.value)
}

/// No two records of `s` share an organisation and a lower-cased value.
pub open spec fn distinct_names(s: Seq<NameRecordView>) -> bool {
    forall|i: int, j: int|
        0 <= i < s.len() && 0 <= j < s.len() && i != j ==> !#[trigger] same_name(s[i], s[j])
}

/// Every record that the cascade keeps from `good` is one of `good`, keyed
/// by its lower-cased value.
proof fn lemma_kept_from(good: Seq<NameRecordView>, ov: Seq<OverrideView>, k: int)
    requires
        0 <= k < cascade(keyed_by_lowercase(good), ov).0.len(),
    ensures
        ({
            let x = cascade(keyed_by_lowercase(good), ov).0[k];
            x.key == lower_of(x.record.value) && good.contains(x.record)
        }),
{
    let kb = keyed_by_lowercase(good);
    let x = cascade(kb, ov).0[k];
    assert(cascade(kb, ov).0.contains(x));
    lemma_cascade_within(kb, ov, x);
    let i = choose|i: int| 0 <= i < kb.len() && kb[i] == x;
    assert(good[i] == x.record);
}

proof fn lemma_kept_distinct(good: Seq<NameRecordView>, ov: Seq<OverrideView>)
    ensures
        distinct_names(records_of(cascade(keyed_by_lowercase(good), ov).0)),
{
    let kb = keyed_by_lowercase(good);
    let kept = cascade(kb, ov).0;
    lemma_cascade_unique(kb, ov);
    let r = records_of(kept);
    assert forall|i: int, j: int| 0 <= i < r.len() && 0 <= j < r.len() && i != j implies !#[trigger] same_name(r[i], r[j]) by {
        lemma_kept_from(good, ov, i);
        lemma_kept_from(good, ov, j);
        assert(!same_key(kept[i], kept[j]));
    }
}

proof fn lemma_processed_distinct(refs: ReferenceView, s: Seq<NameRecordView>, country: Option<Seq<char>>)
    requires
        distinct_names(s),
    ensures
        distinct_names(processed_all(refs, s, country)),
{
    let p = processed_all(refs, s, country);
    assert forall|i: int, j: int| 0 <= i < p.len() && 0 <= j < p.len() && i != j implies !#[trigger] same_name(p[i], p[j]) by {
        assert(!same_name(s[i], s[j]));
    }
}

proof fn lemma_distinct_keyed(s: Seq<NameRecordView>)
    requires
        distinct_names(s),
    ensures
        no_duplicates(keyed_by_lowercase(s)),
{
    let kb = keyed_by_lowercase(s);
    assert forall|i: int, j: int| 0 <= i < kb.len() && 0 <= j < kb.len() && i != j implies !#[trigger] same_key(kb[i], kb[j]) by {
        assert(!same_name(s[i], s[j]));
    }
}

/// Processing a record twice gives what processing it once gave.
proof fn lemma_processed_idempotent(refs: ReferenceView, r: NameRecordView, country: Option<Seq<char>>)
    requires
        substitutions_settled(refs.substitutions),
    ensures
        processed(refs, processed(refs, r, country), country) == processed(refs, r, country),
{
    if let Some(l) = r.language {
        lemma_normalized_idempotent(refs.substitutions, l);
    }
    if let Some(c) = country {
        if let Some(l) = look_up(refs.countries, c) {
            lemma_normalized_idempotent(refs.substitutions, l);
        }
    }
}

/// The pipeline's outcome for an organisation, when it succeeds.
pub open spec fn canonical_names(refs: ReferenceView, country: Option<Seq<char>>, names: Seq<NameRecordView>) -> Seq<
    NameRecordView,
> {
    pipeline(refs, country, names)->Ok_0.0
}

/// Uniqueness: no two names that the pipeline keeps share an organisation and
/// a lower-cased value.
pub proof fn lemma_pipeline_unique(refs: ReferenceView, country: Option<Seq<char>>, names: Seq<NameRecordView>)
    requires
        pipeline(refs, country, names) is Ok,
    ensures
        distinct_names(canonical_names(refs, country, names)),
{
    let good = accepted(names);
    lemma_kept_distinct(good, refs.overrides);
    lemma_processed_distinct(refs, records_of(cascade(keyed_by_lowercase(good), refs.overrides).0), country);
}

/// At most one of the names that the pipeline keeps is marked for display.
pub proof fn lemma_pipeline_one_preferred(refs: ReferenceView, country: Option<Seq<char>>, names: Seq<NameRecordView>)
    requires
        pipeline(refs, country, names) is Ok,
    ensures
        preferred_count(canonical_names(refs, country, names)) <= 1,
{
    let good = accepted(names);
    let kb = keyed_by_lowercase(good);
    lemma_cascade_preferred(kb, refs.overrides);
    assert(records_of(kb) =~= good);
    lemma_processed_preferred(refs, records_of(cascade(kb, refs.overrides).0), country);
}

/// Idempotence: the pipeline run on its own output succeeds, keeps every
/// name as it is, removes nothing and rejects nothing.
pub proof fn lemma_pipeline_idempotent(refs: ReferenceView, country: Option<Seq<char>>, names: Seq<NameRecordView>)
    requires
        substitutions_settled(refs.substitutions),
        pipeline(refs, country, names) is Ok,
    ensures
        pipeline(refs, country, canonical_names(refs, country, names)) == Ok::<
            (Seq<NameRecordView>, Seq<AuditView>, Seq<NameRecordView>),
            PipelineError,
        >((canonical_names(refs, country, names), Seq::empty(), Seq::empty())),
{
    let good = accepted(names);
    let kb = keyed_by_lowercase(good);
    let kept = records_of(cascade(kb, refs.overrides).0);
    let out = canonical_names(refs, country, names);
    assert(out == processed_all(refs, kept, country));
    lemma_accepted_well_formed(names);
    assert forall|k: int| 0 <= k < out.len() implies well_formed(#[trigger] out[k]) by {
        lemma_kept_from(good, refs.overrides, k);
        let i = choose|i: int| 0 <= i < good.len() && good[i] == kept[k];
        assert(well_formed(good[i]));
    }
    lemma_all_accepted(out);
    lemma_pipeline_one_preferred(refs, country, names);
    lemma_pipeline_unique(refs, country, names);
    lemma_distinct_keyed(out);
    lemma_cascade_fixed(keyed_by_lowercase(out), refs.overrides);
    assert(records_of(keyed_by_lowercase(out)) =~= out);
    assert forall|k: int| 0 <= k < out.len() implies #[trigger] processed(refs, out[k], country) == out[k] by {
        lemma_processed_idempotent(refs, kept[k], country);
    }
    assert(processed_all(refs, out, country) =~= out);
}

} // verus!
