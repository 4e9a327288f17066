//! Situational modules: a user describes a situation in free text and the
//! model turns it into a `Module` of practice `ModuleUnit`s. Units live in
//! their own id namespace (`unit_<uuid>`) so they never collide with
//! grammar topic slugs.
use vstd::prelude::*;

use crate::session::models::opt_seq;
use crate::learning_items::{double_greater, score_greater};
use crate::text::{copy_str, has_prefix, push_str, starts_with, str_eq};
use crate::vocabulary::{at_least, double_at_least, COMPLETED_THRESHOLD_BITS, MASTERY_THRESHOLD_BITS};
use crate::vocabulary::copy_opt;

verus! {

/// Id prefix of situational modules.
pub const MODULE_ID_PREFIX: &'static str = "mod_";

/// Id prefix of module units. Any id with this prefix names a unit, never
/// a curriculum topic.
pub const UNIT_ID_PREFIX: &'static str = "unit_";

/// Whether `s` is laid out like a hyphenated UUID: 36 characters with `-`
/// at positions 8, 13, 18 and 23.
pub open spec fn uuid_shaped(s: Seq<char>) -> bool {
    s.len() == 36 && s[8] == '-' && s[13] == '-' && s[18] == '-' && s[23] == '-'
}

/// Whether `c` is a lower-case hexadecimal digit.
pub open spec fn is_lower_hex(c: char) -> bool {
    ('0' <= c <= '9') || ('a' <= c <= 'f')
}

/// Calls `uuid::Uuid::now_v7` and formats the value, which the `uuid`
/// crate writes in its hyphenated lower-case form, with the version digit
/// `7` after the second hyphen. The value depends on the clock and a
/// random source, so only that layout is stated.
#[verifier::external_body]
fn uuid_v7_text() -> (r: String)
    ensures
        uuid_shaped(r@),
        r@[14] == '7',
        forall|i: int|
            0 <= i < 36 && i != 8 && i != 13 && i != 18 && i != 23 ==> is_lower_hex(#[trigger] r@[i]),
{
    uuid::Uuid::now_v7().to_string()
}

/// A fresh module id: `mod_` followed by a time-ordered UUID.
pub fn new_module_id() -> (r: String)
    ensures
        exists|u: Seq<char>| uuid_shaped(u) && r@ == MODULE_ID_PREFIX@ + u,
{
    let mut s = copy_str(MODULE_ID_PREFIX);
    let u = uuid_v7_text();
    push_str(&mut s, u.as_str());
    s
}

/// A fresh unit id: `unit_` followed by a time-ordered UUID.
pub fn new_unit_id() -> (r: String)
    ensures
        exists|u: Seq<char>| uuid_shaped(u) && r@ == UNIT_ID_PREFIX@ + u,
{
    let mut s = copy_str(UNIT_ID_PREFIX);
    let u = uuid_v7_text();
    push_str(&mut s, u.as_str());
    s
}

/// Whether `id` belongs to the unit namespace (and therefore is not a
/// curriculum topic id).
pub fn is_unit_id(id: &str) -> (r: bool)
    ensures
        r == has_prefix(id@, UNIT_ID_PREFIX@),
{
    starts_with(id, UNIT_ID_PREFIX)
}

/// A situational module generated from the user's free-text description.
#[derive(Debug, Clone, Default, PartialEq)]
pub struct Module {
    /// `"mod_<uuid>"`.
    pub id: String,
    pub title: String,
    pub description: String,
    /// The user's own free-text description.
    pub source_prompt: String,
    /// Lifecycle status; currently always "active".
    pub status: String,
    /// "private" for now.
    pub visibility: String,
    pub native_lang: String,
    pub target_lang: String,
    pub version: i32,
    pub updated_at: Option<String>,
    pub deleted_at: Option<String>,
}

/// One practice unit of a module.
#[derive(Debug, Clone, Default, PartialEq)]
pub struct ModuleUnit {
    /// `"unit_<uuid>"`.
    pub id: String,
    pub module_id: String,
    pub title: String,
    pub description: String,
    pub order: i32,
    /// Existing curriculum grammar topics linked to this unit.
    pub grammar_topic_ids: Vec<String>,
    /// The unit's domain glossary.
    pub vocabulary: Vec<ModuleTerm>,
    pub updated_at: Option<String>,
    pub deleted_at: Option<String>,
}

/// One glossary entry of a module unit.
#[derive(Debug, Clone, Default, PartialEq)]
pub struct ModuleTerm {
    /// Headword or phrase on the target language.
    pub lemma: String,
    /// Translation on the student's native language.
    pub translation: String,
    /// Universal Dependencies POS tag, if known.
    pub pos: Option<String>,
    /// Approximate CEFR level, if known.
    pub cefr: Option<String>,
}

/// Model output of module generation before entity ids are assigned.
#[derive(Debug, Clone, Default, PartialEq)]
pub struct ModuleDraft {
    pub title: String,
    pub description: String,
    pub units: Vec<ModuleUnitDraft>,
}

/// One unit of a module draft.
#[derive(Debug, Clone, Default, PartialEq)]
pub struct ModuleUnitDraft {
    pub title: String,
    pub description: String,
    pub grammar_topic_ids: Vec<String>,
    /// The unit's domain glossary.
    pub vocabulary: Vec<ModuleTerm>,
    /// Id of the existing unit this draft updates during a refine pass;
    /// `materialize` ignores it.
    pub existing_id: Option<String>,
}

/// Whether two glossary entries hold the same text.
pub open spec fn same_term(a: ModuleTerm, b: ModuleTerm) -> bool {
    a.lemma@ == b.lemma@ && a.translation@ == b.translation@ && opt_seq(a.pos) == opt_seq(b.pos)
        && opt_seq(a.cefr) == opt_seq(b.cefr)
}

/// Whether two glossaries hold the same entries in the same order.
pub open spec fn same_terms(a: Seq<ModuleTerm>, b: Seq<ModuleTerm>) -> bool {
    a.len() == b.len() && forall|i: int| 0 <= i < a.len() ==> same_term(#[trigger] a[i], b[i])
}

fn copy_terms(v: &Vec<ModuleTerm>) -> (r: Vec<ModuleTerm>)
    ensures
        same_terms(r@, v@),
{
    let mut r: Vec<ModuleTerm> = Vec::new();
    let mut i: usize = 0;
    while i < v.len()
        invariant
            i <= v@.len(),
            r@.len() == i,
            forall|j: int| 0 <= j < i ==> same_term(#[trigger] r@[j], v@[j]),
        decreases v@.len() - i,
    {
        let t = &v[i];
        r.push(
            ModuleTerm {
                lemma: copy_str(t.lemma.as_str()),
                translation: copy_str(t.translation.as_str()),
                pos: copy_opt(&t.pos),
                cefr: copy_opt(&t.cefr),
            },
        );
        i = i + 1;
    }
    r
}

fn copy_strings(v: &Vec<String>) -> (r: Vec<String>)
    ensures
        r.deep_view() == v.deep_view(),
{
    let mut r: Vec<String> = Vec::new();
    let mut i: usize = 0;
    while i < v.len()
        invariant
            i <= v@.len(),
            r.deep_view() == v.deep_view().subrange(0, i as int),
        decreases v@.len() - i,
    {
        let ghost before = r.deep_view();
        r.push(copy_str(v[i].as_str()));
        assert(r.deep_view() =~= before.push(v@[i as int]@));
        assert(v.deep_view().subrange(0, i + 1) =~= v.deep_view().subrange(0, i as int).push(
            v@[i as int]@,
        ));
        i = i + 1;
    }
    assert(v.deep_view().subrange(0, v@.len() as int) =~= v.deep_view());
    r
}

/// Whether `unit` is the materialized unit number `i` of draft unit `d`
/// in module `module_id` at time `now`.
pub open spec fn unit_materializes(
    unit: ModuleUnit,
    d: ModuleUnitDraft,
    i: int,
    module_id: Seq<char>,
    now: Seq<char>,
) -> bool {
    &&& exists|u: Seq<char>| uuid_shaped(u) && unit.id@ == UNIT_ID_PREFIX@ + u
    &&& unit.module_id@ == module_id
    &&& unit.title@ == d.title@
    &&& unit.description@ == d.description@
    &&& unit.order == i as i32
    &&& unit.grammar_topic_ids.deep_view() == d.grammar_topic_ids.deep_view()
    &&& same_terms(unit.vocabulary@, d.vocabulary@)
    &&& opt_seq(unit.updated_at) == Some(now)
    &&& unit.deleted_at is None
}

impl ModuleDraft {
    /// Assigns entity ids and language metadata, producing the persistable
    /// `Module` (status "active", visibility "private", version 1) and its
    /// `ModuleUnit`s, ordered as in the draft.
    pub fn materialize(
        &self,
        source_prompt: &str,
        native_lang: &str,
        target_lang: &str,
        now: &str,
    ) -> (r: (Module, Vec<ModuleUnit>))
        ensures
            exists|u: Seq<char>| uuid_shaped(u) && r.0.id@ == MODULE_ID_PREFIX@ + u,
            r.0.title@ == self.title@,
            r.0.description@ == self.description@,
            r.0.source_prompt@ == source_prompt@,
            r.0.status@ == "active"@,
            r.0.visibility@ == "private"@,
            r.0.native_lang@ == native_lang@,
            r.0.target_lang@ == target_lang@,
            r.0.version == 1,
            opt_seq(r.0.updated_at) == Some(now@),
            r.0.deleted_at is None,
            r.1@.len() == self.units@.len(),
            forall|i: int|
                0 <= i < r.1@.len() ==> unit_materializes(
                    #[trigger] r.1@[i],
                    self.units@[i],
                    i,
                    r.0.id@,
                    now@,
                ),
    {
        let module = Module {
            id: new_module_id(),
            title: copy_str(self.title.as_str()),
            description: copy_str(self.description.as_str()),
            source_prompt: copy_str(source_prompt),
            status: copy_str("active"),
            visibility: copy_str("private"),
            native_lang: copy_str(native_lang),
            target_lang: copy_str(target_lang),
            version: 1,
            updated_at: Some(copy_str(now)),
            deleted_at: None,
        };
        let mut units: Vec<ModuleUnit> = Vec::new();
        let mut i: usize = 0;
        while i < self.units.len()
            invariant
                i <= self.units@.len(),
                units@.len() == i,
                forall|j: int|
                    0 <= j < i ==> unit_materializes(
                        #[trigger] units@[j],
                        self.units@[j],
                        j,
                        module.id@,
                        now@,
                    ),
            decreases self.units@.len() - i,
        {
            let d = &self.units[i];
            let unit = ModuleUnit {
                id: new_unit_id(),
                module_id: copy_str(module.id.as_str()),
                title: copy_str(d.title.as_str()),
                description: copy_str(d.description.as_str()),
                order: i as i32,
                grammar_topic_ids: copy_strings(&d.grammar_topic_ids),
                vocabulary: copy_terms(&d.vocabulary),
                updated_at: Some(copy_str(now)),
                deleted_at: None,
            };
            units.push(unit);
            i = i + 1;
        }
        (module, units)
    }
}

/// A unit's progress row, as the module aggregate reads it: the unit's id,
/// its score (a double, by its bit pattern) and whether it was ever
/// practised.
#[derive(Debug, Clone, PartialEq)]
pub struct UnitProgress {
    pub topic_id: String,
    pub score_bits: u64,
    pub practiced: bool,
}

/// Where a unit stands.
#[derive(Debug, Clone, Copy, PartialEq, Eq, Structural)]
pub enum UnitStanding {
    /// No progress row, or a row never practised below the completion
    /// score.
    NotStarted,
    /// Practised, below the completion score but not weak.
    InProgress,
    /// Practised with a score under the mastery score.
    Weak,
    /// A score of at least the completion score.
    Completed,
}

/// The position of the first row of unit `id`.
pub open spec fn first_row(progress: Seq<UnitProgress>, id: Seq<char>) -> Option<int>
    decreases progress.len(),
{
    if progress.len() == 0 {
        None
    } else {
        match first_row(progress.drop_last(), id) {
            Some(i) => Some(i),
            None => if progress.last().topic_id@ == id {
                Some(progress.len() - 1)
            } else {
                None
            },
        }
    }
}

/// Where a unit stands given its progress row, if any: completed from a
/// score of 80; otherwise, once practised, weak under 50 and in progress
/// from there; otherwise not started.
pub open spec fn standing(row: Option<UnitProgress>) -> UnitStanding {
    match row {
        None => UnitStanding::NotStarted,
        Some(p) => if double_at_least(p.score_bits, COMPLETED_THRESHOLD_BITS) {
            UnitStanding::Completed
        } else if p.practiced {
            if double_greater(MASTERY_THRESHOLD_BITS, p.score_bits) {
                UnitStanding::Weak
            } else {
                UnitStanding::InProgress
            }
        } else {
            UnitStanding::NotStarted
        },
    }
}

/// The row of a unit, if it has one.
pub open spec fn row_of(progress: Seq<UnitProgress>, id: Seq<char>) -> Option<UnitProgress> {
    match first_row(progress, id) {
        Some(i) => Some(progress[i]),
        None => None,
    }
}

/// How many of the units that are not deleted stand at `s`.
pub open spec fn count_standing(units: Seq<ModuleUnit>, progress: Seq<UnitProgress>, s: UnitStanding) -> nat
    decreases units.len(),
{
    if units.len() == 0 {
        0
    } else {
        count_standing(units.drop_last(), progress, s) + if units.last().deleted_at is None && standing(
            row_of(progress, units.last().id@),
        ) == s {
            1nat
        } else {
            0nat
        }
    }
}

/// How many units are not deleted.
pub open spec fn active_count(units: Seq<ModuleUnit>) -> nat
    decreases units.len(),
{
    if units.len() == 0 {
        0
    } else {
        active_count(units.drop_last()) + if units.last().deleted_at is None {
            1nat
        } else {
            0nat
        }
    }
}

/// The scores of the units that are not deleted and have a progress row,
/// in unit order: what the module's average is taken over (a unit without
/// a row scores nothing).
pub open spec fn module_scores(units: Seq<ModuleUnit>, progress: Seq<UnitProgress>) -> Seq<u64>
    decreases units.len(),
{
    if units.len() == 0 {
        Seq::empty()
    } else {
        module_scores(units.drop_last(), progress) + if units.last().deleted_at is None {
            match row_of(progress, units.last().id@) {
                Some(p) => seq![p.score_bits],
                None => Seq::empty(),
            }
        } else {
            Seq::empty()
        }
    }
}

/// The aggregate of a module's units: how many there are (deleted ones
/// left out), how many stand where (the weak ones also count as in
/// progress), and the scores that the average is taken over.
#[derive(Debug, Clone, Default, PartialEq)]
pub struct ModuleTally {
    pub total: usize,
    pub completed: usize,
    pub in_progress: usize,
    pub not_started: usize,
    pub weak: usize,
    pub scores: Vec<u64>,
}

fn find_row(progress: &[UnitProgress], id: &str) -> (r: Option<usize>)
    ensures
        match r {
            Some(i) => first_row(progress@, id@) == Some(i as int) && i < progress@.len(),
            None => first_row(progress@, id@) is None,
        },
{
    let mut i: usize = 0;
    while i < progress.len()
        invariant
            i <= progress@.len(),
            first_row(progress@.take(i as int), id@) is None,
        decreases progress@.len() - i,
    {
        assert(progress@.take(i + 1).drop_last() =~= progress@.take(i as int));
        if str_eq(progress[i].topic_id.as_str(), id) {
            proof {
                lemma_first_row_extends(progress@, id@, i as int + 1);
            }
            return Some(i);
        }
        i = i + 1;
    }
    assert(progress@.take(progress@.len() as int) =~= progress@);
    None
}

proof fn lemma_first_row_extends(progress: Seq<UnitProgress>, id: Seq<char>, k: int)
    requires
        0 < k <= progress.len(),
        first_row(progress.take(k), id) is Some,
    ensures
        first_row(progress, id) == first_row(progress.take(k), id),
    decreases progress.len() - k,
{
    if k < progress.len() {
        assert(progress.take(k + 1).drop_last() =~= progress.take(k));
        assert(first_row(progress.take(k + 1), id) == first_row(progress.take(k), id));
        lemma_first_row_extends(progress, id, k + 1);
    } else {
        assert(progress.take(k) =~= progress);
    }
}

fn standing_of(row: Option<&UnitProgress>) -> (r: UnitStanding)
    ensures
        r == standing(match row {
            Some(p) => Some(*p),
            None => None,
        }),
{
    match row {
        None => UnitStanding::NotStarted,
        Some(p) => {
            if at_least(p.score_bits, COMPLETED_THRESHOLD_BITS) {
                UnitStanding::Completed
            } else if p.practiced {
                if score_greater(MASTERY_THRESHOLD_BITS, p.score_bits) {
                    UnitStanding::Weak
                } else {
                    UnitStanding::InProgress
                }
            } else {
                UnitStanding::NotStarted
            }
        },
    }
}

/// Aggregates the progress rows of a module's units (a unit's progress is
/// the row whose `topic_id` is the unit's id, the first such row);
/// deleted units are left out.
pub fn get_module_progress(units: &[ModuleUnit], progress: &[UnitProgress]) -> (r: ModuleTally)
    ensures
        r.total == active_count(units@),
        r.completed == count_standing(units@, progress@, UnitStanding::Completed),
        r.in_progress == count_standing(units@, progress@, UnitStanding::InProgress) + count_standing(
            units@,
            progress@,
            UnitStanding::Weak,
        ),
        r.weak == count_standing(units@, progress@, UnitStanding::Weak),
        r.not_started == count_standing(units@, progress@, UnitStanding::NotStarted),
        r.scores@ == module_scores(units@, progress@),
{
    let mut total: usize = 0;
    let mut completed: usize = 0;
    let mut in_progress: usize = 0;
    let mut weak: usize = 0;
    let mut not_started: usize = 0;
    let mut scores: Vec<u64> = Vec::new();
    let mut i: usize = 0;
    while i < units.len()
        invariant
            i <= units@.len(),
            total == active_count(units@.take(i as int)),
            completed == count_standing(units@.take(i as int), progress@, UnitStanding::Completed),
            in_progress == count_standing(units@.take(i as int), progress@, UnitStanding::InProgress)
                + count_standing(units@.take(i as int), progress@, UnitStanding::Weak),
            weak == count_standing(units@.take(i as int), progress@, UnitStanding::Weak),
            not_started == count_standing(
                units@.take(i as int),
                progress@,
                UnitStanding::NotStarted,
            ),
            scores@ == module_scores(units@.take(i as int), progress@),
            total <= i,
            completed + in_progress + not_started <= total,
        decreases units@.len() - i,
    {
        let ghost pre = units@.take(i + 1);
        assert(pre.drop_last() =~= units@.take(i as int));
        assert(pre.last() == units@[i as int]);
        let u = &units[i];
        if u.deleted_at.is_none() {
            let found = find_row(progress, u.id.as_str());
            let st = match found {
                Some(j) => {
                    scores.push(progress[j].score_bits);
                    standing_of(Some(&progress[j]))
                },
                None => standing_of(None),
            };
            total = total + 1;
            match st {
                UnitStanding::Completed => {
                    completed = completed + 1;
                },
                UnitStanding::InProgress => {
                    in_progress = in_progress + 1;
                },
                UnitStanding::Weak => {
                    in_progress = in_progress + 1;
                    weak = weak + 1;
                },
                UnitStanding::NotStarted => {
                    not_started = not_started + 1;
                },
            }
        }
        i = i + 1;
    }
    assert(units@.take(units@.len() as int) =~= units@);
    ModuleTally { total, completed, in_progress, not_started, weak, scores }
}

/// Every unit that is not deleted stands in exactly one place, so the
/// completed, in-progress and not-started units add up to the total.
pub proof fn lemma_standings_partition(units: Seq<ModuleUnit>, progress: Seq<UnitProgress>)
    ensures
        count_standing(units, progress, UnitStanding::Completed) + count_standing(
            units,
            progress,
            UnitStanding::InProgress,
        ) + count_standing(units, progress, UnitStanding::Weak) + count_standing(
            units,
            progress,
            UnitStanding::NotStarted,
        ) == active_count(units),
    decreases units.len(),
{
    if units.len() > 0 {
        lemma_standings_partition(units.drop_last(), progress);
    }
}

} // verus!
