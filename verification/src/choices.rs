//! The choices of a field, and how a selector picks one: by its raw value, or
//! else by its label.
use vstd::prelude::*;
use vstd::string::*;

use crate::listing::{lemma_filter_complete, lemma_filter_sound};
use crate::text::{same, same_any_case, same_ignoring_case};

verus! {

/// One choice of a field.
#[derive(Debug)]
pub struct FieldChoice {
    pub value: String,
    pub label: String,
    pub terminal: bool,
}

pub struct FieldChoiceView {
    pub value: Seq<char>,
    pub label: Seq<char>,
    pub terminal: bool,
}

impl View for FieldChoice {
    type V = FieldChoiceView;

    open spec fn view(&self) -> FieldChoiceView {
        FieldChoiceView { value: self.value@, label: self.label@, terminal: self.terminal }
    }
}

pub open spec fn choice_views(v: Seq<FieldChoice>) -> Seq<FieldChoiceView> {
    v.map_values(|c: FieldChoice| c@)
}

pub open spec fn with_value(selector: Seq<char>) -> spec_fn(FieldChoiceView) -> bool {
    |c: FieldChoiceView| c.value == selector
}

pub open spec fn with_label(selector: Seq<char>) -> spec_fn(FieldChoiceView) -> bool {
    |c: FieldChoiceView| same_ignoring_case(c.label, selector)
}

/// The choices that a selector means: those with its value, or, where there are
/// none, those with its label in any case.
pub open spec fn meant(choices: Seq<FieldChoiceView>, selector: Seq<char>) -> Seq<FieldChoiceView> {
    let raw = choices.filter(with_value(selector));
    if raw.len() > 0 {
        raw
    } else {
        choices.filter(with_label(selector))
    }
}

/// Copies of choices.
pub fn copy_choices(choices: &Vec<FieldChoice>) -> (r: Vec<FieldChoice>)
    ensures
        r@ == choices@,
{
    let mut out: Vec<FieldChoice> = Vec::new();
    let mut i: usize = 0;
    while i < choices.len()
        invariant
            i <= choices@.len(),
            out@ == choices@.subrange(0, i as int),
        decreases choices@.len() - i,
    {
        let c: &FieldChoice = &choices[i];
        out.push(
            FieldChoice { value: c.value.clone(), label: c.label.clone(), terminal: c.terminal },
        );
        i += 1;
        assert(out@ =~= choices@.subrange(0, i as int));
    }
    assert(out@ =~= choices@);
    out
}

/// How many choices a selector meets, by value or by label, and the first of them.
fn count_choices(choices: &Vec<FieldChoice>, selector: &str, by_label: bool) -> (r: (usize, usize))
    ensures
        ({
            let keep = if by_label {
                with_label(selector@)
            } else {
                with_value(selector@)
            };
            let hits = choice_views(choices@).filter(keep);
            &&& r.0 == hits.len()
            &&& r.0 > 0 ==> r.1 < choices@.len() && hits[0] == choices@[r.1 as int]@
        }),
{
    let ghost all = choice_views(choices@);
    let ghost keep = if by_label {
        with_label(selector@)
    } else {
        with_value(selector@)
    };
    let mut count: usize = 0;
    let mut first: usize = 0;
    let mut i: usize = 0;
    proof {
        reveal(Seq::filter);
        assert(all.subrange(0, 0) =~= Seq::empty());
    }
    while i < choices.len()
        invariant
            i <= choices@.len(),
            count <= i,
            all == choice_views(choices@),
            keep == (if by_label {
                with_label(selector@)
            } else {
                with_value(selector@)
            }),
            count == all.subrange(0, i as int).filter(keep).len(),
            count > 0 ==> first < choices@.len() && all.subrange(0, i as int).filter(keep)[0]
                == choices@[first as int]@,
        decreases choices@.len() - i,
    {
        let hit: bool = if by_label {
            same_any_case(choices[i].label.as_str(), selector)
        } else {
            same(choices[i].value.as_str(), selector)
        };
        proof {
            let longer = all.subrange(0, i + 1);
            assert(longer.drop_last() =~= all.subrange(0, i as int));
            assert(longer.last() == choices@[i as int]@);
            reveal(Seq::filter);
        }
        if hit {
            if count == 0 {
                first = i;
            }
            count += 1;
        }
        i += 1;
    }
    assert(all.subrange(0, all.len() as int) =~= all);
    (count, first)
}

/// What a selector picks among choices.
pub enum Pick {
    One(usize),
    Nothing,
    Several,
}

/// Picks the choice that a selector means, if it means exactly one.
pub fn pick_choice(choices: &Vec<FieldChoice>, selector: &str) -> (r: Pick)
    ensures
        ({
            let hits = meant(choice_views(choices@), selector@);
            match r {
                Pick::One(i) => i < choices@.len() && hits.len() == 1 && hits[0]
                    == choices@[i as int]@,
                Pick::Nothing => hits.len() == 0,
                Pick::Several => hits.len() > 1,
            }
        }),
{
    let (raw, first_raw): (usize, usize) = count_choices(choices, selector, false);
    let (count, first): (usize, usize) = if raw > 0 {
        (raw, first_raw)
    } else {
        count_choices(choices, selector, true)
    };
    if count == 0 {
        Pick::Nothing
    } else if count == 1 {
        Pick::One(first)
    } else {
        Pick::Several
    }
}

/// A state of incidents, as a selector resolved to it.
#[derive(Debug, Clone, PartialEq, Eq)]
pub struct ResolvedIncidentState {
    pub value: String,
    pub label: String,
}

/// Why a list of incidents was refused.
#[derive(Debug)]
pub enum IncidentAssignmentGroupListError {
    InvalidParams(String),
    UnresolvedState { requested: String, ambiguous: bool, choices: Vec<FieldChoice> },
}

/// The state that a selector means. One that means none or several is refused,
/// with the choices there are.
pub fn resolve_incident_state(selector: &str, choices: &Vec<FieldChoice>) -> (r: Result<
    ResolvedIncidentState,
    IncidentAssignmentGroupListError,
>)
    ensures
        ({
            let hits = meant(choice_views(choices@), selector@);
            match r {
                Ok(state) => hits.len() == 1 && state.value@ == hits[0].value && state.label@
                    == hits[0].label,
                Err(IncidentAssignmentGroupListError::UnresolvedState {
                    requested,
                    ambiguous,
                    choices: offered,
                }) => hits.len() != 1 && requested@ == selector@ && ambiguous == (hits.len() > 1)
                    && offered@ == choices@,
                Err(_) => false,
            }
        }),
{
    match pick_choice(choices, selector) {
        Pick::One(i) => Ok(
            ResolvedIncidentState {
                value: choices[i].value.clone(),
                label: choices[i].label.clone(),
            },
        ),
        Pick::Nothing => Err(
            IncidentAssignmentGroupListError::UnresolvedState {
                requested: selector.to_owned(),
                ambiguous: false,
                choices: copy_choices(choices),
            },
        ),
        Pick::Several => Err(
            IncidentAssignmentGroupListError::UnresolvedState {
                requested: selector.to_owned(),
                ambiguous: true,
                choices: copy_choices(choices),
            },
        ),
    }
}

/// A label and the value behind it pick the same state: where a label means
/// exactly one choice, and no other choice has that one's value, the value means
/// it too.
pub proof fn labels_and_values_agree(choices: Seq<FieldChoiceView>, label: Seq<char>)
    requires
        meant(choices, label).len() == 1,
        choices.filter(with_value(meant(choices, label)[0].value)).len() <= 1,
    ensures
        meant(choices, meant(choices, label)[0].value) == meant(choices, label),
{
    let hit = meant(choices, label)[0];
    let raw = choices.filter(with_value(hit.value));
    let source = if choices.filter(with_value(label)).len() > 0 {
        with_value(label)
    } else {
        with_label(label)
    };
    lemma_filter_sound(choices, source);
    assert(choices.contains(hit));
    lemma_filter_complete(choices, with_value(hit.value), hit);
    assert(raw.contains(hit));
    assert(raw.len() == 1);
    assert(raw[0] == hit);
    assert(meant(choices, hit.value) =~= meant(choices, label));
}

} // verus!
