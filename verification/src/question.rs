use vstd::prelude::*;

use crate::string_map::{map_of_pairs, pair_views, StringMap};
use vstd::std_specs::cmp::PartialEqSpec;

verus! {

/// One question put to the model, in one of three forms.
///
/// - `Choice`: pick one of the named options; `criteria` maps each option's
///   name to what it means.
/// - `Score`: give a level; `criteria` describes the levels from the lowest up.
/// - `Noul`: answer yes or no; `criteria` may say what `"true"` and `"false"`
///   stand for, and may be left out.
#[derive(Debug)]
#[allow(inconsistent_fields)]
pub enum Question {
    Choice { instructions: String, criteria: StringMap<String> },
    Score { instructions: String, criteria: Vec<String> },
    Noul { instructions: String, criteria: Option<StringMap<String>> },
}

/// A question with its strings taken as character sequences.
#[allow(inconsistent_fields)]
pub enum QuestionView {
    Choice { instructions: Seq<char>, criteria: Map<Seq<char>, Seq<char>> },
    Score { instructions: Seq<char>, criteria: Seq<Seq<char>> },
    Noul { instructions: Seq<char>, criteria: Option<Map<Seq<char>, Seq<char>>> },
}

/// The views of a list of strings.
pub open spec fn string_views(strings: Seq<String>) -> Seq<Seq<char>> {
    strings.map_values(|s: String| s@)
}

impl View for Question {
    type V = QuestionView;

    open spec fn view(&self) -> QuestionView {
        match self {
            Question::Choice { instructions, criteria } => QuestionView::Choice {
                instructions: instructions@,
                criteria: criteria@,
            },
            Question::Score { instructions, criteria } => QuestionView::Score {
                instructions: instructions@,
                criteria: string_views(criteria@),
            },
            Question::Noul { instructions, criteria } => QuestionView::Noul {
                instructions: instructions@,
                criteria: match criteria {
                    Some(m) => Some(m@),
                    None => None,
                },
            },
        }
    }
}

impl Question {
    /// A choice question: `criteria` lists each option's name and meaning; of
    /// two entries with one name the later one stays.
    pub fn choice(inst: String, criteria: Vec<(String, String)>) -> (r: Self)
        ensures
            r@ == (QuestionView::Choice {
                instructions: inst@,
                criteria: map_of_pairs(pair_views(criteria@)),
            }),
    {
        let criteria = StringMap::from_pairs(criteria);
        Question::Choice { instructions: inst, criteria }
    }

    /// A score question: `criteria` describes the levels in order.
    pub fn score(inst: String, criteria: Vec<String>) -> (r: Self)
        ensures
            r@ == (QuestionView::Score { instructions: inst@, criteria: string_views(criteria@) }),
    {
        Question::Score { instructions: inst, criteria }
    }

    /// A yes/no question, with or without a description of what each answer
    /// means; of two entries with one name the later one stays.
    pub fn noul(inst: String, criteria: Option<Vec<(String, String)>>) -> (r: Self)
        ensures
            r@ == (QuestionView::Noul {
                instructions: inst@,
                criteria: match criteria {
                    Some(pairs) => Some(map_of_pairs(pair_views(pairs@))),
                    None => None,
                },
            }),
    {
        let criteria = match criteria {
            Some(pairs) => Some(StringMap::from_pairs(pairs)),
            None => None,
        };
        Question::Noul { instructions: inst, criteria }
    }
}

/// Whether the two lists hold the same strings in the same order.
fn same_strings(a: &Vec<String>, b: &Vec<String>) -> (r: bool)
    ensures
        r == (string_views(a@) == string_views(b@)),
{
    if a.len() != b.len() {
        assert(string_views(a@).len() != string_views(b@).len());
        return false;
    }
    let n = a.len();
    let mut i: usize = 0;
    while i < n
        invariant
            n == a@.len(),
            n == b@.len(),
            i <= n,
            forall|j: int| 0 <= j < i ==> a@[j]@ == b@[j]@,
        decreases n - i,
    {
        if a[i] != b[i] {
            assert(string_views(a@)[i as int] != string_views(b@)[i as int]);
            return false;
        }
        i = i + 1;
    }
    assert(string_views(a@) =~= string_views(b@));
    true
}

impl PartialEq for Question {
    fn eq(&self, other: &Self) -> (r: bool) {
        match (self, other) {
            (
                Question::Choice { instructions: a, criteria: ca },
                Question::Choice { instructions: b, criteria: cb },
            ) => *a == *b && ca.same_as(cb),
            (
                Question::Score { instructions: a, criteria: ca },
                Question::Score { instructions: b, criteria: cb },
            ) => *a == *b && same_strings(ca, cb),
            (
                Question::Noul { instructions: a, criteria: ca },
                Question::Noul { instructions: b, criteria: cb },
            ) => *a == *b && match (ca, cb) {
                (Some(x), Some(y)) => x.same_as(y),
                (None, None) => true,
                _ => false,
            },
            _ => false,
        }
    }
}

impl vstd::std_specs::cmp::PartialEqSpecImpl for Question {
    open spec fn obeys_eq_spec() -> bool {
        true
    }

    open spec fn eq_spec(&self, other: &Question) -> bool {
        self@ == other@
    }
}

/// Two questions are equal exactly when they are of the same kind with the
/// same instructions and the same criteria: a difference in the instructions,
/// in a choice's or yes/no question's criteria map, in a score's levels or
/// their order, or in whether a yes/no question has criteria, makes them
/// unequal.
pub proof fn law_question_eq_is_structural(a: Question, b: Question)
    ensures
        a.eq_spec(&b) <==> a@ == b@,
        a.eq_spec(&b) <==> match (a, b) {
            (
                Question::Choice { instructions: ia, criteria: ca },
                Question::Choice { instructions: ib, criteria: cb },
            ) => ia@ == ib@ && ca@ == cb@,
            (
                Question::Score { instructions: ia, criteria: ca },
                Question::Score { instructions: ib, criteria: cb },
            ) => ia@ == ib@ && ca@.len() == cb@.len() && forall|i: int|
                0 <= i < ca@.len() ==> #[trigger] ca@[i]@ == cb@[i]@,
            (
                Question::Noul { instructions: ia, criteria: ca },
                Question::Noul { instructions: ib, criteria: cb },
            ) => ia@ == ib@ && match (ca, cb) {
                (Some(x), Some(y)) => x@ == y@,
                (None, None) => true,
                _ => false,
            },
            _ => false,
        },
{
    match (a, b) {
        (Question::Score { criteria: ca, .. }, Question::Score { criteria: cb, .. }) => {
            let va = string_views(ca@);
            let vb = string_views(cb@);
            assert(va.len() == ca@.len() && vb.len() == cb@.len());
            if ca@.len() == cb@.len() && forall|i: int| 0 <= i < ca@.len() ==> #[trigger] ca@[i]@ == cb@[i]@ {
                assert forall|i: int| 0 <= i < va.len() implies va[i] == vb[i] by {
                    assert(va[i] == ca@[i]@);
                    assert(vb[i] == cb@[i]@);
                }
                assert(va =~= vb);
            }
            if va == vb {
                assert forall|i: int| 0 <= i < ca@.len() implies #[trigger] ca@[i]@ == cb@[i]@ by {
                    assert(va[i] == ca@[i]@);
                    assert(vb[i] == cb@[i]@);
                }
            }
        },
        (Question::Noul { criteria: ca, .. }, Question::Noul { criteria: cb, .. }) => {
            match (ca, cb) {
                (Some(x), None) => {
                    assert(a@->Noul_criteria is Some);
                },
                (None, Some(y)) => {
                    assert(b@->Noul_criteria is Some);
                },
                _ => {},
            }
        },
        _ => {},
    }
}

} // verus!
