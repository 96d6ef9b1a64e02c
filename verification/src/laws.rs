use vstd::prelude::*;

use crate::builder::{default_model, JevRequestBuilderView};
use crate::question::QuestionView;
use crate::request::JevRequestView;
use crate::string_map::{distinct_keys, has_key, lemma_map_of_pairs_dom, map_of_pairs, pair_views};
use crate::question::string_views;
use crate::usage::Usage;

verus! {

/// A builder that was given a state and a question always builds: whatever
/// else it holds, `build` succeeds.
pub proof fn law_state_and_question_suffice(
    b: JevRequestBuilderView,
    state: Seq<char>,
    key: Seq<char>,
    question: QuestionView,
)
    requires
        b.questions matches Some(m) ==> m.dom().finite(),
    ensures
        b.with_state(state).with_question(key, question).complete(),
        b.with_question(key, question).with_state(state).complete(),
{
    let m = b.question_map();
    assert(m.dom().finite());
    assert(m.insert(key, question).dom().contains(key));
    assert(m.insert(key, question).len() > 0);
}

/// A builder that was given no state, or no question, never builds.
pub proof fn law_incomplete_never_builds(b: JevRequestBuilderView)
    requires
        b.state is None || b.questions is None,
    ensures
        !b.complete(),
{
}

/// Building gives the same request as making it directly: a builder given a
/// model, a state and a question yields what `JevRequest::new` with that
/// model and state yields after `add_question` with that question.
pub proof fn law_builder_matches_direct_request(
    model: Seq<char>,
    state: Seq<char>,
    key: Seq<char>,
    question: QuestionView,
)
    ensures
        JevRequestBuilderView::empty().with_model(model).with_state(state).with_question(
            key,
            question,
        ).request() == (JevRequestView {
            model,
            state,
            questions: Map::empty(),
        }).with_question(key, question),
{
}

/// A request built without a model names the default model, `"jev-latest"`.
pub proof fn law_default_model(b: JevRequestBuilderView)
    requires
        b.model is None,
    ensures
        b.request().model == default_model(),
        b.request().model == "jev-latest"@,
{
}

/// Each setter replaces what was set before: of two models, two states, or
/// two questions under one key, the later one stays.
pub proof fn law_later_setting_wins(
    b: JevRequestBuilderView,
    first: Seq<char>,
    second: Seq<char>,
    key: Seq<char>,
    q1: QuestionView,
    q2: QuestionView,
)
    ensures
        b.with_model(first).with_model(second) == b.with_model(second),
        b.with_state(first).with_state(second) == b.with_state(second),
        b.with_question(key, q1).with_question(key, q2) == b.with_question(key, q2),
{
    assert(b.with_question(key, q1).with_question(key, q2).question_map() =~= b.with_question(
        key,
        q2,
    ).question_map());
}

/// The order in which parts are given does not matter: model, state and
/// question setters commute, and so do questions under different keys.
pub proof fn law_setters_commute(
    b: JevRequestBuilderView,
    model: Seq<char>,
    state: Seq<char>,
    k1: Seq<char>,
    q1: QuestionView,
    k2: Seq<char>,
    q2: QuestionView,
)
    requires
        k1 != k2,
    ensures
        b.with_model(model).with_state(state) == b.with_state(state).with_model(model),
        b.with_model(model).with_question(k1, q1) == b.with_question(k1, q1).with_model(model),
        b.with_state(state).with_question(k1, q1) == b.with_question(k1, q1).with_state(state),
        b.with_question(k1, q1).with_question(k2, q2) == b.with_question(k2, q2).with_question(
            k1,
            q1,
        ),
{
    assert(b.with_question(k1, q1).with_question(k2, q2).question_map() =~= b.with_question(
        k2,
        q2,
    ).with_question(k1, q1).question_map());
}

/// A question put in is in the built request under its key, and the other
/// questions stay as they were.
pub proof fn law_question_is_kept(b: JevRequestBuilderView, key: Seq<char>, question: QuestionView)
    ensures
        b.with_question(key, question).request().questions.contains_key(key),
        b.with_question(key, question).request().questions[key] == question,
        forall|other: Seq<char>|
            other != key && b.request().questions.contains_key(other) ==> #[trigger] b.with_question(
                key,
                question,
            ).request().questions.contains_key(other) && b.with_question(
                key,
                question,
            ).request().questions[other] == b.request().questions[other],
{
}

/// Criteria given as a list of pairs: every name in the list is a key of the
/// map, nothing else is, and each key holds the value of the last pair with
/// that name.
pub proof fn law_last_pair_wins<W>(pairs: Seq<(Seq<char>, W)>, i: int)
    requires
        0 <= i < pairs.len(),
        forall|j: int| i < j < pairs.len() ==> pairs[j].0 != pairs[i].0,
    ensures
        map_of_pairs(pairs).contains_key(pairs[i].0),
        map_of_pairs(pairs)[pairs[i].0] == pairs[i].1,
        forall|k: Seq<char>| #[trigger] map_of_pairs(pairs).contains_key(k) <==> has_key(pairs, k),
    decreases pairs.len(),
{
    lemma_map_of_pairs_dom(pairs);
    if i < pairs.len() - 1 {
        let rest = pairs.drop_last();
        law_last_pair_wins(rest, i);
        assert(rest[i] == pairs[i]);
    }
}

/// Criteria given with no name twice give a map with one key per pair.
pub proof fn law_distinct_pairs_size<W>(pairs: Seq<(Seq<char>, W)>)
    requires
        distinct_keys(pairs),
    ensures
        map_of_pairs(pairs).len() == pairs.len(),
{
    crate::string_map::lemma_map_of_pairs_len(pairs);
}

/// A budget made of two limits holds those limits, and its total is their sum.
pub proof fn law_budget_holds_its_limits(max_input: u64, max_output: u64, budget: Usage)
    requires
        budget.input() == max_input,
        budget.output() == max_output,
    ensures
        budget.total() == max_input + max_output,
{
}

/// A usage is always within its own limits.
pub proof fn law_within_own_limits(u: Usage)
    ensures
        u.within_some_limit(u),
{
}

/// Raising a budget's limits never takes a usage out of it.
pub proof fn law_larger_budget_still_holds(u: Usage, small: Usage, large: Usage)
    requires
        small.input() <= large.input(),
        small.output() <= large.output(),
        u.within_some_limit(small),
    ensures
        u.within_some_limit(large),
{
}

/// One call on a builder: `model`, `state` or `question`, with its
/// arguments by their views.
pub enum BuilderStep {
    Model(Seq<char>),
    State(Seq<char>),
    Question(Seq<char>, QuestionView),
}

/// What one call does to a builder's view, as the setters' contracts state.
pub open spec fn apply_step(b: JevRequestBuilderView, step: BuilderStep) -> JevRequestBuilderView {
    match step {
        BuilderStep::Model(m) => b.with_model(m),
        BuilderStep::State(s) => b.with_state(s),
        BuilderStep::Question(k, q) => b.with_question(k, q),
    }
}

/// What a sequence of calls, made in order, does to a builder's view.
pub open spec fn apply_steps(b: JevRequestBuilderView, steps: Seq<BuilderStep>) -> JevRequestBuilderView
    decreases steps.len(),
{
    if steps.len() == 0 {
        b
    } else {
        apply_step(apply_steps(b, steps.drop_last()), steps.last())
    }
}

/// Some call among `steps` is a `question` call.
pub open spec fn has_question_step(steps: Seq<BuilderStep>) -> bool {
    exists|i: int| 0 <= i < steps.len() && steps[i] is Question
}

/// The call is a `question` call with key `k`.
pub open spec fn asks_key(step: BuilderStep, k: Seq<char>) -> bool {
    match step {
        BuilderStep::Question(k2, _) => k2 == k,
        _ => false,
    }
}

/// The keys passed to `question` among `steps`.
pub open spec fn question_keys(steps: Seq<BuilderStep>) -> Set<Seq<char>> {
    Set::new(|k: Seq<char>| exists|i: int| 0 <= i < steps.len() && asks_key(steps[i], k))
}

/// At most one `model` call, at most one `state` call, and no key passed to
/// `question` twice.
pub open spec fn unambiguous_steps(steps: Seq<BuilderStep>) -> bool {
    &&& forall|i: int, j: int|
        0 <= i < steps.len() && 0 <= j < steps.len() && steps[i] is Model && steps[j] is Model ==> i == j
    &&& forall|i: int, j: int|
        0 <= i < steps.len() && 0 <= j < steps.len() && steps[i] is State && steps[j] is State ==> i == j
    &&& forall|i: int, j: int|
        0 <= i < steps.len() && 0 <= j < steps.len() && i != j && steps[i] is Question
            && steps[j] is Question ==> steps[i]->Question_0 != steps[j]->Question_0
}

/// A builder made by any calls holds no question map until `question` is
/// called; after that its map holds exactly the keys passed to `question`,
/// finitely many and at least one, so it is never empty.
pub proof fn law_question_map_keys(steps: Seq<BuilderStep>)
    ensures
        apply_steps(JevRequestBuilderView::empty(), steps).questions is None <==> !has_question_step(steps),
        apply_steps(JevRequestBuilderView::empty(), steps).questions matches Some(m) ==> {
            &&& m.dom() == question_keys(steps)
            &&& m.dom().finite()
            &&& m.len() >= 1
        },
    decreases steps.len(),
{
    let b = apply_steps(JevRequestBuilderView::empty(), steps);
    if steps.len() > 0 {
        let prefix = steps.drop_last();
        law_question_map_keys(prefix);
        let pb = apply_steps(JevRequestBuilderView::empty(), prefix);
        assert forall|i: int| 0 <= i < prefix.len() implies prefix[i] == steps[i] by {}
        if has_question_step(prefix) {
            let i = choose|i: int| 0 <= i < prefix.len() && prefix[i] is Question;
            assert(steps[i] is Question);
        }
        match steps.last() {
            BuilderStep::Question(k, q) => {
                assert(steps[steps.len() - 1] is Question);
                let m = pb.question_map();
                assert(m.dom().finite());
                assert(b.question_map().dom() =~= question_keys(steps)) by {
                    assert forall|k2: Seq<char>| #[trigger] question_keys(steps).contains(k2)
                        implies b.question_map().dom().contains(k2) by {
                        let i = choose|i: int| 0 <= i < steps.len() && asks_key(steps[i], k2);
                        if i < steps.len() - 1 {
                            assert(prefix[i] == steps[i]);
                            assert(question_keys(prefix).contains(k2));
                        }
                    }
                    assert forall|k2: Seq<char>| #[trigger] b.question_map().dom().contains(k2)
                        implies question_keys(steps).contains(k2) by {
                        if k2 == k {
                            assert(asks_key(steps[steps.len() - 1], k2));
                        } else {
                            assert(question_keys(prefix).contains(k2));
                            let i = choose|i: int| 0 <= i < prefix.len() && asks_key(prefix[i], k2);
                            assert(steps[i] == prefix[i]);
                        }
                    }
                }
                assert(b.question_map().dom().contains(k));
                vstd::set_lib::lemma_set_empty_equivalency_len(b.question_map().dom());
            },
            _ => {
                assert(b.questions == pb.questions);
                if has_question_step(steps) {
                    let i = choose|i: int| 0 <= i < steps.len() && steps[i] is Question;
                    assert(i < steps.len() - 1);
                    assert(prefix[i] is Question);
                }
                assert(question_keys(steps) =~= question_keys(prefix)) by {
                    assert forall|k2: Seq<char>| #[trigger] question_keys(steps).contains(k2)
                        implies question_keys(prefix).contains(k2) by {
                        let i = choose|i: int| 0 <= i < steps.len() && asks_key(steps[i], k2);
                        assert(i < steps.len() - 1);
                        assert(prefix[i] == steps[i]);
                    }
                    assert forall|k2: Seq<char>| #[trigger] question_keys(prefix).contains(k2)
                        implies question_keys(steps).contains(k2) by {
                        let i = choose|i: int| 0 <= i < prefix.len() && asks_key(prefix[i], k2);
                        assert(steps[i] == prefix[i]);
                    }
                }
            },
        }
    }
}

proof fn lemma_contains_last(steps: Seq<BuilderStep>, x: BuilderStep)
    requires
        steps.len() > 0,
    ensures
        steps.contains(x) <==> (steps.drop_last().contains(x) || steps.last() == x),
{
    let prefix = steps.drop_last();
    if steps.contains(x) {
        let i = choose|i: int| 0 <= i < steps.len() && steps[i] == x;
        if i < steps.len() - 1 {
            assert(prefix[i] == x);
        }
    }
    if prefix.contains(x) {
        let i = choose|i: int| 0 <= i < prefix.len() && prefix[i] == x;
        assert(steps[i] == x);
    }
    if steps.last() == x {
        assert(steps[steps.len() - 1] == x);
    }
}

/// What a builder made by unambiguous calls holds: the model and the state
/// that were passed, if any, no question map unless `question` was called, and
/// each question under the key it was passed with.
proof fn lemma_unambiguous_content(steps: Seq<BuilderStep>)
    requires
        unambiguous_steps(steps),
    ensures
        forall|m: Seq<char>|
            apply_steps(JevRequestBuilderView::empty(), steps).model == Some(m) <==> #[trigger] steps.contains(
                BuilderStep::Model(m),
            ),
        forall|st: Seq<char>|
            apply_steps(JevRequestBuilderView::empty(), steps).state == Some(st) <==> #[trigger] steps.contains(
                BuilderStep::State(st),
            ),
        apply_steps(JevRequestBuilderView::empty(), steps).questions is None <==> !has_question_step(steps),
        forall|k: Seq<char>, q: QuestionView|
            (apply_steps(JevRequestBuilderView::empty(), steps).question_map().contains_key(k)
                && apply_steps(JevRequestBuilderView::empty(), steps).question_map()[k] == q)
                <==> #[trigger] steps.contains(BuilderStep::Question(k, q)),
    decreases steps.len(),
{
    if steps.len() > 0 {
        let prefix = steps.drop_last();
        let last_i = steps.len() - 1;
        assert forall|i: int| 0 <= i < prefix.len() implies prefix[i] == steps[i] by {}
        assert(unambiguous_steps(prefix));
        lemma_unambiguous_content(prefix);
        let pb = apply_steps(JevRequestBuilderView::empty(), prefix);
        let b = apply_steps(JevRequestBuilderView::empty(), steps);
        assert(steps[last_i] == steps.last());
        if has_question_step(prefix) {
            let i = choose|i: int| 0 <= i < prefix.len() && prefix[i] is Question;
            assert(steps[i] is Question);
        }
        if has_question_step(steps) && !(steps.last() is Question) {
            let i = choose|i: int| 0 <= i < steps.len() && steps[i] is Question;
            assert(prefix[i] is Question);
        }
        assert forall|m: Seq<char>| b.model == Some(m) <==> #[trigger] steps.contains(BuilderStep::Model(m)) by {
            lemma_contains_last(steps, BuilderStep::Model(m));
            if steps.last() is Model && prefix.contains(BuilderStep::Model(m)) {
                let i = choose|i: int| 0 <= i < prefix.len() && prefix[i] == BuilderStep::Model(m);
                assert(steps[i] is Model);
            }
        }
        assert forall|st: Seq<char>| b.state == Some(st) <==> #[trigger] steps.contains(BuilderStep::State(st)) by {
            lemma_contains_last(steps, BuilderStep::State(st));
            if steps.last() is State && prefix.contains(BuilderStep::State(st)) {
                let i = choose|i: int| 0 <= i < prefix.len() && prefix[i] == BuilderStep::State(st);
                assert(steps[i] is State);
            }
        }
        assert forall|k: Seq<char>, q: QuestionView|
            (b.question_map().contains_key(k) && b.question_map()[k] == q) <==> #[trigger] steps.contains(
                BuilderStep::Question(k, q),
            ) by {
            lemma_contains_last(steps, BuilderStep::Question(k, q));
            if steps.last() is Question && steps.last()->Question_0 == k && prefix.contains(BuilderStep::Question(k, q)) {
                let i = choose|i: int| 0 <= i < prefix.len() && prefix[i] == BuilderStep::Question(k, q);
                assert(steps[i] is Question);
            }
        }
    }
}

/// The order of the calls does not matter: two builders made from `new` by
/// the same calls in different orders, with at most one `model`, at most one
/// `state`, and no key passed to `question` twice, hold the same; so both
/// fail to build, or both build the same request.
pub proof fn law_order_does_not_matter(steps1: Seq<BuilderStep>, steps2: Seq<BuilderStep>)
    requires
        unambiguous_steps(steps1),
        unambiguous_steps(steps2),
        steps1.to_multiset() == steps2.to_multiset(),
    ensures
        apply_steps(JevRequestBuilderView::empty(), steps1) == apply_steps(JevRequestBuilderView::empty(), steps2),
        apply_steps(JevRequestBuilderView::empty(), steps1).complete() == apply_steps(
            JevRequestBuilderView::empty(),
            steps2,
        ).complete(),
        apply_steps(JevRequestBuilderView::empty(), steps1).request() == apply_steps(
            JevRequestBuilderView::empty(),
            steps2,
        ).request(),
{
    lemma_unambiguous_content(steps1);
    lemma_unambiguous_content(steps2);
    let b1 = apply_steps(JevRequestBuilderView::empty(), steps1);
    let b2 = apply_steps(JevRequestBuilderView::empty(), steps2);
    assert forall|x: BuilderStep| steps1.contains(x) <==> steps2.contains(x) by {
        vstd::seq_lib::to_multiset_contains(steps1, x);
        vstd::seq_lib::to_multiset_contains(steps2, x);
        assert(steps1.to_multiset().count(x) == steps2.to_multiset().count(x));
    }
    if let Some(m) = b1.model {
        assert(steps1.contains(BuilderStep::Model(m)));
    }
    if let Some(m) = b2.model {
        assert(steps2.contains(BuilderStep::Model(m)));
    }
    assert(b1.model == b2.model);
    if let Some(st) = b1.state {
        assert(steps1.contains(BuilderStep::State(st)));
    }
    if let Some(st) = b2.state {
        assert(steps2.contains(BuilderStep::State(st)));
    }
    assert(b1.state == b2.state);
    if has_question_step(steps1) {
        let i = choose|i: int| 0 <= i < steps1.len() && steps1[i] is Question;
        assert(steps1.contains(steps1[i]));
        let j = choose|j: int| 0 <= j < steps2.len() && steps2[j] == steps1[i];
        assert(steps2[j] is Question);
    }
    if has_question_step(steps2) {
        let i = choose|i: int| 0 <= i < steps2.len() && steps2[i] is Question;
        assert(steps2.contains(steps2[i]));
        let j = choose|j: int| 0 <= j < steps1.len() && steps1[j] == steps2[i];
        assert(steps1[j] is Question);
    }
    let m1 = b1.question_map();
    let m2 = b2.question_map();
    assert forall|k: Seq<char>| #[trigger] m1.contains_key(k) implies m2.contains_key(k) && m2[k] == m1[k] by {
        assert(steps1.contains(BuilderStep::Question(k, m1[k])));
    }
    assert forall|k: Seq<char>| #[trigger] m2.contains_key(k) implies m1.contains_key(k) by {
        assert(steps2.contains(BuilderStep::Question(k, m2[k])));
    }
    assert(m1 =~= m2);
    assert(b1 == b2);
}

/// A builder after `question` calls with `qs`, in order.
pub open spec fn builder_with_questions(
    b: JevRequestBuilderView,
    qs: Seq<(Seq<char>, QuestionView)>,
) -> JevRequestBuilderView
    decreases qs.len(),
{
    if qs.len() == 0 {
        b
    } else {
        builder_with_questions(b, qs.drop_last()).with_question(qs.last().0, qs.last().1)
    }
}

/// A request after `add_question` calls with `qs`, in order.
pub open spec fn request_with_questions(r: JevRequestView, qs: Seq<(Seq<char>, QuestionView)>) -> JevRequestView
    decreases qs.len(),
{
    if qs.len() == 0 {
        r
    } else {
        request_with_questions(r, qs.drop_last()).with_question(qs.last().0, qs.last().1)
    }
}

proof fn lemma_questions_agree(
    b: JevRequestBuilderView,
    r: JevRequestView,
    qs: Seq<(Seq<char>, QuestionView)>,
)
    requires
        b.question_map() == r.questions,
        b.question_map().dom().finite(),
    ensures
        builder_with_questions(b, qs).model == b.model,
        builder_with_questions(b, qs).state == b.state,
        builder_with_questions(b, qs).question_map() == request_with_questions(r, qs).questions,
        builder_with_questions(b, qs).question_map().dom().finite(),
        request_with_questions(r, qs).model == r.model,
        request_with_questions(r, qs).state == r.state,
        qs.len() > 0 ==> builder_with_questions(b, qs).questions is Some,
    decreases qs.len(),
{
    if qs.len() > 0 {
        lemma_questions_agree(b, r, qs.drop_last());
    }
}

/// Building gives the same request as making it directly, for any number of
/// questions: a builder given a model, a state and then questions `qs` (at
/// least one) builds, and yields what `JevRequest::new` with that model and
/// state yields after `add_question` with each of `qs` in the same order.
pub proof fn law_builder_matches_direct_requests(
    model: Seq<char>,
    state: Seq<char>,
    qs: Seq<(Seq<char>, QuestionView)>,
)
    requires
        qs.len() >= 1,
    ensures
        builder_with_questions(JevRequestBuilderView::empty().with_model(model).with_state(state), qs).complete(),
        builder_with_questions(
            JevRequestBuilderView::empty().with_model(model).with_state(state),
            qs,
        ).request() == request_with_questions(
            JevRequestView { model, state, questions: Map::empty() },
            qs,
        ),
{
    let b0 = JevRequestBuilderView::empty().with_model(model).with_state(state);
    let r0 = JevRequestView { model, state, questions: Map::empty() };
    lemma_questions_agree(b0, r0, qs);
    let b = builder_with_questions(b0, qs);
    let m = b.question_map();
    assert(m.contains_key(qs.last().0));
    vstd::set_lib::lemma_set_empty_equivalency_len(m.dom());
    assert(b.request() == request_with_questions(r0, qs));
}

/// Adding a question to a request puts it under its identifier and leaves the
/// model, the state and the questions under other identifiers as they were.
pub proof fn law_add_question_keeps_the_rest(r: JevRequestView, key: Seq<char>, question: QuestionView)
    ensures
        r.with_question(key, question).model == r.model,
        r.with_question(key, question).state == r.state,
        r.with_question(key, question).questions.contains_key(key),
        r.with_question(key, question).questions[key] == question,
        forall|other: Seq<char>|
            other != key ==> (#[trigger] r.with_question(key, question).questions.contains_key(other)
                <==> r.questions.contains_key(other)),
        forall|other: Seq<char>|
            other != key && r.questions.contains_key(other) ==> #[trigger] r.with_question(
                key,
                question,
            ).questions[other] == r.questions[other],
{
}

/// Strings and pairs of strings are taken one by one, in order, each key as its
/// own text and each value as its own view.
pub proof fn law_views_keep_each_element<V: View>(pairs: Seq<(String, V)>, strings: Seq<String>)
    ensures
        pair_views(pairs).len() == pairs.len(),
        forall|i: int| 0 <= i < pairs.len() ==> #[trigger] pair_views(pairs)[i] == (pairs[i].0@, pairs[i].1@),
        string_views(strings).len() == strings.len(),
        forall|i: int| 0 <= i < strings.len() ==> #[trigger] string_views(strings)[i] == strings[i]@,
{
}

} // verus!
