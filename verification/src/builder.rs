use vstd::prelude::*;

use crate::error::JevError;
use crate::question::{Question, QuestionView};
use crate::request::{JevRequest, JevRequestView};
use crate::string_map::StringMap;

verus! {

/// The model a request names when its builder was given none.
pub open spec fn default_model() -> Seq<char> {
    "jev-latest"@
}

/// Gathers the parts of a request one by one; `build` checks that the
/// request is complete.
#[derive(Debug)]
pub struct JevRequestBuilder {
    model: Option<String>,
    state: Option<String>,
    question: Option<StringMap<Question>>,
}

/// What a builder holds, with its strings taken as character sequences.
pub struct JevRequestBuilderView {
    pub model: Option<Seq<char>>,
    pub state: Option<Seq<char>>,
    pub questions: Option<Map<Seq<char>, QuestionView>>,
}

impl JevRequestBuilderView {
    /// A builder that holds nothing yet.
    pub open spec fn empty() -> JevRequestBuilderView {
        JevRequestBuilderView { model: None, state: None, questions: None }
    }

    pub open spec fn with_model(self, model: Seq<char>) -> JevRequestBuilderView {
        JevRequestBuilderView { model: Some(model), ..self }
    }

    pub open spec fn with_state(self, state: Seq<char>) -> JevRequestBuilderView {
        JevRequestBuilderView { state: Some(state), ..self }
    }

    /// The questions gathered so far; none at all counts as an empty map.
    pub open spec fn question_map(self) -> Map<Seq<char>, QuestionView> {
        match self.questions {
            Some(m) => m,
            None => Map::empty(),
        }
    }

    pub open spec fn with_question(self, key: Seq<char>, question: QuestionView) -> JevRequestBuilderView {
        JevRequestBuilderView { questions: Some(self.question_map().insert(key, question)), ..self }
    }

    /// Whether `build` succeeds: a state was given and at least one question.
    pub open spec fn complete(self) -> bool {
        &&& self.state is Some
        &&& self.questions matches Some(m) && m.len() > 0
    }

    /// The request that `build` gives back when the builder is complete.
    pub open spec fn request(self) -> JevRequestView {
        JevRequestView {
            model: match self.model {
                Some(m) => m,
                None => default_model(),
            },
            state: self.state->0,
            questions: self.question_map(),
        }
    }
}

impl View for JevRequestBuilder {
    type V = JevRequestBuilderView;

    closed spec fn view(&self) -> JevRequestBuilderView {
        JevRequestBuilderView {
            model: match self.model {
                Some(m) => Some(m@),
                None => None,
            },
            state: match self.state {
                Some(s) => Some(s@),
                None => None,
            },
            questions: match self.question {
                Some(q) => Some(q@),
                None => None,
            },
        }
    }
}

impl JevRequestBuilder {
    /// A builder holds finitely many questions.
    pub proof fn lemma_finite(&self)
        ensures
            self@.questions matches Some(m) ==> m.dom().finite(),
    {
        if let Some(q) = &self.question {
            q.lemma_finite();
        }
    }

    /// A builder that holds nothing yet.
    pub fn new() -> (r: Self)
        ensures
            r@ == JevRequestBuilderView::empty(),
    {
        JevRequestBuilder { model: None, state: None, question: None }
    }

    /// Names the model to ask, replacing any name given before.
    pub fn model(self, model_name: String) -> (r: Self)
        ensures
            r@ == self@.with_model(model_name@),
    {
        JevRequestBuilder { model: Some(model_name), ..self }
    }

    /// Sets the state the questions are about, replacing any state given before.
    pub fn state(self, state_expr: String) -> (r: Self)
        ensures
            r@ == self@.with_state(state_expr@),
    {
        JevRequestBuilder { state: Some(state_expr), ..self }
    }

    /// Puts `qval` under `qkey`, replacing the question that stood there.
    pub fn question(self, qkey: String, qval: Question) -> (r: Self)
        ensures
            r@ == self@.with_question(qkey@, qval@),
    {
        let JevRequestBuilder { model, state, question } = self;
        let mut questions = match question {
            Some(q) => q,
            None => StringMap::new(),
        };
        questions.insert(qkey, qval);
        JevRequestBuilder { model, state, question: Some(questions) }
    }

    /// The request, if a state was given and at least one question; the model
    /// is `"jev-latest"` where none was named.
    pub fn build(self) -> (r: Result<JevRequest, JevError>)
        ensures
            match r {
                Ok(req) => self@.complete() && req@ == self@.request(),
                Err(e) => !self@.complete() && e == JevError::BuildError,
            },
    {
        let JevRequestBuilder { model, state, question } = self;
        let model = match model {
            Some(m) => m,
            None => {
                let m = "jev-latest".to_string();
                proof {
                    vstd::string::to_string_from_display_ensures_for_str("jev-latest", m);
                }
                m
            },
        };
        let state = match state {
            Some(s) => s,
            None => {
                return Err(JevError::BuildError);
            },
        };
        let questions = match question {
            Some(q) => {
                if q.is_empty() {
                    return Err(JevError::BuildError);
                }
                q
            },
            None => {
                return Err(JevError::BuildError);
            },
        };
        Ok(JevRequest { model, state, questions })
    }
}

} // verus!
