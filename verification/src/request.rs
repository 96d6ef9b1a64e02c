use vstd::prelude::*;

use crate::question::{Question, QuestionView};
use crate::string_map::StringMap;

verus! {

/// A request to the service: the model to ask, the state the questions are
/// about, and the questions under their identifiers.
#[derive(Debug)]
pub struct JevRequest {
    pub model: String,
    pub state: String,
    pub questions: StringMap<Question>,
}

/// A request with its strings taken as character sequences.
pub struct JevRequestView {
    pub model: Seq<char>,
    pub state: Seq<char>,
    pub questions: Map<Seq<char>, QuestionView>,
}

impl JevRequestView {
    /// The same request with `question` under `identifier`, replacing what
    /// stood there.
    pub open spec fn with_question(self, identifier: Seq<char>, question: QuestionView) -> JevRequestView {
        JevRequestView { questions: self.questions.insert(identifier, question), ..self }
    }
}

impl View for JevRequest {
    type V = JevRequestView;

    open spec fn view(&self) -> JevRequestView {
        JevRequestView { model: self.model@, state: self.state@, questions: self.questions@ }
    }
}

impl JevRequest {
    /// A request for `model` about `state`, with no question yet.
    pub fn new(model: String, state: String) -> (r: Self)
        ensures
            r@ == (JevRequestView { model: model@, state: state@, questions: Map::empty() }),
    {
        JevRequest { state, model, questions: StringMap::new() }
    }

    /// Puts `question` under `identifier`, replacing the question that stood there.
    pub fn add_question(&mut self, identifier: String, question: Question)
        ensures
            final(self)@ == old(self)@.with_question(identifier@, question@),
    {
        self.questions.insert(identifier, question);
    }
}

} // verus!
