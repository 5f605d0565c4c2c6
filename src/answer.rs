use vstd::prelude::*;

use crate::question::QuestionId;
use crate::table::Snapshot;

verus! {

/// The key of an answer.
#[derive(Debug, Clone, PartialEq, Eq, Hash)]
pub struct AnswerId(pub String);

impl View for AnswerId {
    type V = Seq<char>;

    open spec fn view(&self) -> Seq<char> {
        self.0@
    }
}

/// What an answer holds, as mathematical values.
pub struct AnswerView {
    pub id: Seq<char>,
    pub content: Seq<char>,
    pub question_id: Seq<char>,
}

/// An answer; the question it names need not exist.
#[derive(Debug, Clone)]
pub struct Answer {
    pub id: AnswerId,
    pub content: String,
    pub question_id: QuestionId,
}

impl View for Answer {
    type V = AnswerView;

    open spec fn view(&self) -> AnswerView {
        AnswerView { id: self.id@, content: self.content@, question_id: self.question_id@ }
    }
}

impl Snapshot for Answer {
    fn snapshot(&self) -> (r: Answer) {
        Answer {
            id: AnswerId(self.id.0.clone()),
            content: self.content.clone(),
            question_id: QuestionId(self.question_id.0.clone()),
        }
    }
}

} // verus!
