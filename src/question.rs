use vstd::prelude::*;

use crate::table::Snapshot;

verus! {

/// The key of a question.
#[derive(Debug, Clone, PartialEq, Eq, Hash)]
pub struct QuestionId(pub String);

impl View for QuestionId {
    type V = Seq<char>;

    open spec fn view(&self) -> Seq<char> {
        self.0@
    }
}

/// What a question holds, as mathematical values.
pub struct QuestionView {
    pub id: Seq<char>,
    pub title: Seq<char>,
    pub content: Seq<char>,
    pub tags: Option<Seq<Seq<char>>>,
}

#[derive(Debug, Clone)]
pub struct Question {
    pub id: QuestionId,
    pub title: String,
    pub content: String,
    pub tags: Option<Vec<String>>,
}

pub open spec fn tags_view(tags: Option<Vec<String>>) -> Option<Seq<Seq<char>>> {
    match tags {
        Some(t) => Some(t.deep_view()),
        None => None,
    }
}

impl View for Question {
    type V = QuestionView;

    open spec fn view(&self) -> QuestionView {
        QuestionView {
            id: self.id@,
            title: self.title@,
            content: self.content@,
            tags: tags_view(self.tags),
        }
    }
}

fn copy_strings(v: &Vec<String>) -> (r: Vec<String>)
    ensures
        r.deep_view() == v.deep_view(),
{
    let mut r: Vec<String> = Vec::new();
    let mut i: usize = 0;
    while i < v.len()
        invariant
            i <= v.len(),
            r.len() == i,
            forall|j: int| 0 <= j < i ==> (#[trigger] r@[j])@ == v@[j]@,
        decreases v.len() - i,
    {
        r.push(v[i].clone());
        i = i + 1;
    }
    assert(r.deep_view() =~= v.deep_view());
    r
}

impl Question {
    pub fn new(id: QuestionId, title: String, content: String, tags: Option<Vec<String>>) -> (r:
        Question)
        ensures
            r.id@ == id@,
            r.title@ == title@,
            r.content@ == content@,
            tags_view(r.tags) == tags_view(tags),
    {
        Question { id, title, content, tags }
    }
}

impl Snapshot for Question {
    fn snapshot(&self) -> (r: Question) {
        let tags = match &self.tags {
            Some(t) => Some(copy_strings(t)),
            None => None,
        };
        Question {
            id: QuestionId(self.id.0.clone()),
            title: self.title.clone(),
            content: self.content.clone(),
            tags,
        }
    }
}

} // verus!
