use std::collections::HashMap;
use vstd::prelude::*;

use crate::answer::{Answer, AnswerId, AnswerView};
use crate::error::Error;
use crate::query::{param_value, query_of};
use crate::question::{Question, QuestionId, QuestionView};
use crate::table::{is_listing, lists_values, Table};

verus! {

pub open spec fn content_key() -> Seq<char> {
    seq!['c', 'o', 'n', 't', 'e', 'n', 't']
}

pub open spec fn question_id_key() -> Seq<char> {
    seq!['q', 'u', 'e', 's', 't', 'i', 'o', 'n', '_', 'i', 'd']
}

/// The id under which a posted answer is stored.
pub open spec fn posted_answer_id() -> Seq<char> {
    seq!['1']
}

/// The answer that a form with both fields describes.
pub open spec fn answer_of_form(q: Map<Seq<char>, Seq<char>>) -> AnswerView {
    AnswerView {
        id: posted_answer_id(),
        content: q[content_key()],
        question_id: q[question_id_key()],
    }
}

/// Builds an answer from the `content` and `question_id` fields of a posted
/// form; the question it names is not looked up.
pub fn answer_from_form(params: HashMap<String, String>) -> (r: Result<Answer, Error>)
    ensures
        ({
            let q = query_of(params);
            &&& r is Ok <==> (q.contains_key(content_key()) && q.contains_key(question_id_key()))
            &&& r is Ok ==> r->Ok_0@ == answer_of_form(q)
            &&& r is Err ==> r->Err_0 is MissingParameters
        }),
{
    let content = param_value(&params, "content");
    let question_id = param_value(&params, "question_id");
    proof {
        reveal_strlit("content");
        reveal_strlit("question_id");
        reveal_strlit("1");
        assert("content"@ =~= content_key());
        assert("question_id"@ =~= question_id_key());
    }
    match (content, question_id) {
        (Some(c), Some(qid)) => {
            let id = AnswerId("1".to_owned());
            assert(id@ =~= posted_answer_id());
            Ok(Answer { id, content: c.clone(), question_id: QuestionId(qid.clone()) })
        },
        _ => Err(Error::MissingParameters),
    }
}

impl Table<Question> {
    /// A snapshot of every stored question, in no promised order.
    pub fn list_questions(&self) -> (r: Vec<Question>)
        ensures
            is_listing(self@, r@.map_values(|q: Question| q@)),
    {
        self.values()
    }

    /// Stores a question under its id, replacing any question stored there.
    pub fn insert_question(&mut self, question: Question)
        ensures
            final(self)@ == old(self)@.insert(question.id@, question@),
    {
        let key = question.id.0.clone();
        self.insert(key, question);
    }

    /// Replaces the question stored under `id`; the collection is left as
    /// it was where there is none.
    pub fn update_question(&mut self, id: &QuestionId, question: Question) -> (r: Result<(), Error>)
        ensures
            r is Ok <==> old(self)@.contains_key(id@),
            r is Ok ==> final(self)@ == old(self)@.insert(id@, question@),
            r is Err ==> r->Err_0 is QuestionNotFound && final(self)@ == old(self)@,
    {
        if self.replace(&id.0, question) {
            Ok(())
        } else {
            Err(Error::QuestionNotFound)
        }
    }

    /// Removes the question stored under `id`.
    pub fn delete_question(&mut self, id: &QuestionId) -> (r: Result<(), Error>)
        ensures
            r is Ok <==> old(self)@.contains_key(id@),
            r is Err ==> r->Err_0 is QuestionNotFound,
            final(self)@ == old(self)@.remove(id@),
    {
        if self.remove(&id.0) {
            Ok(())
        } else {
            Err(Error::QuestionNotFound)
        }
    }
}

impl Table<Answer> {
    /// Stores an answer under its id, replacing any answer stored there.
    pub fn insert_answer(&mut self, answer: Answer)
        ensures
            final(self)@ == old(self)@.insert(answer.id@, answer@),
    {
        let key = answer.id.0.clone();
        self.insert(key, answer);
    }

    /// A snapshot of every stored answer, in no promised order.
    pub fn list_answers(&self) -> (r: Vec<Answer>)
        ensures
            is_listing(self@, r@.map_values(|a: Answer| a@)),
    {
        self.values()
    }
}

/// The collection after `qs` are inserted one after another into `m`.
pub open spec fn insert_all(m: Map<Seq<char>, QuestionView>, qs: Seq<QuestionView>) -> Map<
    Seq<char>,
    QuestionView,
>
    decreases qs.len(),
{
    if qs.len() == 0 {
        m
    } else {
        insert_all(m, qs.drop_last()).insert(qs.last().id, qs.last())
    }
}

/// No two of `qs` share an id.
pub open spec fn ids_distinct(qs: Seq<QuestionView>) -> bool {
    forall|i: int, j: int|
        0 <= i < qs.len() && 0 <= j < qs.len() && i != j ==> #[trigger] qs[i].id != #[trigger] qs[j].id
}

/// A listing taken after a question was inserted holds that question at
/// exactly one position stored under its id.
pub proof fn lemma_insert_then_list(
    before: Map<Seq<char>, QuestionView>,
    q: QuestionView,
    listed: Seq<QuestionView>,
)
    requires
        is_listing(before.insert(q.id, q), listed),
    ensures
        exists|keys: Seq<Seq<char>>, i: int|
            {
                &&& lists_values(before.insert(q.id, q), keys, listed)
                &&& 0 <= i < listed.len()
                &&& keys[i] == q.id
                &&& listed[i] == q
                &&& forall|j: int| 0 <= j < keys.len() && keys[j] == q.id ==> j == i
            },
{
    let after = before.insert(q.id, q);
    let keys = choose|keys: Seq<Seq<char>>| lists_values(after, keys, listed);
    assert(after.contains_key(q.id));
    assert(keys.contains(q.id));
    let i = choose|i: int| 0 <= i < keys.len() && keys[i] == q.id;
    assert(listed[i] == after[keys[i]]);
    assert forall|j: int| 0 <= j < keys.len() && keys[j] == q.id implies j == i by {
        if j != i {
            assert(keys[j] != keys[i]);
        }
    }
}

/// Once a question has been deleted, its id is absent, so deleting it a
/// second time reports that the question is not found.
pub proof fn lemma_delete_twice(m: Map<Seq<char>, QuestionView>, id: Seq<char>)
    ensures
        !m.remove(id).contains_key(id),
        !m.remove(id).remove(id).contains_key(id),
        m.remove(id).remove(id) == m.remove(id),
{
    assert(m.remove(id).remove(id) =~= m.remove(id));
}

proof fn lemma_insert_all_holds(m: Map<Seq<char>, QuestionView>, qs: Seq<QuestionView>, i: int)
    requires
        ids_distinct(qs),
        0 <= i < qs.len(),
    ensures
        insert_all(m, qs).contains_key(qs[i].id),
        insert_all(m, qs)[qs[i].id] == qs[i],
    decreases qs.len(),
{
    let init = qs.drop_last();
    if i < qs.len() - 1 {
        assert(ids_distinct(init)) by {
            assert forall|a: int, b: int|
                0 <= a < init.len() && 0 <= b < init.len() && a != b implies #[trigger] init[a].id
                != #[trigger] init[b].id by {
                assert(init[a] == qs[a] && init[b] == qs[b]);
            }
        }
        assert(init[i] == qs[i]);
        lemma_insert_all_holds(m, init, i);
        assert(qs.last().id != qs[i].id);
    }
}

/// Inserting questions whose ids are pairwise different, in whatever order,
/// loses none of them: every later listing observes each one.
pub proof fn lemma_inserts_all_observed(
    m: Map<Seq<char>, QuestionView>,
    qs: Seq<QuestionView>,
    listed: Seq<QuestionView>,
)
    requires
        ids_distinct(qs),
        is_listing(insert_all(m, qs), listed),
    ensures
        forall|i: int| 0 <= i < qs.len() ==> insert_all(m, qs).contains_key(#[trigger] qs[i].id)
            && insert_all(m, qs)[qs[i].id] == qs[i],
        forall|i: int| 0 <= i < qs.len() ==> listed.contains(#[trigger] qs[i]),
{
    let after = insert_all(m, qs);
    let keys = choose|keys: Seq<Seq<char>>| lists_values(after, keys, listed);
    assert forall|i: int| 0 <= i < qs.len() implies after.contains_key(#[trigger] qs[i].id)
        && after[qs[i].id] == qs[i] by {
        lemma_insert_all_holds(m, qs, i);
    }
    assert forall|i: int| 0 <= i < qs.len() implies listed.contains(#[trigger] qs[i]) by {
        lemma_insert_all_holds(m, qs, i);
        assert(keys.contains(qs[i].id));
        let j = choose|j: int| 0 <= j < keys.len() && keys[j] == qs[i].id;
        assert(listed[j] == after[keys[j]]);
    }
}

} // verus!
