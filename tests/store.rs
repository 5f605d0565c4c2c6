use qa_service::answer::Answer;
use qa_service::error::Error;
use qa_service::question::{Question, QuestionId};
use qa_service::store::answer_from_form;
use qa_service::table::Table;
use std::collections::HashMap;

fn question(id: &str, title: &str) -> Question {
    Question::new(
        QuestionId(id.to_string()),
        title.to_string(),
        "body".to_string(),
        Some(vec!["faq".to_string()]),
    )
}

fn ids(list: &[Question]) -> Vec<String> {
    let mut v: Vec<String> = list.iter().map(|q| q.id.0.clone()).collect();
    v.sort();
    v
}

#[test]
fn insert_then_list_holds_question_once() {
    let mut t: Table<Question> = Table::new();
    t.insert_question(question("2", "other"));
    t.insert_question(question("1", "first"));
    t.insert_question(question("1", "first again"));
    let list = t.list_questions();
    assert_eq!(list.len(), 2);
    let ones: Vec<&Question> = list.iter().filter(|q| q.id.0 == "1").collect();
    assert_eq!(ones.len(), 1);
    assert_eq!(ones[0].title, "first again");
    assert_eq!(ones[0].content, "body");
    assert_eq!(ones[0].tags, Some(vec!["faq".to_string()]));
}

#[test]
fn update_absent_id_signals_not_found_and_keeps_collection() {
    let mut t: Table<Question> = Table::new();
    t.insert_question(question("1", "first"));
    let r = t.update_question(&QuestionId("9".to_string()), question("9", "new"));
    assert!(matches!(r, Err(Error::QuestionNotFound)));
    let list = t.list_questions();
    assert_eq!(list.len(), 1);
    assert_eq!(list[0].id.0, "1");
    assert_eq!(list[0].title, "first");
}

#[test]
fn update_present_id_replaces_value() {
    let mut t: Table<Question> = Table::new();
    t.insert_question(question("1", "first"));
    let r = t.update_question(&QuestionId("1".to_string()), question("1", "edited"));
    assert!(r.is_ok());
    let list = t.list_questions();
    assert_eq!(list.len(), 1);
    assert_eq!(list[0].title, "edited");
}

#[test]
fn delete_twice_signals_not_found() {
    let mut t: Table<Question> = Table::new();
    t.insert_question(question("1", "first"));
    t.insert_question(question("2", "second"));
    assert!(t.delete_question(&QuestionId("1".to_string())).is_ok());
    let second = t.delete_question(&QuestionId("1".to_string()));
    assert!(matches!(second, Err(Error::QuestionNotFound)));
    assert_eq!(ids(&t.list_questions()), vec!["2".to_string()]);
}

#[test]
fn distinct_inserts_in_any_order_are_all_observed() {
    let orders: [[usize; 5]; 3] = [[0, 1, 2, 3, 4], [4, 3, 2, 1, 0], [2, 0, 4, 1, 3]];
    for order in orders.iter() {
        let mut t: Table<Question> = Table::new();
        for &k in order.iter() {
            t.insert_question(question(&k.to_string(), "t"));
        }
        let list = t.list_questions();
        assert_eq!(list.len(), 5);
        assert_eq!(ids(&list), vec!["0", "1", "2", "3", "4"]);
    }
}

#[test]
fn seeded_listing_and_posted_answer() {
    let mut questions: Table<Question> = Table::new();
    questions.insert_question(question("1", "seed"));
    let list = questions.list_questions();
    assert_eq!(list.len(), 1);
    assert_eq!(list[0].id.0, "1");

    let mut answers: Table<Answer> = Table::new();
    let mut form = HashMap::new();
    form.insert("content".to_string(), "x".to_string());
    form.insert("question_id".to_string(), "1".to_string());
    let answer = answer_from_form(form).unwrap();
    answers.insert_answer(answer);
    let stored = answers.list_answers();
    assert_eq!(stored.len(), 1);
    assert_eq!(stored[0].content, "x");
    assert_eq!(stored[0].question_id.0, "1");
    assert_eq!(stored[0].id.0, "1");
}

#[test]
fn answer_to_missing_question_is_accepted() {
    let mut questions: Table<Question> = Table::new();
    questions.insert_question(question("1", "seed"));
    assert!(questions.delete_question(&QuestionId("1".to_string())).is_ok());
    let mut form = HashMap::new();
    form.insert("content".to_string(), "x".to_string());
    form.insert("question_id".to_string(), "1".to_string());
    let mut answers: Table<Answer> = Table::new();
    answers.insert_answer(answer_from_form(form).unwrap());
    assert_eq!(answers.list_answers().len(), 1);
    assert_eq!(answers.list_answers()[0].content, "x");
}

#[test]
fn answer_form_missing_field() {
    let mut form = HashMap::new();
    form.insert("content".to_string(), "x".to_string());
    let r = answer_from_form(form);
    assert!(matches!(r, Err(Error::MissingParameters)));
    assert!(matches!(answer_from_form(HashMap::new()), Err(Error::MissingParameters)));
}

#[test]
fn table_contains_and_remove() {
    let mut t: Table<Question> = Table::new();
    assert!(!t.contains(&"a".to_string()));
    t.insert("a".to_string(), question("a", "t"));
    assert!(t.contains(&"a".to_string()));
    assert!(t.remove(&"a".to_string()));
    assert!(!t.remove(&"a".to_string()));
    assert!(!t.replace(&"a".to_string(), question("a", "t")));
    assert!(t.list_questions().is_empty());
}

#[test]
fn listing_of_three_paged_to_first() {
    let mut t: Table<Question> = Table::new();
    t.insert_question(question("a", "t"));
    t.insert_question(question("b", "t"));
    t.insert_question(question("c", "t"));
    let all = t.list_questions();
    let mut q = HashMap::new();
    q.insert("start".to_string(), "0".to_string());
    q.insert("end".to_string(), "1".to_string());
    let page = qa_service::pagination::select_page(q, all.clone()).unwrap();
    assert_eq!(page.len(), 1);
    assert_eq!(page[0].id.0, all[0].id.0);
}
