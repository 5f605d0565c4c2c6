use qa_service::error::Error;
use qa_service::pagination::{extract_pagination, paginate, select_page, Pagination};
use std::collections::HashMap;

fn query(pairs: &[(&str, &str)]) -> HashMap<String, String> {
    pairs.iter().map(|(k, v)| (k.to_string(), v.to_string())).collect()
}

#[test]
fn empty_query_is_missing_parameters() {
    let r = extract_pagination(HashMap::new());
    assert!(matches!(r, Err(Error::MissingParameters)));
}

#[test]
fn one_bound_is_missing_parameters() {
    assert!(matches!(extract_pagination(query(&[("start", "0")])), Err(Error::MissingParameters)));
    assert!(matches!(extract_pagination(query(&[("end", "2")])), Err(Error::MissingParameters)));
}

#[test]
fn bounds_are_read() {
    let p = extract_pagination(query(&[("start", "0"), ("end", "1")])).unwrap();
    assert_eq!(p.start, 0);
    assert_eq!(p.end, 1);
    let p = extract_pagination(query(&[("start", "+12"), ("end", "340"), ("x", "y")])).unwrap();
    assert_eq!(p.start, 12);
    assert_eq!(p.end, 340);
}

#[test]
fn unparsable_bound_is_parse_error() {
    let r = extract_pagination(query(&[("start", "a"), ("end", "1")]));
    assert!(matches!(r, Err(Error::ParseError(_))));
    let r = extract_pagination(query(&[("start", "1"), ("end", "-1")]));
    assert!(matches!(r, Err(Error::ParseError(_))));
    let r = extract_pagination(query(&[("start", " 1"), ("end", "2")]));
    assert!(matches!(r, Err(Error::ParseError(_))));
    let r = extract_pagination(query(&[("start", "0"), ("end", "")]));
    assert!(matches!(r, Err(Error::ParseError(_))));
}

#[test]
fn page_zero_to_one_of_three() {
    let r = select_page(query(&[("start", "0"), ("end", "1")]), vec!["a", "b", "c"]).unwrap();
    assert_eq!(r, vec!["a"]);
}

#[test]
fn empty_query_selects_everything() {
    let r = select_page(HashMap::new(), vec![1, 2, 3]).unwrap();
    assert_eq!(r, vec![1, 2, 3]);
}

#[test]
fn select_page_reports_each_error() {
    assert!(matches!(select_page(query(&[("start", "0")]), vec![1]), Err(Error::MissingParameters)));
    assert!(matches!(
        select_page(query(&[("start", "z"), ("end", "1")]), vec![1]),
        Err(Error::ParseError(_))
    ));
    assert!(matches!(
        select_page(query(&[("start", "0"), ("end", "4")]), vec![1, 2, 3]),
        Err(Error::RangeInvalid)
    ));
}

#[test]
fn paginate_edges() {
    assert_eq!(paginate(vec![1, 2, 3], &Pagination { start: 1, end: 3 }).unwrap(), vec![2, 3]);
    assert_eq!(paginate(vec![1, 2, 3], &Pagination { start: 3, end: 3 }).unwrap(), Vec::<i32>::new());
    assert_eq!(paginate(Vec::<i32>::new(), &Pagination { start: 0, end: 0 }).unwrap(), Vec::<i32>::new());
    assert!(matches!(paginate(vec![1, 2, 3], &Pagination { start: 2, end: 1 }), Err(Error::RangeInvalid)));
    assert!(matches!(paginate(vec![1, 2, 3], &Pagination { start: 0, end: 4 }), Err(Error::RangeInvalid)));
}

#[test]
fn error_status_and_message() {
    assert_eq!(Error::QuestionNotFound.status_code(), 416);
    assert_eq!(Error::MissingParameters.status_code(), 422);
    assert_eq!(Error::RangeInvalid.status_code(), 422);
    assert_eq!(Error::MissingParameters.message(), "Missing Parameters");
    assert_eq!(Error::QuestionNotFound.message(), "Question Not Found");
    assert_eq!(Error::RangeInvalid.message(), "Range Invalid");
    let e = match extract_pagination(query(&[("start", "q"), ("end", "1")])) {
        Err(e) => e,
        Ok(_) => panic!("expected a parse error"),
    };
    assert_eq!(e.status_code(), 422);
    assert_eq!(e.message(), "Parse Error: invalid digit found in string");
}

#[test]
fn unrelated_query_key_is_missing_parameters() {
    let r = select_page(query(&[("page", "2")]), vec![1, 2, 3]);
    assert!(matches!(r, Err(Error::MissingParameters)));
}

#[test]
fn parse_error_message_prefixes_description() {
    let m = qa_service::error::parse_error_message("number too large to fit in target type");
    assert_eq!(m, "Parse Error: number too large to fit in target type");
    assert_eq!(qa_service::error::parse_error_message(""), "Parse Error: ");
}
