use typesafe_jev_sdk::{JevRequest, Question};

fn s(text: &str) -> String {
    text.to_string()
}

#[test]
fn new_request_has_no_question() {
    let req = JevRequest::new(s("jev-latest"), s("state"));
    assert_eq!(req.model, "jev-latest");
    assert_eq!(req.state, "state");
    assert!(req.questions.is_empty());
}

#[test]
fn add_question_replaces_question_under_same_identifier() {
    let mut req = JevRequest::new(s("jev-latest"), s("state"));
    req.add_question(s("q"), Question::noul(s("one"), None));
    req.add_question(s("r"), Question::noul(s("two"), None));
    req.add_question(s("q"), Question::noul(s("three"), None));
    assert_eq!(req.questions.len(), 2);
    match req.questions.get(&s("q")) {
        Some(Question::Noul { instructions, .. }) => assert_eq!(instructions, "three"),
        _ => panic!("expected the replacing question"),
    }
    match req.questions.get(&s("r")) {
        Some(Question::Noul { instructions, .. }) => assert_eq!(instructions, "two"),
        _ => panic!("expected the other question"),
    }
}
