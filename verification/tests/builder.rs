use typesafe_jev_sdk::{JevError, JevRequestBuilder, Question};

fn s(text: &str) -> String {
    text.to_string()
}

fn next_action_question() -> Question {
    Question::choice(
        s("次に取る行動は?"),
        vec![
            (s("heal"), s("回復アイテムを使ってHPを回復する")),
            (s("retreat"), s("敵から距離を取って退避する")),
            (s("attack"), s("近くの敵を攻撃する")),
        ],
    )
}

#[test]
fn test_build_choise() {
    let builder = JevRequestBuilder::new();

    let req = builder
        .model(s("jev-latest"))
        .state(s("プレイヤーのHPは20%。敵が近くに3体いる。\n回復アイテムを1個持っている。"))
        .question(s("next_action"), next_action_question())
        .build();

    assert!(req.is_ok());
}

#[test]
fn test_build_noul() {}

#[test]
fn build_without_state_fails() {
    let req = JevRequestBuilder::new()
        .model(s("jev-latest"))
        .question(s("next_action"), next_action_question())
        .build();
    assert!(matches!(req, Err(JevError::BuildError)));
}

#[test]
fn build_without_question_fails() {
    let req = JevRequestBuilder::new().state(s("HP 20%")).build();
    assert!(matches!(req, Err(JevError::BuildError)));
}

#[test]
fn build_of_empty_builder_fails() {
    assert!(matches!(JevRequestBuilder::new().build(), Err(JevError::BuildError)));
}

#[test]
fn build_without_model_names_default_model() {
    let req = JevRequestBuilder::new()
        .state(s("HP 20%"))
        .question(s("need_healing"), Question::noul(s("今すぐ回復する必要がある?"), None))
        .build()
        .unwrap();
    assert_eq!(req.model, "jev-latest");
    assert_eq!(req.state, "HP 20%");
    assert_eq!(req.questions.len(), 1);
}

#[test]
fn build_keeps_given_model_and_state() {
    let req = JevRequestBuilder::new()
        .model(s("jev-1"))
        .state(s("first"))
        .state(s("second"))
        .model(s("jev-2"))
        .question(s("next_action"), next_action_question())
        .build()
        .unwrap();
    assert_eq!(req.model, "jev-2");
    assert_eq!(req.state, "second");
}

#[test]
fn later_question_under_same_key_replaces_earlier() {
    let req = JevRequestBuilder::new()
        .state(s("HP 20%"))
        .question(s("q"), Question::score(s("first"), vec![s("low")]))
        .question(s("q"), Question::noul(s("second"), None))
        .question(s("other"), next_action_question())
        .build()
        .unwrap();
    assert_eq!(req.questions.len(), 2);
    match req.questions.get(&s("q")) {
        Some(Question::Noul { instructions, criteria }) => {
            assert_eq!(instructions, "second");
            assert!(criteria.is_none());
        }
        _ => panic!("the later question should stand under the key"),
    }
    assert!(req.questions.contains_key(&s("other")));
    assert!(!req.questions.contains_key(&s("missing")));
}

#[test]
fn builder_and_direct_request_agree() {
    let built = JevRequestBuilder::new()
        .model(s("jev-latest"))
        .state(s("HP 20%"))
        .question(s("danger"), Question::score(s("危険度は?"), vec![s("低"), s("高")]))
        .build()
        .unwrap();
    let mut direct = typesafe_jev_sdk::JevRequest::new(s("jev-latest"), s("HP 20%"));
    direct.add_question(s("danger"), Question::score(s("危険度は?"), vec![s("低"), s("高")]));
    assert_eq!(built.model, direct.model);
    assert_eq!(built.state, direct.state);
    assert_eq!(built.questions.len(), direct.questions.len());
    match (built.questions.get(&s("danger")), direct.questions.get(&s("danger"))) {
        (
            Some(Question::Score { instructions: a, criteria: ca }),
            Some(Question::Score { instructions: b, criteria: cb }),
        ) => {
            assert_eq!(a, b);
            assert_eq!(ca, cb);
        }
        _ => panic!("both requests should hold the score question"),
    }
}

#[test]
fn order_of_parts_does_not_matter() {
    let a = JevRequestBuilder::new()
        .question(s("x"), Question::noul(s("X?"), None))
        .model(s("m"))
        .question(s("y"), Question::score(s("Y?"), vec![s("lo"), s("hi")]))
        .state(s("st"))
        .build()
        .unwrap();
    let b = JevRequestBuilder::new()
        .state(s("st"))
        .question(s("y"), Question::score(s("Y?"), vec![s("lo"), s("hi")]))
        .model(s("m"))
        .question(s("x"), Question::noul(s("X?"), None))
        .build()
        .unwrap();
    assert_eq!(a.model, b.model);
    assert_eq!(a.state, b.state);
    assert_eq!(a.questions.len(), 2);
    assert_eq!(b.questions.len(), 2);
    assert!(a.questions.contains_key(&s("x")) && b.questions.contains_key(&s("x")));
    assert!(a.questions.contains_key(&s("y")) && b.questions.contains_key(&s("y")));
}

#[test]
fn builder_and_direct_request_agree_for_many_questions() {
    let qs = || {
        vec![
            (s("a"), Question::noul(s("A?"), None)),
            (s("b"), Question::score(s("B?"), vec![s("lo")])),
            (s("a"), Question::choice(s("A2?"), vec![(s("x"), s("y"))])),
        ]
    };
    let mut builder = JevRequestBuilder::new().model(s("m")).state(s("st"));
    for (k, q) in qs() {
        builder = builder.question(k, q);
    }
    let built = builder.build().unwrap();
    let mut direct = typesafe_jev_sdk::JevRequest::new(s("m"), s("st"));
    for (k, q) in qs() {
        direct.add_question(k, q);
    }
    assert_eq!(built.model, direct.model);
    assert_eq!(built.state, direct.state);
    assert_eq!(built.questions.len(), 2);
    assert_eq!(direct.questions.len(), 2);
    for key in [s("a"), s("b")] {
        assert_eq!(built.questions.get(&key), direct.questions.get(&key));
    }
    assert_eq!(
        built.questions.get(&s("a")).unwrap(),
        &Question::choice(s("A2?"), vec![(s("x"), s("y"))])
    );
}
