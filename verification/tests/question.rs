use typesafe_jev_sdk::Question;

fn s(text: &str) -> String {
    text.to_string()
}

#[test]
fn choice_maps_each_option_to_its_meaning() {
    let q = Question::choice(
        s("次に取る行動は?"),
        vec![
            (s("heal"), s("回復アイテムを使ってHPを回復する")),
            (s("retreat"), s("敵から距離を取って退避する")),
            (s("attack"), s("近くの敵を攻撃する")),
        ],
    );
    match q {
        Question::Choice { instructions, criteria } => {
            assert_eq!(instructions, "次に取る行動は?");
            assert_eq!(criteria.len(), 3);
            assert_eq!(criteria.get(&s("heal")).unwrap(), "回復アイテムを使ってHPを回復する");
            assert_eq!(criteria.get(&s("retreat")).unwrap(), "敵から距離を取って退避する");
            assert_eq!(criteria.get(&s("attack")).unwrap(), "近くの敵を攻撃する");
        }
        _ => panic!("expected a choice question"),
    }
}

#[test]
fn choice_keeps_last_meaning_of_repeated_option() {
    let q = Question::choice(
        s("pick"),
        vec![(s("a"), s("first")), (s("b"), s("bee")), (s("a"), s("second"))],
    );
    match q {
        Question::Choice { criteria, .. } => {
            assert_eq!(criteria.len(), 2);
            assert_eq!(criteria.get(&s("a")).unwrap(), "second");
            assert_eq!(criteria.get(&s("b")).unwrap(), "bee");
        }
        _ => panic!("expected a choice question"),
    }
}

#[test]
fn choice_with_no_option_has_empty_criteria() {
    match Question::choice(s("pick"), Vec::new()) {
        Question::Choice { criteria, .. } => assert!(criteria.is_empty()),
        _ => panic!("expected a choice question"),
    }
}

#[test]
fn score_keeps_levels_in_order() {
    let levels = vec![
        s("低：差し迫った脅威がなく、安全に行動できる"),
        s("中：脅威があり、注意して行動する必要がある"),
        s("高：倒される危険が高く、直ちに対処する必要がある"),
    ];
    match Question::score(s("現在の危険度は？"), levels.clone()) {
        Question::Score { instructions, criteria } => {
            assert_eq!(instructions, "現在の危険度は？");
            assert_eq!(criteria, levels);
        }
        _ => panic!("expected a score question"),
    }
}

#[test]
fn noul_with_criteria() {
    let q = Question::noul(
        s("今すぐ回復する必要がある?"),
        Some(vec![
            (s("true"), s("今すぐ回復する必要がある")),
            (s("false"), s("今すぐ回復する必要はない")),
        ]),
    );
    match q {
        Question::Noul { instructions, criteria: Some(criteria) } => {
            assert_eq!(instructions, "今すぐ回復する必要がある?");
            assert_eq!(criteria.len(), 2);
            assert_eq!(criteria.get(&s("true")).unwrap(), "今すぐ回復する必要がある");
            assert_eq!(criteria.get(&s("false")).unwrap(), "今すぐ回復する必要はない");
        }
        _ => panic!("expected a yes/no question with criteria"),
    }
}

#[test]
fn noul_without_criteria() {
    match Question::noul(s("今すぐ回復する必要がある?"), None) {
        Question::Noul { instructions, criteria } => {
            assert_eq!(instructions, "今すぐ回復する必要がある?");
            assert!(criteria.is_none());
        }
        _ => panic!("expected a yes/no question"),
    }
}

#[test]
fn questions_compare_by_content() {
    let a = Question::choice(s("pick"), vec![(s("a"), s("1")), (s("b"), s("2"))]);
    let b = Question::choice(s("pick"), vec![(s("b"), s("2")), (s("a"), s("0")), (s("a"), s("1"))]);
    assert_eq!(a, b);
    let c = Question::choice(s("pick"), vec![(s("a"), s("1"))]);
    assert_ne!(a, c);
    let d = Question::choice(s("pick"), vec![(s("a"), s("1")), (s("b"), s("3"))]);
    assert_ne!(a, d);
    assert_ne!(a, Question::choice(s("other"), vec![(s("a"), s("1")), (s("b"), s("2"))]));
    assert_eq!(Question::score(s("x"), vec![s("lo"), s("hi")]), Question::score(s("x"), vec![s("lo"), s("hi")]));
    assert_ne!(Question::score(s("x"), vec![s("lo"), s("hi")]), Question::score(s("x"), vec![s("hi"), s("lo")]));
    assert_ne!(Question::score(s("x"), vec![s("lo")]), Question::score(s("x"), vec![s("lo"), s("hi")]));
    assert_eq!(Question::noul(s("y"), None), Question::noul(s("y"), None));
    assert_ne!(Question::noul(s("y"), None), Question::noul(s("y"), Some(Vec::new())));
    assert_eq!(
        Question::noul(s("y"), Some(vec![(s("true"), s("t"))])),
        Question::noul(s("y"), Some(vec![(s("true"), s("t"))]))
    );
    assert_ne!(Question::noul(s("x"), None), Question::score(s("x"), Vec::new()));
}
