use quiz_core::{
    check_answer, create_session, get_questions, new_quiz, session_from_shuffled, AppState,
    DatasetError, Question, QuizSession, MAX_SESSION_QUESTIONS,
};
use std::collections::HashSet;

fn question(id: u32, options: &[&str], correct: usize) -> Question {
    Question {
        id,
        question: format!("question {}", id),
        options: options.iter().map(|o| o.to_string()).collect(),
        correct,
    }
}

fn store(n: u32) -> Vec<Question> {
    (1..=n).map(|id| question(id, &["a", "b", "c", "d"], (id % 4) as usize)).collect()
}

fn ids(s: &QuizSession) -> Vec<u32> {
    s.questions.iter().map(|q| q.id).collect()
}

fn state(questions: Vec<Question>) -> AppState {
    AppState::new(questions).unwrap()
}

#[test]
fn thirty_questions_give_distinct_full_sessions() {
    let all = store(30);
    let mut orders: HashSet<Vec<u32>> = HashSet::new();
    for _ in 0..1000 {
        let s = create_session(&all);
        assert_eq!(s.total, 26);
        assert_eq!(s.questions.len(), 26);
        orders.insert(ids(&s));
    }
    assert_eq!(orders.len(), 1000);
}

#[test]
fn five_questions_all_in_session() {
    let all = store(5);
    let s = create_session(&all);
    assert_eq!(s.total, 5);
    let mut got = ids(&s);
    got.sort();
    assert_eq!(got, vec![1, 2, 3, 4, 5]);
}

#[test]
fn check_answer_by_id() {
    let st = state(vec![question(7, &["a", "b", "c"], 2)]);
    assert!(check_answer(&st, 7, 2));
    assert!(!check_answer(&st, 7, 0));
    assert!(!check_answer(&st, 999, 2));
}

#[test]
fn empty_store_gives_empty_session() {
    let s = create_session(&[]);
    assert_eq!(s.total, 0);
    assert!(s.questions.is_empty());
}

#[test]
fn session_size_is_capped() {
    for (n, expected) in [(0u32, 0usize), (1, 1), (25, 25), (26, 26), (27, 26), (100, 26)] {
        let s = create_session(&store(n));
        assert_eq!(s.total, expected);
        assert_eq!(s.questions.len(), expected);
    }
    assert_eq!(MAX_SESSION_QUESTIONS, 26);
}

#[test]
fn session_ids_are_unique_and_from_store() {
    let all = store(40);
    for _ in 0..50 {
        let s = create_session(&all);
        let got = ids(&s);
        let distinct: HashSet<u32> = got.iter().copied().collect();
        assert_eq!(distinct.len(), got.len());
        for q in &s.questions {
            let original = all.iter().find(|o| o.id == q.id).unwrap();
            assert_eq!(q.question, original.question);
            assert_eq!(q.options, original.options);
            assert_eq!(q.correct, original.correct);
        }
    }
}

#[test]
fn create_session_leaves_input_alone() {
    let all = store(10);
    let _ = create_session(&all);
    let order: Vec<u32> = all.iter().map(|q| q.id).collect();
    assert_eq!(order, (1..=10).collect::<Vec<u32>>());
}

#[test]
fn session_from_shuffled_keeps_order_and_cuts() {
    let s = session_from_shuffled(store(30).into_iter().rev().collect());
    assert_eq!(s.total, 26);
    assert_eq!(ids(&s), (5..=30).rev().collect::<Vec<u32>>());
    let small = session_from_shuffled(vec![question(3, &["x", "y"], 1), question(1, &["x", "y"], 0)]);
    assert_eq!(small.total, 2);
    assert_eq!(ids(&small), vec![3, 1]);
}

#[test]
fn every_correct_answer_accepted_others_refused() {
    let all = store(12);
    let st = state(all.clone());
    for q in &all {
        assert!(check_answer(&st, q.id, q.correct));
        for wrong in 0..q.options.len() {
            if wrong != q.correct {
                assert!(!check_answer(&st, q.id, wrong));
            }
        }
    }
}

#[test]
fn unknown_id_is_never_correct() {
    let st = state(store(5));
    for answer in 0..6 {
        assert!(!check_answer(&st, 6, answer));
        assert!(!check_answer(&st, 0, answer));
    }
}

#[test]
fn new_quiz_draws_from_state() {
    let st = state(store(30));
    let s = new_quiz(&st);
    assert_eq!(s.total, 26);
    assert!(ids(&s).iter().all(|id| (1..=30).contains(id)));
}

#[test]
fn get_questions_copies_store() {
    let all = store(3);
    let st = state(all.clone());
    let copy = get_questions(&st);
    assert_eq!(copy.len(), 3);
    for (a, b) in copy.iter().zip(all.iter()) {
        assert_eq!(a.id, b.id);
        assert_eq!(a.question, b.question);
        assert_eq!(a.options, b.options);
        assert_eq!(a.correct, b.correct);
    }
}

#[test]
fn duplicate_copies_every_field() {
    let q = question(9, &["one", "two", "three"], 1);
    let d = q.duplicate();
    assert_eq!(d.id, 9);
    assert_eq!(d.question, "question 9");
    assert_eq!(d.options, vec!["one", "two", "three"]);
    assert_eq!(d.correct, 1);
}

#[test]
fn dataset_with_too_few_options_refused() {
    let r = AppState::new(vec![question(1, &["a", "b"], 0), question(2, &["a"], 0)]);
    assert_eq!(r.err(), Some(DatasetError::TooFewOptions { id: 2 }));
}

#[test]
fn dataset_with_correct_out_of_range_refused() {
    let r = AppState::new(vec![question(4, &["a", "b"], 2)]);
    assert_eq!(r.err(), Some(DatasetError::CorrectOutOfRange { id: 4 }));
}

#[test]
fn dataset_with_repeated_id_refused() {
    let r = AppState::new(vec![
        question(1, &["a", "b"], 0),
        question(2, &["a", "b"], 1),
        question(1, &["c", "d"], 1),
    ]);
    assert_eq!(r.err(), Some(DatasetError::DuplicateId { id: 1 }));
}

#[test]
fn dataset_reports_first_fault() {
    let r = AppState::new(vec![
        question(1, &["a", "b"], 5),
        question(1, &["a"], 0),
    ]);
    assert_eq!(r.err(), Some(DatasetError::CorrectOutOfRange { id: 1 }));
}

#[test]
fn valid_dataset_accepted_in_order() {
    let st = AppState::new(store(4)).unwrap();
    let order: Vec<u32> = st.questions.iter().map(|q| q.id).collect();
    assert_eq!(order, vec![1, 2, 3, 4]);
    assert!(AppState::new(Vec::new()).is_ok());
}
