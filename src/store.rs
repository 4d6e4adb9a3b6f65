use vstd::prelude::*;
use crate::quiz::{Question, QuestionView, QuizSession, create_session, unique_ids, views};

verus! {

/// Why a question set cannot serve as the store; each names the id of the first
/// offending record.
#[derive(Clone, Copy, Debug, PartialEq, Eq, Structural)]
pub enum DatasetError {
    /// The record offers fewer than two options.
    TooFewOptions { id: u32 },
    /// The record's correct index names no option.
    CorrectOutOfRange { id: u32 },
    /// An earlier record has the same id.
    DuplicateId { id: u32 },
}

/// Record `i` of `s` breaks a question's invariant or repeats an earlier id.
pub open spec fn faulty(s: Seq<QuestionView>, i: int) -> bool {
    ||| !s[i].wf()
    ||| exists|j: int| 0 <= j < i && s[j].id == s[i].id
}

/// The error reported for record `i` of `s`, which is faulty.
pub open spec fn fault_of(s: Seq<QuestionView>, i: int) -> DatasetError {
    if s[i].options.len() < 2 {
        DatasetError::TooFewOptions { id: s[i].id }
    } else if s[i].correct >= s[i].options.len() {
        DatasetError::CorrectOutOfRange { id: s[i].id }
    } else {
        DatasetError::DuplicateId { id: s[i].id }
    }
}

/// Every record is a valid question and no id repeats.
pub open spec fn store_wf(s: Seq<QuestionView>) -> bool {
    &&& forall|i: int| 0 <= i < s.len() ==> (#[trigger] s[i]).wf()
    &&& unique_ids(s)
}

/// `answer` is the correct index of the first question of `s` with id `id`.
pub open spec fn answer_is_correct(s: Seq<QuestionView>, id: u32, answer: usize) -> bool {
    exists|i: int|
        0 <= i < s.len() && #[trigger] s[i].id == id && s[i].correct == answer && forall|j: int|
            0 <= j < i ==> s[j].id != id
}

/// The question store, fixed once loaded.
pub struct AppState {
    pub questions: Vec<Question>,
}

impl AppState {
    /// The value of the store.
    pub open spec fn store(&self) -> Seq<QuestionView> {
        views(self.questions@)
    }

    /// A store over `questions`, or the first record that breaks the store's invariants.
    pub fn new(questions: Vec<Question>) -> (r: Result<AppState, DatasetError>)
        ensures
            r is Ok <==> store_wf(views(questions@)),
            r matches Ok(st) ==> st.questions@ == questions@,
            r matches Err(e) ==> exists|i: int|
                0 <= i < questions@.len() && #[trigger] faulty(views(questions@), i)
                    && (forall|j: int| 0 <= j < i ==> !faulty(views(questions@), j))
                    && e == fault_of(views(questions@), i),
    {
        let ghost s = views(questions@);
        let mut i: usize = 0;
        while i < questions.len()
            invariant
                i <= questions@.len(),
                s == views(questions@),
                forall|k: int| 0 <= k < i ==> !faulty(s, k),
            decreases questions@.len() - i,
        {
            let q = &questions[i];
            let bad_id = q.id;
            if q.options.len() < 2 {
                assert(faulty(s, i as int));
                return Err(DatasetError::TooFewOptions { id: bad_id });
            }
            if q.correct >= q.options.len() {
                assert(faulty(s, i as int));
                return Err(DatasetError::CorrectOutOfRange { id: bad_id });
            }
            let mut j: usize = 0;
            while j < i
                invariant
                    j <= i < questions@.len(),
                    s == views(questions@),
                    bad_id == s[i as int].id,
                    s[i as int].wf(),
                    forall|k: int| 0 <= k < i ==> !faulty(s, k),
                    forall|m: int| 0 <= m < j ==> s[m].id != bad_id,
                decreases i - j,
            {
                if questions[j].id == bad_id {
                    assert(s[j as int].id == s[i as int].id);
                    assert(faulty(s, i as int));
                    return Err(DatasetError::DuplicateId { id: bad_id });
                }
                j = j + 1;
            }
            assert(!faulty(s, i as int));
            i = i + 1;
        }
        assert(store_wf(s)) by {
            assert forall|a: int, b: int|
                0 <= a < s.len() && 0 <= b < s.len() && a != b implies s[a].id != s[b].id by {
                if a < b {
                    assert(!faulty(s, b));
                } else {
                    assert(!faulty(s, a));
                }
            }
            assert forall|a: int| 0 <= a < s.len() implies (#[trigger] s[a]).wf() by {
                assert(!faulty(s, a));
            }
        }
        Ok(AppState { questions })
    }
}

/// A fresh session drawn from the store.
pub fn new_quiz(state: &AppState) -> (r: QuizSession)
    ensures
        r.drawn_from(state.store()),
{
    create_session(state.questions.as_slice())
}

/// Whether `answer` is the correct index of the first question with id `question_id`; an
/// unknown id gives `false`.
pub fn check_answer(state: &AppState, question_id: u32, answer: usize) -> (r: bool)
    ensures
        r == answer_is_correct(state.store(), question_id, answer),
{
    let ghost s = state.store();
    let mut i: usize = 0;
    while i < state.questions.len()
        invariant
            i <= state.questions@.len(),
            s == state.store(),
            forall|j: int| 0 <= j < i ==> s[j].id != question_id,
        decreases state.questions@.len() - i,
    {
        let q = &state.questions[i];
        if q.id == question_id {
            assert(s[i as int].id == question_id);
            return q.correct == answer;
        }
        i = i + 1;
    }
    false
}

/// A copy of the whole store, correct indices included.
pub fn get_questions(state: &AppState) -> (r: Vec<Question>)
    ensures
        views(r@) == state.store(),
{
    let mut out: Vec<Question> = Vec::new();
    let mut i: usize = 0;
    while i < state.questions.len()
        invariant
            i <= state.questions@.len(),
            out@.len() == i,
            forall|k: int| 0 <= k < i ==> out@[k]@ == state.questions@[k]@,
        decreases state.questions@.len() - i,
    {
        out.push(state.questions[i].duplicate());
        i = i + 1;
    }
    assert(views(out@) =~= state.store());
    out
}

/// In a valid store, each question's own correct index is accepted for its id, and every
/// other index is refused.
pub proof fn lemma_correct_answer_accepted(s: Seq<QuestionView>, k: int, wrong: usize)
    requires
        store_wf(s),
        0 <= k < s.len(),
        wrong != s[k].correct,
    ensures
        answer_is_correct(s, s[k].id, s[k].correct),
        !answer_is_correct(s, s[k].id, wrong),
{
    assert(s[k].id == s[k].id);
    if answer_is_correct(s, s[k].id, wrong) {
        let i = choose|i: int|
            0 <= i < s.len() && #[trigger] s[i].id == s[k].id && s[i].correct == wrong
                && forall|j: int| 0 <= j < i ==> s[j].id != s[k].id;
        assert(i == k);
    }
}

/// An id that no question of the store has is never answered correctly.
pub proof fn lemma_unknown_id_refused(s: Seq<QuestionView>, id: u32, answer: usize)
    requires
        forall|i: int| 0 <= i < s.len() ==> (#[trigger] s[i]).id != id,
    ensures
        !answer_is_correct(s, id, answer),
{
}

} // verus!
