//! Quiz sessions drawn at random from a fixed question store, and answer checks.

pub mod quiz;
pub mod store;

pub use quiz::{
    create_session, session_from_shuffled, Question, QuestionView, QuizSession,
    MAX_SESSION_QUESTIONS,
};
pub use store::{check_answer, get_questions, new_quiz, AppState, DatasetError};
