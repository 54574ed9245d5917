//! Typed questions for the System One API ("Jev"): the static description
//! of each question, the checks that a description is well formed, the
//! request body sent for a batch of questions, the integer side of decoding
//! answers, and the decisions of a retrying client.
//!
//! The crate does no I/O: sending over HTTP, waiting between attempts and
//! reading environment variables are left to the caller, who hands the
//! outcome of each attempt to [`RetryPolicy::next_step`].

pub mod client;
pub mod decode;
pub mod error;
pub mod json;
pub mod request;
pub mod spec;
pub mod text;
pub mod time;

pub use client::{
    Client, ClientBuilder, HttpRequest, HttpResponse, RetryPolicy, Step, Transport,
    TransportError, Usage, DEFAULT_BASE_URL, DEFAULT_MODEL,
};
pub use decode::{best_index, level_slot, level_slots, rank_items, ranking, DecodeError};
pub use error::{expect_answer, AnswerKind, ApiError, Error};
pub use request::Request;
pub use spec::{
    check_choice, check_noul, check_score, find_choice_problem, find_noul_problem,
    find_score_problem, Choice, ChoiceOption, ChoiceSpec, Noul, NoulSpec, Score,
    ScoreLevel, ScoreSpec, SpecError, MAX_CHOICE_OPTIONS, MAX_SCORE_LEVELS, MIN_SCORE_LEVELS,
};
