//! Scoring engine of a binary-choice temperament questionnaire.
//!
//! Answers are recorded into batches of seven (`ledger`), tallied per facet
//! position and per dichotomy (`tally`), resolved into a four-letter
//! temperament code (`code`), and the code is matched against the pattern
//! table of the four temperament families (`classify`).

pub mod answer;
pub mod classify;
pub mod code;
pub mod ledger;
pub mod tally;

pub use answer::{answer_of_trimmed, parse_reply, Answer, Score};
pub use classify::{classify, Classification, TemperamentType, Temperaments};
pub use code::{code_from_tallies, resolve};
pub use ledger::ScoringGrid;
pub use tally::aggregate;
