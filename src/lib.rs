//! Arbitration core of a timed riddle-guessing contest: the contest window
//! check, the attempt ledger, the riddle state store with its conditional
//! winning transition, and the submission engine built from them.
pub mod answer;
pub mod assets;
pub mod authoring;
pub mod clock;
pub mod decimal;
pub mod display;
pub mod engine;
pub mod export;
pub mod identity;
pub mod import;
pub mod laws;
pub mod ledger;
pub mod models;
pub mod notify;
pub mod params;
pub mod riddle_store;
pub mod sheet;
pub mod text;
pub mod window;
