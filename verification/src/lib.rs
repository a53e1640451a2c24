//! Timed lyrics in a canonical model, and a stripper that takes the credit
//! lines off the head and the tail of a lyric document.
//!
//! Every function is verified with Verus against the contract it carries.
//! Regular expressions come from the `regex` crate and lower case from std;
//! what is assumed of them stands in `matcher` and `text`.

pub mod actions;
pub mod cache;
pub mod defaults;
pub mod laws;
pub mod matcher;
pub mod model;
pub mod options;
pub mod rules;
pub mod stripper;
pub mod text;
