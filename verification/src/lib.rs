//! Tracks open changes on a code-review server: classifies each change's
//! blocking state, remembers when that state last changed, and aggregates
//! tracked changes by who must act next and how long they have been stuck.

pub mod container;
pub mod data;
pub mod discord;
pub mod gerrit;
pub mod report;
pub mod status;
pub mod sync;
pub mod text;
pub mod web;
