//! Finds the albums that a music collection lacks.
//!
//! A collection is a folder of artist folders, each holding one folder for each
//! album. The albums on disk are held against the release groups that the
//! MusicBrainz catalogue lists for the artist, and those that the catalogue has and
//! the collection has not are reported.
//!
//! This library is the engine without the outside world: it decides what to ask,
//! what to make of each answer, what to report and when a query is over. Asking the
//! catalogue, listing folders, waiting for the throttle and passing messages between
//! tasks are left to the program around it, which performs what the library calls
//! for and hands back what came of it.

pub mod catalog;
pub mod command;
pub mod concurrent;
pub mod error;
pub mod folder;
pub mod pagination;
pub mod query;
pub mod queue;
pub mod report;
pub mod scan;
pub mod text;
