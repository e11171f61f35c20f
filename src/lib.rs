//! An interactive viewer of the files changed in a git working tree: a
//! fuzzy-filtered file list, a fallback chain for fetching a colourised diff,
//! a decoder of colour-coded output into styled lines, and the controller
//! that ties them to key presses.

pub mod config;
pub mod controller;
pub mod diff;
pub mod fuzzy;
pub mod markup;
pub mod repository;
