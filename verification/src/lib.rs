//! A small command-line option parser: declare the options an application
//! understands, scan an argument list against them, and query what was given.

pub mod matching;
pub mod option;
pub mod options_manager;
