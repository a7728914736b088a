//! Decisions and text of a local cursor-nudging controller.
pub mod agent;
pub mod cli;
pub mod http;
pub mod report;
pub mod text;
pub mod worker;
