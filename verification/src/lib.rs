pub mod capture;
pub mod cli;
pub mod clock;
pub mod config;
pub mod daemon;
pub mod email;
pub mod error;
pub mod launchd;
pub mod paths;
pub mod processor;
pub mod summarizer;
pub mod text;
