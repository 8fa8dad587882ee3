//! The test runner: requests made ready, runs planned and told.

pub mod assertions;
pub mod check_laws;
pub mod checks;
pub mod data;
pub mod events;
pub mod execute;
pub mod hooks;
pub mod label_laws;
pub mod plan;
pub mod plan_laws;
pub mod report;
pub mod request_laws;
pub mod resolve;
pub mod run;
pub mod suite_laws;
