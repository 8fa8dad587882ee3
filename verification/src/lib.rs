//! Forge: the domain core of an API-testing workbench.

pub mod arrangement;
pub mod cli;
pub mod cli_laws;
pub mod convert;
pub mod exec;
pub mod filling_laws;
pub mod gui;
pub mod json;
pub mod listing;
pub mod map;
pub mod mask;
pub mod model;
pub mod openapi;
pub mod path_laws;
pub mod paths;
pub mod pointer;
pub mod protocols;
pub mod reqv1;
pub mod runner;
pub mod schema;
pub mod selection;
pub mod store;
pub mod text;
pub mod vars;
pub mod view;
pub mod words;
