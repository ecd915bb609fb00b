//! A gateway between an HTTP-style request and an external program that speaks
//! the Common Gateway Interface: request metadata is handed over as
//! meta-variables, and the program's output is decoded into a response.

pub mod auth;
pub mod body;
pub mod git;
pub mod guards;
pub mod mount;
pub mod output;
pub mod output_proofs;
pub mod script;
pub mod text;
pub mod util;
