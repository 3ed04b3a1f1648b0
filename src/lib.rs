//! Track detection, solution-file selection and the decisions around the
//! exercise tool's `download` and `submit` commands.
pub mod text;
pub mod track;
pub mod collect;
pub mod download;
pub mod laws;
