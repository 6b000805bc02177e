//! Python hook environments: how an interpreter is chosen, how `uv` is found or
//! downloaded, and what is retried when dependencies ask for a newer interpreter.

pub mod command_laws;
pub mod env_vars;
pub mod inferred_retry;
pub mod install;
pub mod install_laws;
pub mod paths;
pub mod process;
pub mod python;
pub mod request;
pub mod request_laws;
pub mod retry_laws;
pub mod store;
pub mod text;
pub mod text_laws;
pub mod uv;
pub mod uv_laws;
pub mod version;
