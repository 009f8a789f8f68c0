//! Core logic of the OpenViking command line client: argument preprocessing,
//! the CLI context and its identity overrides, request header assembly,
//! response envelope interpretation and the directory-walk filter used when
//! packing uploads.

pub mod args;
pub mod base_client;
pub mod cli;
pub mod error;
pub mod handlers;
pub mod http_types;
pub mod json;
pub mod json_parse;
pub mod text;
pub mod uploader;
