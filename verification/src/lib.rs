//! Core of a small multi-service backend: credential hashing and
//! verification, Basic-authorization header parsing, capability link
//! management, the authority-to-relying-service relay of failures, and the
//! wire error envelope shared by all services.

pub mod seqs;
pub mod errors;
pub mod json;
pub mod crypto;
pub mod codec;
pub mod utility;
pub mod store;
pub mod resolver;
pub mod links;
pub mod clients;
pub mod auth;
pub mod dto;
pub mod endpoints;
pub mod files;
