//! Static binary analysis: identification, hashing, strings, imports,
//! packers, cryptography, security findings, pseudocode and reports.
use vstd::prelude::*;

pub mod api;
pub mod auth;
pub mod base64;
pub mod chat;
pub mod compiler;
pub mod copy;
pub mod crypto_detect;
pub mod decomp;
pub mod diff;
pub mod disasm;
pub mod engine;
pub mod entropy;
pub mod error;
pub mod format;
pub mod graphs;
pub mod hasher;
pub mod ids;
pub mod indicators;
pub mod interchange;
pub mod lexical;
pub mod matcher;
pub mod model;
pub mod network;
pub mod objects;
pub mod order;
pub mod packer;
pub mod pe_signature;
pub mod pipeline;
pub mod providers;
pub mod pseudocode;
pub mod rename;
pub mod report;
pub mod reports;
pub mod runner;
pub mod security;
pub mod semantic;
pub mod storage;
pub mod store;
pub mod table;
pub mod strings;
pub mod text;
