//! The verified core of SoulBook, a collaborative knowledge base: the rules
//! of spaces and team workspaces, the GitHub export of documents, AI task
//! results, settings, tags and the SoulAuth login flow.

use vstd::prelude::*;

pub mod ai_tasks;
pub mod encoding;
pub mod error;
pub mod fields;
pub mod git_sync;
pub mod models;
pub mod num;
pub mod oidc;
pub mod settings;
pub mod spaces;
pub mod tags;
pub mod text;
pub mod workspace;

verus! {

} // verus!
