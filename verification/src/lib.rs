//! The rules of bentham, an ambient presence for Discord that sees only those
//! who consent.
//!
//! - `discord`: what comes in, under the consent rules; `consent`, `post`,
//!   `scan` and `reconcile`: who is opted in, and the post whose reactions
//!   decide it
//! - `buffer`: the messages that wait for a session
//! - `supervisor`: when a session is woken, what it is told (`prompts`), and
//!   what becomes of its turn
//! - `tools`, `catalog` and `chunks`: what a session can do; `mcp`: how its
//!   calls come in; `wire`: how records are shown to it
//! - `persona`, `scope`, `state`, `config`: what is kept, and for whom
//! - `privacy`: what holds of every state
//! - `assoc`, `json`, `rows`, `text`: maps, documents, rows and texts

pub mod assoc;
pub mod buffer;
pub mod catalog;
pub mod chunks;
pub mod config;
pub mod consent;
pub mod discord;
pub mod json;
pub mod mcp;
pub mod persona;
pub mod post;
pub mod privacy;
pub mod prompts;
pub mod reconcile;
pub mod rows;
pub mod scan;
pub mod scope;
pub mod state;
pub mod supervisor;
pub mod text;
pub mod tools;
pub mod wire;
