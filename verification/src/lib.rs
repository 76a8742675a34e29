//! Password-based content protection for a note-taking application: an
//! authenticated encryption codec with password key derivation, a rate
//! limiter that gates unlock attempts per resource and globally with
//! exponential backoff, the unlock protocol that sequences the two, and the
//! pure helpers the surrounding application leans on.

pub mod calendar;
pub mod crypto;
pub mod encryption;
pub mod envelope;
pub mod folders;
pub mod import_export;
pub mod metadata;
pub mod notes;
pub mod security;
pub mod templates;
pub mod text;
pub mod trash;
pub mod unlock;
pub mod utils;
pub mod wiki;
