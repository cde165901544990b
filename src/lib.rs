//! Recognition of commit messages written in the Conventional Commits format.
//!
//! A message is read into a [`Commit`] whose parts borrow from the message
//! text: a type, an optional scope, a description, an optional body, a
//! breaking-change flag, and an ordered list of footers.

pub mod commit;
pub mod component;
pub mod error;
pub mod grammar;
pub mod laws;
mod parser;
pub mod simple;
mod text;

pub use commit::Commit;
pub use component::{
    Body, Description, Footer, FooterSeparator, FooterToken, FooterValue, Scope, SimpleFooter,
    Type,
};
pub use error::{Error, ErrorKind};
pub use simple::Simple;
