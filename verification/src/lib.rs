//! Keeps the parentheses of Lisp code balanced.
//!
//! The balancing itself is Parinfer's. This library decides what Parinfer gets
//! to see, what is made of its answer, and what the user is shown:
//!
//! - [`language`]: the dialects and their notation
//! - [`comments`]: taking comments out of code and putting them back
//! - [`reader`]: the literals and comments that span lines
//! - [`balance`]: the request to the balancer, and the text made of its answer
//! - [`diff`]: the difference between a text and its balanced form
//! - [`report`]: what is printed and written, and the exit code
//! - [`text`], [`encoding`]: lines, white space and UTF-8
//!
//! What holds of these as a whole is stated in [`text_laws`],
//! [`search_laws`], [`reader_laws`], [`comment_laws`], [`diff_laws`],
//! [`report_laws`] and at the end of [`balance`] and [`language`].

pub mod balance;
pub mod comment_laws;
pub mod comments;
pub mod diff;
pub mod diff_laws;
pub mod encoding;
pub mod language;
pub mod reader;
pub mod reader_laws;
pub mod report;
pub mod report_laws;
pub mod search_laws;
pub mod text;
pub mod text_laws;
