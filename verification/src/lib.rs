//! Keeps a spreadsheet ledger in step with a video channel's catalog.
//!
//! The catalog and the ledger are matched by normalized title. Videos that
//! the ledger does not know yet become rows to append; videos whose row
//! carries a clip window, and which are neither downloaded nor online,
//! become clips to download. Reading the two sources, appending the rows and
//! fetching the clips are left to the caller: this crate decides, and says
//! with which requests its decisions are carried out.

pub mod error;
pub mod laws;
pub mod ledger;
pub mod reconcile;
pub mod request;
pub mod spreadsheet;
pub mod text;
pub mod timestamp;
pub mod title;
pub mod youtube;
