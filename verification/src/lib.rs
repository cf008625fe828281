//! A verified data-access layer for a web application in which users save and
//! categorize GIFs found through a third-party search API.
//!
//! Two record types live here — a saved-GIF association and a user account —
//! each with the single-table operations the application needs: insert,
//! lookup, listing, and a category update. The stores model the two tables:
//! the rows they hold and the next id the storage layer will assign. Every
//! operation carries a contract saying exactly which rows come back, how the
//! table changes, and when each error is returned; the surrounding
//! application performs the actual database I/O and hands rows and failures
//! to this layer as plain values.

pub mod error;
pub mod gif;
pub mod user;
