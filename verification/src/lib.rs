//! Bulk operations against an object store, without the I/O: the adaptive
//! timeout and retry engine, the pagination of listings, and the requests that
//! deleting, copying and moving a listing consist of.
//!
//! Fractional quantities are fixed-point numbers in millionths, see
//! [`config::SCALE`]; durations are whole microseconds.

pub mod config;
pub mod error;
pub mod list_actions;
pub mod listing;
pub mod request;
pub mod timeout;
pub mod transfer;

pub use config::{Config, RequestConfig, SCALE};
pub use error::{Error, RequestError};
pub use list_actions::{DeleteBatch, ListObjects, ListRequest, S3Algo};
pub use listing::{Item, Object, Page, Pager};
pub use request::{Outcome, RequestState, Step};
pub use timeout::TimeoutState;
pub use transfer::{CopyRequest, DeleteRequest, Operation, Transfer, TransferStep};
