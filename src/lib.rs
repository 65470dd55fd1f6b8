//! Dynamic-DNS reconciliation: request field extraction, IP literal
//! syntax, the host record model and the update reconciler.

pub mod chars;
pub mod ip;
pub mod request;
pub mod host;
pub mod reconcile;
pub mod model;
pub mod response;
