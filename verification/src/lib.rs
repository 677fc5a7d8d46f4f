//! Query several package managers for the status of a named package.
//!
//! The library is the backend-neutral core of that job: for each supported
//! backend it interprets the captured output of the backend's command-line
//! tool under that backend's line grammar, classifies the package as
//! installed, available or not found, and aggregates the per-backend
//! results into one deterministically ordered report.  Running the
//! backend commands and presenting the report are left to the caller.

pub mod aggregate;
pub mod apt;
pub mod cargo;
pub mod dispatch;
pub mod go;
pub mod model;
pub mod snap;
pub mod text;
pub mod yay;
