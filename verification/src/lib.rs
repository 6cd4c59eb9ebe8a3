//! Reconciles a declared list of editor extensions against two registries.
//!
//! Each declared extension is looked up in the primary registry and
//! classified as directly available there or not ([`lookup`], [`document`]).
//! For what is not, the download location on the secondary registry is
//! built from the identifier alone ([`identifier`], [`fallback`]), the
//! attempt is entered into a ledger with one record per identifier
//! ([`plan`], [`ledger`]), and the transfer is tallied ([`fetch`], [`run`]).
//! [`sync`] holds the decisions in between.
//!
//! The library performs no input or output. Requests, files and the
//! terminal belong to the caller, who hands over what came back and acts on
//! what is returned.

pub mod document;
pub mod fallback;
pub mod fetch;
pub mod host;
pub mod identifier;
pub mod ledger;
pub mod lookup;
pub mod plan;
pub mod run;
pub mod status;
pub mod sync;
pub mod text;
