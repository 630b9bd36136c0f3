//! A checkout ledger for a small library: which book is lent to whom, with
//! at most one active loan per book and an append-only record of every
//! completed loan.

pub mod ids;
pub mod model;
pub mod catalog;
pub mod guard;
pub mod ledger;
pub mod history;
pub mod laws;
pub mod requests;
