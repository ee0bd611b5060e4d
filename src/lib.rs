//! Transaction-status and multixact bookkeeping for PostgreSQL's
//! non-relation files (CLOG, CSN log, SLRU segments, multixact members).
#![allow(non_snake_case)]

pub mod page;

pub mod nonrelfile_utils;
pub mod pg_constants;
pub mod transam;

