//! Extraction of coding-sequence (CDS) exon records from GTF annotation text.
//!
//! The library turns the bytes of a GTF annotation stream into a simplified
//! tab-separated table, one row per CDS record, optionally restricted to a
//! set of gene identifiers. All parsing and filtering logic is verified;
//! file handling and the command line live outside the library.

pub mod bytes;
pub mod num;
pub mod attrs;
pub mod genes;
pub mod gtf;
pub mod gz;
pub mod pipeline;
pub mod laws;
