//! A source-line counter: walks a modelled directory tree, classifies each
//! file by its extension, counts total and non-blank lines, and aggregates
//! the results per language.

pub mod language;
pub mod ignore;
pub mod record;
pub mod report;
pub mod scan;
