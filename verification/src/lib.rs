//! A module-graph resolver and compilation pipeline for TypeScript test
//! files: starting from one entry file, the transitive closure of its local
//! (`./`-prefixed) imports is discovered, each file is compiled from
//! TypeScript with JSX to plain ECMAScript through the external compiler,
//! and every input path is mapped to an output path under a chosen root.
//! Resolution failures carry the offending specifier and its
//! `file:line:column`.

pub mod bundler;
pub mod compiler;
pub mod errors;
pub mod laws;
pub mod paths;
pub mod runner;
pub mod text;
pub mod ts_to_js;
