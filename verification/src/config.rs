//! Configuration as this library consumes it: named log sources, each with a
//! path and a template. Loading it from disk is the caller's business; only
//! the `pattern` field feeds this library's compiler.
use vstd::prelude::*;

use std::collections::HashMap;

verus! {

/// One log source: a display name, the file path, and the line template.
#[derive(Debug)]
pub struct Log {
    pub name: String,
    pub path: String,
    pub pattern: String,
}

/// The whole configuration: log sources by name.
#[derive(Debug)]
pub struct Config {
    pub logs: HashMap<String, Log>,
}

} // verus!
