use vstd::prelude::*;

use std::collections::HashMap;

verus! {

/// The tool's configuration: general settings and one entry per file type.
pub struct Config {
    pub general: General,
    pub filetype: HashMap<String, Filetype>,
}

pub struct General {
    pub selenium_browser: String,
    pub default_filetype: Option<String>,
    pub editor_command: String,
}

/// How solutions in one language are laid out, built and run.
pub struct Filetype {
    pub language: String,
    pub main: String,
    pub run: String,
    pub source_templates: Option<Vec<String>>,
    pub root_templates: Option<Vec<String>>,
    pub compile: Option<String>,
    pub after: Option<String>,
}

/// The directory, under the base, where solved problems are archived.
pub fn default_archive_dir() -> (r: String)
    ensures
        r@ == seq!['a', 'r', 'c', 'h', 'i', 'v', 'e', 's'],
{
    proof {
        reveal_strlit("archives");
    }
    String::from_str("archives")
}

} // verus!
