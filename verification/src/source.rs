use vstd::prelude::*;

verus! {

/// The program being run: its file name and its lines, kept for showing diagnostics.
#[derive(Clone)]
pub struct SourceFile {
    pub name: String,
    pub file: Vec<String>,
}

impl SourceFile {
    /// No file: an empty name and no lines.
    pub fn new() -> (s: Self)
        ensures
            s.name@.len() == 0,
            s.file@.len() == 0,
    {
        SourceFile { name: String::new(), file: Vec::new() }
    }
}

} // verus!
