use vstd::prelude::*;

verus! {

/// Failures the library and its callers distinguish.
///
/// `TemplateRead` and `FileRead` are produced by the I/O layer around the
/// library when the template file or a candidate file cannot be read;
/// `PatternCompile` is produced by the library itself when the compiled
/// pattern text is refused by the pattern engine (which correct escaping
/// should prevent, but which is surfaced rather than swallowed).
#[derive(Debug, PartialEq, Eq)]
pub enum Error {
    TemplateRead(String),
    PatternCompile(String),
    FileRead(String),
}

} // verus!
