use crate::text::chars_of;
use crate::text::equal_chars;
use vstd::prelude::*;

verus! {

/// `Path::extension` of a path.
pub uninterp spec fn path_extension(path: Seq<char>) -> Option<Seq<char>>;

/// Calls `Path::extension`, the extension taken as its text; the result is
/// named, not restated.
#[verifier::external_body]
fn extension_of(path: &str) -> (extension: Option<String>)
    ensures
        crate::text::text_of(extension) == path_extension(path@),
{
    std::path::Path::new(path).extension().map(|e| e.to_string_lossy().into_owned())
}

/// Finds the Rust files under a path.
pub struct RustFileFinder;

impl RustFileFinder {
    /// Whether the path names a Rust source file: its extension is `rs`.
    pub fn is_rust(path: &str) -> (rust: bool)
        ensures
            rust == (path_extension(path@) == Some("rs"@)),
    {
        match extension_of(path) {
            Some(extension) => equal_chars(&chars_of(extension.as_str()), &chars_of("rs")),
            None => false,
        }
    }
}

} // verus!
