//! The error taxonomy: registration and reload failures, and render
//! failures.

use vstd::prelude::*;

verus! {

/// Why a template could not be registered or reloaded. On any of these the
/// registry keeps the state it had: a failed registration adds nothing, and
/// a failed reload keeps the previous compiled template.
#[derive(Debug)]
pub enum RegistrationError {
    /// The source file's metadata could not be observed.
    Metadata { name: String },
    /// The source file's content could not be read.
    Io { name: String },
    /// The engine rejected the template source.
    Syntax { name: String, message: String },
}

/// Why a render request could not produce content. Both are surfaced to the
/// caller, never retried and never swallowed.
#[derive(Debug)]
pub enum RenderError {
    /// The engine failed: the name is not registered, or execution failed.
    Engine { message: String },
    /// The minifier rejected the rendered text.
    Minify { message: String },
}

} // verus!
