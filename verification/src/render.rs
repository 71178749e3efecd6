//! Statement renderers' common surface.  Rendering itself (Markdown and
//! Typst processing, file handling) lives in the application; here
//! stand the checker abstraction and the renderer descriptors.

use vstd::prelude::*;

verus! {

/// A renderer's environment check: whether the tools it needs are
/// present.  The error carries a human-readable explanation.
pub trait Checker {
    fn new(template_dir: String) -> Self where Self: core::marker::Sized;

    fn check_compiler(&self) -> Result<(), String>;
}

/// The Markdown renderer needs no external tool.
#[derive(Debug)]
pub struct MarkdownChecker {}

impl Checker for MarkdownChecker {
    fn new(_template_dir: String) -> (r: MarkdownChecker) {
        MarkdownChecker {  }
    }

    /// Markdown needs no compiler: the check always succeeds.
    fn check_compiler(&self) -> (r: Result<(), String>) {
        Ok(())
    }
}

/// The Typst renderer's checker: it remembers where the template lives;
/// the application verifies the `typst` executable and the template's
/// required files.
#[derive(Debug, Clone)]
pub struct TypstChecker {
    pub template_dir: String,
}

impl TypstChecker {
    /// The template files a Typst template must provide.
    pub fn required_files() -> (r: Vec<&'static str>)
        ensures
            r@.len() == 2,
            r@[0]@ == "main.typ"@,
            r@[1]@ == "utils.typ"@,
    {
        let mut v: Vec<&'static str> = Vec::new();
        v.push("main.typ");
        v.push("utils.typ");
        v
    }

    pub fn new(template_dir: String) -> (r: TypstChecker)
        ensures
            r.template_dir@ == template_dir@,
    {
        TypstChecker { template_dir }
    }
}

} // verus!
