//! The code highlighter interface.
//!
//! Syntax highlighting internals are an external collaborator: all the
//! builder relies on is `highlight(code, language)` returning one formatted
//! line per input line, paired with the original line. This highlighter is
//! the plain formatter: it splits the code into lines and formats each line
//! as itself, which keeps the contract exact — formatted and original lines
//! hold the same characters.

use vstd::prelude::*;
use crate::elements::ProgrammingLanguage;
use crate::strutil::{lines_of, split_lines, str_eq};

verus! {

/// One highlighted line: the formatted form and the original line.
#[derive(Debug)]
pub struct CodeLine {
    pub formatted: String,
    pub original: String,
}

/// The highlighter, constructed from a highlighting theme name.
#[derive(Debug)]
pub struct CodeHighlighter {
    pub theme_name: String,
}

impl CodeHighlighter {
    /// The highlighting theme names this highlighter knows.
    pub open spec fn known_theme(name: Seq<char>) -> bool {
        name == "base16-ocean.dark"@ || name == "base16-ocean.light"@
    }

    /// Construct a highlighter for the named highlighting theme.
    pub fn new(theme_name: &str) -> (r: Option<CodeHighlighter>)
        ensures
            r is Some <==> CodeHighlighter::known_theme(theme_name@),
    {
        if str_eq(theme_name, "base16-ocean.dark") || str_eq(theme_name, "base16-ocean.light") {
            Some(CodeHighlighter { theme_name: String::from_str(theme_name) })
        } else {
            None
        }
    }

    /// Split `code` into lines and format each one; the formatted line of
    /// this plain formatter holds the same characters as the original.
    pub fn highlight(&self, code: &str, _language: &ProgrammingLanguage) -> (r: Vec<CodeLine>)
        ensures
            r@.len() == lines_of(code@).len(),
            forall|i: int| 0 <= i < r@.len() ==> r@[i].formatted@ == lines_of(code@)[i],
            forall|i: int| 0 <= i < r@.len() ==> r@[i].original@ == lines_of(code@)[i],
    {
        let lines = split_lines(code);
        let mut r: Vec<CodeLine> = Vec::new();
        let mut i: usize = 0;
        while i < lines.len()
            invariant
                i <= lines@.len(),
                crate::strutil::strs_abs(lines@) == lines_of(code@),
                r@.len() == i,
                forall|j: int| 0 <= j < i ==> r@[j].formatted@ == lines_of(code@)[j],
                forall|j: int| 0 <= j < i ==> r@[j].original@ == lines_of(code@)[j],
            decreases lines@.len() - i,
        {
            let formatted = lines[i].clone();
            let original = lines[i].clone();
            r.push(CodeLine { formatted, original });
            i = i + 1;
        }
        r
    }
}

} // verus!
