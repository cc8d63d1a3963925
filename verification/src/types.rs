//! Plain data handed to extension points: commands to spawn and code labels.

use crate::strings::{spec_ends_with, str_ends_with};
use vstd::prelude::*;

verus! {

/// Whether the value of an environment variable with this name must not be
/// shown: names ending in a well-known sensitive suffix are kept out of any
/// description of a command.
pub open spec fn spec_should_redact(name: Seq<char>) -> bool {
    ||| spec_ends_with(name, "KEY"@)
    ||| spec_ends_with(name, "SECRET"@)
    ||| spec_ends_with(name, "TOKEN"@)
    ||| spec_ends_with(name, "PASSWORD"@)
}

/// Decides whether an environment variable's value is sensitive and must be
/// replaced before a command is described anywhere.
pub fn should_redact(env_var_name: &str) -> (r: bool)
    ensures
        r == spec_should_redact(env_var_name@),
{
    str_ends_with(env_var_name, "KEY") || str_ends_with(env_var_name, "SECRET") || str_ends_with(
        env_var_name,
        "TOKEN",
    ) || str_ends_with(env_var_name, "PASSWORD")
}

/// A command to execute, with arguments and environment. The type has no
/// derived debug formatting on purpose: any description of a command must
/// go through [`Command::redacted_env`], which keeps sensitive values out.
pub struct Command {
    /// The program to execute.
    pub command: String,
    /// The arguments to pass to the program.
    pub args: Vec<String>,
    /// The environment variables to set for the program.
    pub env: Vec<(String, String)>,
}

impl Command {
    /// The environment with every sensitive value replaced by a marker, for
    /// display: entry order and names are kept, and a value is replaced
    /// exactly when its name is sensitive.
    #[verifier::loop_isolation(false)]
    pub fn redacted_env(&self) -> (r: Vec<(String, String)>)
        ensures
            r@.len() == self.env@.len(),
            forall|i: int|
                0 <= i < r@.len() ==> #[trigger] r@[i].0@ == self.env@[i].0@ && r@[i].1@ == if
                    spec_should_redact(self.env@[i].0@) {
                    "[REDACTED]"@
                } else {
                    self.env@[i].1@
                },
    {
        let mut r: Vec<(String, String)> = Vec::new();
        let mut i: usize = 0;
        while i < self.env.len()
            invariant
                i <= self.env@.len(),
                r@.len() == i,
                forall|j: int|
                    0 <= j < i ==> #[trigger] r@[j].0@ == self.env@[j].0@ && r@[j].1@ == if
                        spec_should_redact(self.env@[j].0@) {
                        "[REDACTED]"@
                    } else {
                        self.env@[j].1@
                    },
            decreases self.env@.len() - i,
        {
            let (name, value) = &self.env[i];
            let shown = if should_redact(name.as_str()) {
                "[REDACTED]".to_owned()
            } else {
                value.clone()
            };
            r.push((name.clone(), shown));
            i += 1;
        }
        r
    }
}

/// A half-open range of character offsets into a label's code.
#[derive(Debug, Copy, Clone, PartialEq, Eq, Structural)]
pub struct TextRange {
    pub start: usize,
    pub end: usize,
}

/// A label containing some code.
#[derive(Debug)]
pub struct CodeLabel {
    /// The source code to parse.
    pub code: String,
    /// The spans to display in the label.
    pub spans: Vec<CodeLabelSpan>,
    /// The range of the displayed label to include when filtering.
    pub filter_range: TextRange,
}

/// A span within a code label.
#[derive(Debug)]
pub enum CodeLabelSpan {
    /// A range into the parsed code.
    CodeRange(TextRange),
    /// A span containing a code literal.
    Literal(CodeLabelSpanLiteral),
}

/// A span containing a code literal.
#[derive(Debug)]
pub struct CodeLabelSpanLiteral {
    /// The literal text.
    pub text: String,
    /// The name of the highlight to use for this literal.
    pub highlight_name: Option<String>,
}

impl Clone for CodeLabelSpanLiteral {
    fn clone(&self) -> (res: Self)
        ensures
            res == *self,
    {
        let highlight_name = match &self.highlight_name {
            Some(name) => Some(name.clone()),
            None => None,
        };
        CodeLabelSpanLiteral { text: self.text.clone(), highlight_name }
    }
}

impl Clone for CodeLabelSpan {
    fn clone(&self) -> (res: Self)
        ensures
            res == *self,
    {
        match self {
            CodeLabelSpan::CodeRange(range) => CodeLabelSpan::CodeRange(*range),
            CodeLabelSpan::Literal(literal) => CodeLabelSpan::Literal(literal.clone()),
        }
    }
}

impl Clone for CodeLabel {
    fn clone(&self) -> (res: Self)
        ensures
            res.code == self.code,
            res.spans@ == self.spans@,
            res.filter_range == self.filter_range,
    {
        let mut spans: Vec<CodeLabelSpan> = Vec::new();
        let mut i: usize = 0;
        while i < self.spans.len()
            invariant
                i <= self.spans@.len(),
                spans@ == self.spans@.take(i as int),
            decreases self.spans@.len() - i,
        {
            spans.push(self.spans[i].clone());
            proof {
                assert(spans@ =~= self.spans@.take(i + 1));
            }
            i += 1;
        }
        proof {
            assert(spans@ =~= self.spans@);
        }
        CodeLabel { code: self.code.clone(), spans, filter_range: self.filter_range }
    }
}

} // verus!
