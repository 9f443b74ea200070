//! Error types for the library.

use vstd::prelude::*;
use vstd::string::*;

verus! {

/// The comma-separated list of the legal variable names, as shown in
/// error messages.
pub open spec fn valid_variables_listing() -> Seq<char> {
    "commit_number, commit_type, branch_name, message, date, time, author, email"@
}

/// An error found while validating or rendering a template.
#[derive(Debug, Clone, PartialEq, Eq)]
pub enum TemplateError {
    /// An opening conditional tag has no matching closing tag after it.
    UnclosedConditionalBlock(String),
    /// A closing conditional tag remains after all opening tags were paired.
    UnmatchedClosingTag(String),
    /// A paired conditional names a variable outside the legal vocabulary.
    UnknownConditionalVariable(String),
    /// A plain placeholder names a variable outside the legal vocabulary.
    UnknownVariable(String),
}

impl TemplateError {
    /// The error's message text.
    pub fn message(&self) -> (r: String)
        ensures
            match self {
                TemplateError::UnclosedConditionalBlock(n) => r@ == "Unclosed conditional block: {?"@
                    + n@ + "}"@,
                TemplateError::UnmatchedClosingTag(n) => r@ == "Unmatched closing tag: {/"@ + n@
                    + "}"@,
                TemplateError::UnknownConditionalVariable(n) => r@
                    == "Unknown variable in conditional block: {?"@ + n@
                    + "}. Valid variables are: "@ + valid_variables_listing(),
                TemplateError::UnknownVariable(n) => r@ == "Unknown template variable: {"@ + n@
                    + "}. Valid variables are: "@ + valid_variables_listing(),
            },
    {
        let mut s = String::new();
        match self {
            TemplateError::UnclosedConditionalBlock(n) => {
                s.append("Unclosed conditional block: {?");
                s.append(n.as_str());
                s.append("}");
                proof {
                    assert(s@ =~= "Unclosed conditional block: {?"@ + n@ + "}"@);
                }
            },
            TemplateError::UnmatchedClosingTag(n) => {
                s.append("Unmatched closing tag: {/");
                s.append(n.as_str());
                s.append("}");
                proof {
                    assert(s@ =~= "Unmatched closing tag: {/"@ + n@ + "}"@);
                }
            },
            TemplateError::UnknownConditionalVariable(n) => {
                s.append("Unknown variable in conditional block: {?");
                s.append(n.as_str());
                s.append("}. Valid variables are: ");
                s.append(
                    "commit_number, commit_type, branch_name, message, date, time, author, email",
                );
                proof {
                    assert(s@ =~= "Unknown variable in conditional block: {?"@ + n@
                        + "}. Valid variables are: "@ + valid_variables_listing());
                }
            },
            TemplateError::UnknownVariable(n) => {
                s.append("Unknown template variable: {");
                s.append(n.as_str());
                s.append("}. Valid variables are: ");
                s.append(
                    "commit_number, commit_type, branch_name, message, date, time, author, email",
                );
                proof {
                    assert(s@ =~= "Unknown template variable: {"@ + n@
                        + "}. Valid variables are: "@ + valid_variables_listing());
                }
            },
        }
        s
    }
}

/// An error from path containment checks.
#[derive(Debug, Clone, PartialEq, Eq)]
pub enum PathError {
    /// The file path is empty.
    EmptyFilePath,
    /// The folder path is empty.
    EmptyFolderPath,
}

/// An error from resolving the current branch name out of a head snapshot.
#[derive(Debug, Clone, PartialEq, Eq)]
pub enum BranchError {
    /// The head points at a branch whose short name is unavailable.
    NoShorthand,
    /// The head reference is missing although commits exist.
    HeadUnresolved,
}

} // verus!
