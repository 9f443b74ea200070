//! Template variables: the fixed record of the eight legal variable names
//! and the value each maps to during substitution.

use vstd::prelude::*;

use crate::text::dec_str;
use crate::text::u32_string;
use crate::text::chars_eq_str;
use vstd::string::*;

verus! {

/// The variables a commit-message template may reference.
///
/// Exactly eight names are legal in templates: `commit_number`,
/// `commit_type`, `branch_name`, `message`, `date`, `time`, `author` and
/// `email`. An absent commit number maps to the empty string.
#[derive(Debug, Clone)]
pub struct TemplateVariables {
    pub commit_number: Option<u32>,
    pub commit_type: String,
    pub branch_name: String,
    pub message: String,
    pub date: String,
    pub time: String,
    pub author: String,
    pub email: String,
}

/// The value a variable name maps to: the matching field for the eight
/// legal names, the empty string for any other name. An absent commit
/// number also maps to the empty string.
pub open spec fn var_value(v: TemplateVariables, name: Seq<char>) -> Seq<char> {
    if name == "commit_number"@ {
        match v.commit_number {
            Some(n) => dec_str(n as nat),
            None => Seq::empty(),
        }
    } else if name == "commit_type"@ {
        v.commit_type@
    } else if name == "branch_name"@ {
        v.branch_name@
    } else if name == "message"@ {
        v.message@
    } else if name == "date"@ {
        v.date@
    } else if name == "time"@ {
        v.time@
    } else if name == "author"@ {
        v.author@
    } else if name == "email"@ {
        v.email@
    } else {
        Seq::empty()
    }
}

/// Whether a variable name is one of the eight legal names.
pub open spec fn is_legal_name(name: Seq<char>) -> bool {
    ||| name == "commit_number"@
    ||| name == "commit_type"@
    ||| name == "branch_name"@
    ||| name == "message"@
    ||| name == "date"@
    ||| name == "time"@
    ||| name == "author"@
    ||| name == "email"@
}

/// Checks whether the characters in `name` form a legal variable name.
pub fn legal_name_chars(name: &Vec<char>) -> (r: bool)
    ensures
        r == is_legal_name(name@),
{
    chars_eq_str(name, "commit_number") || chars_eq_str(name, "commit_type") || chars_eq_str(
        name,
        "branch_name",
    ) || chars_eq_str(name, "message") || chars_eq_str(name, "date") || chars_eq_str(name, "time")
        || chars_eq_str(name, "author") || chars_eq_str(name, "email")
}

impl TemplateVariables {
    /// The value mapped to `name`, as a fresh string; the empty string for
    /// an unknown name or an absent commit number.
    pub fn value_of(&self, name: &str) -> (r: String)
        ensures
            r@ == var_value(*self, name@),
    {
        let chars = crate::text::chars_of(name);
        self.value_of_chars(&chars)
    }

    /// The value mapped to the name given as characters.
    pub fn value_of_chars(&self, name: &Vec<char>) -> (r: String)
        ensures
            r@ == var_value(*self, name@),
    {
        if chars_eq_str(name, "commit_number") {
            match self.commit_number {
                Some(n) => u32_string(n),
                None => String::new(),
            }
        } else if chars_eq_str(name, "commit_type") {
            self.commit_type.clone()
        } else if chars_eq_str(name, "branch_name") {
            self.branch_name.clone()
        } else if chars_eq_str(name, "message") {
            self.message.clone()
        } else if chars_eq_str(name, "date") {
            self.date.clone()
        } else if chars_eq_str(name, "time") {
            self.time.clone()
        } else if chars_eq_str(name, "author") {
            self.author.clone()
        } else if chars_eq_str(name, "email") {
            self.email.clone()
        } else {
            String::new()
        }
    }

    /// Whether the name maps to a non-empty value.
    pub fn has_value_chars(&self, name: &Vec<char>) -> (r: bool)
        ensures
            r == (var_value(*self, name@).len() > 0),
    {
        let v = self.value_of_chars(name);
        v.as_str().unicode_len() > 0
    }

    /// The variables as a list of name/value pairs, one for each of the
    /// eight legal names. An absent commit number appears as the empty
    /// string.
    pub fn to_map(&self) -> (r: Vec<(String, String)>)
        ensures
            r@.len() == 8,
            forall|k: int| 0 <= k < 8 ==> (#[trigger] r@[k]).1@ == var_value(*self, r@[k].0@),
            r@[0].0@ == "commit_type"@,
            r@[1].0@ == "branch_name"@,
            r@[2].0@ == "message"@,
            r@[3].0@ == "date"@,
            r@[4].0@ == "time"@,
            r@[5].0@ == "author"@,
            r@[6].0@ == "email"@,
            r@[7].0@ == "commit_number"@,
    {
        let mut r: Vec<(String, String)> = Vec::new();
        r.push((String::from_str("commit_type"), self.value_of("commit_type")));
        r.push((String::from_str("branch_name"), self.value_of("branch_name")));
        r.push((String::from_str("message"), self.value_of("message")));
        r.push((String::from_str("date"), self.value_of("date")));
        r.push((String::from_str("time"), self.value_of("time")));
        r.push((String::from_str("author"), self.value_of("author")));
        r.push((String::from_str("email"), self.value_of("email")));
        r.push((String::from_str("commit_number"), self.value_of("commit_number")));
        r
    }
}

} // verus!
