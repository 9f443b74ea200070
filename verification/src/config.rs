//! Configuration: the project configuration record, the runtime
//! configuration with its flags and paths, the default templates, and the
//! fallback commit-message format.
//!
//! Reading and writing configuration files is the surrounding program's
//! business; this module holds the values and the path arithmetic.

use vstd::prelude::*;
use vstd::string::*;

use crate::text::dec_str;
use crate::text::trim_spec;
use crate::text::trimmed;
use crate::text::u32_string;

verus! {

/// The name of the directory used as a configuration root in tests.
pub const CONFIG_FOLDER_NAME: &'static str = "rona-test-config";

/// Project-specific configuration: the editor command, the commit types
/// offered at generation time, and the commit-message template.
#[derive(Debug, Clone)]
pub struct ProjectConfig {
    pub editor: Option<String>,
    pub commit_types: Option<Vec<String>>,
    pub template: Option<String>,
}

/// Whether a project configuration holds the default values: editor
/// `nano`, the five default commit types, and the numbered default
/// template.
pub open spec fn is_default_project_config(c: ProjectConfig) -> bool {
    &&& c.editor matches Some(e) && e@ == "nano"@
    &&& c.commit_types matches Some(ts) && ts@.len() == 5 && ts@[0]@ == "feat"@ && ts@[1]@
        == "fix"@ && ts@[2]@ == "docs"@ && ts@[3]@ == "test"@ && ts@[4]@ == "chore"@
    &&& c.template matches Some(t) && t@ == "[{commit_number}] ({commit_type} on {branch_name}) {message}"@
}

impl Default for ProjectConfig {
    /// The default project configuration.
    fn default() -> (r: Self)
        ensures
            is_default_project_config(r),
    {
        let mut types: Vec<String> = Vec::new();
        types.push(String::from_str("feat"));
        types.push(String::from_str("fix"));
        types.push(String::from_str("docs"));
        types.push(String::from_str("test"));
        types.push(String::from_str("chore"));
        ProjectConfig {
            editor: Some(String::from_str("nano")),
            commit_types: Some(types),
            template: Some(
                String::from_str("[{commit_number}] ({commit_type} on {branch_name}) {message}"),
            ),
        }
    }
}

/// The runtime configuration: the root under which configuration files
/// live, the output flags, and the project configuration.
#[derive(Debug, Clone)]
pub struct Config {
    pub root: String,
    pub verbose: bool,
    pub dry_run: bool,
    pub project_config: ProjectConfig,
}

/// The configuration folder under a root: `root/.config/rona`, with the
/// separator omitted when the root is empty or already ends in one.
pub open spec fn config_folder_spec(root: Seq<char>) -> Seq<char> {
    if root.len() == 0 {
        ".config/rona"@
    } else if root[root.len() - 1] == '/' {
        root + ".config/rona"@
    } else {
        root + "/.config/rona"@
    }
}

impl Config {
    /// A configuration with an empty root, both flags off, and the default
    /// project configuration. The surrounding program supplies the real
    /// root through `with_root`.
    pub fn new() -> (r: Self)
        ensures
            r.root@ == Seq::<char>::empty(),
            !r.verbose,
            !r.dry_run,
            is_default_project_config(r.project_config),
    {
        Config {
            root: String::new(),
            verbose: false,
            dry_run: false,
            project_config: ProjectConfig::default(),
        }
    }

    /// A configuration rooted at the given directory, both flags off, with
    /// the default project configuration.
    pub fn with_root(root: String) -> (r: Self)
        ensures
            r.root@ == root@,
            !r.verbose,
            !r.dry_run,
            is_default_project_config(r.project_config),
    {
        Config { root, verbose: false, dry_run: false, project_config: ProjectConfig::default() }
    }

    /// Sets the verbose flag.
    pub fn set_verbose(&mut self, verbose: bool)
        ensures
            final(self).verbose == verbose,
            final(self).dry_run == old(self).dry_run,
            final(self).root == old(self).root,
            final(self).project_config == old(self).project_config,
    {
        self.verbose = verbose;
    }

    /// Sets the dry-run flag.
    pub fn set_dry_run(&mut self, dry_run: bool)
        ensures
            final(self).dry_run == dry_run,
            final(self).verbose == old(self).verbose,
            final(self).root == old(self).root,
            final(self).project_config == old(self).project_config,
    {
        self.dry_run = dry_run;
    }

    /// The path of the configuration folder under the root.
    pub fn get_config_folder_path(&self) -> (r: String)
        ensures
            r@ == config_folder_spec(self.root@),
    {
        let n = self.root.as_str().unicode_len();
        if n == 0 {
            let r = String::from_str(".config/rona");
            return r;
        }
        let mut r = self.root.clone();
        if self.root.as_str().get_char(n - 1) == '/' {
            r.append(".config/rona");
        } else {
            r.append("/.config/rona");
        }
        r
    }

    /// The path of the configuration file under the root.
    pub fn get_config_file_path(&self) -> (r: String)
        ensures
            r@ == config_folder_spec(self.root@) + "/config.toml"@,
    {
        let mut r = self.get_config_folder_path();
        r.append("/config.toml");
        r
    }
}

/// The default template for the given numbering choice: with the commit
/// number bracket when numbering is on, without it otherwise.
pub fn default_template(no_commit_number: bool) -> (r: &'static str)
    ensures
        no_commit_number ==> r@ == "({commit_type} on {branch_name}) {message}"@,
        !no_commit_number ==> r@
            == "[{commit_number}] ({commit_type} on {branch_name}) {message}"@,
{
    if no_commit_number {
        "({commit_type} on {branch_name}) {message}"
    } else {
        "[{commit_number}] ({commit_type} on {branch_name}) {message}"
    }
}

/// The fallback commit message used when the configured template does not
/// validate: the literal bracketed format over the given values, with the
/// message trimmed.
pub open spec fn fallback_message_spec(
    commit_number: Option<u32>,
    commit_type: Seq<char>,
    branch_name: Seq<char>,
    message: Seq<char>,
) -> Seq<char> {
    let tail = "("@ + commit_type + " on "@ + branch_name + ") "@ + trim_spec(message);
    match commit_number {
        Some(n) => "["@ + dec_str(n as nat) + "] "@ + tail,
        None => tail,
    }
}

/// Formats the fallback commit message for the given values.
pub fn fallback_commit_message(
    commit_number: Option<u32>,
    commit_type: &str,
    branch_name: &str,
    message: &str,
) -> (r: String)
    ensures
        r@ == fallback_message_spec(commit_number, commit_type@, branch_name@, message@),
{
    let mut s = String::new();
    match commit_number {
        Some(n) => {
            s.append("[");
            let num = u32_string(n);
            s.append(num.as_str());
            s.append("] ");
        },
        None => {},
    }
    s.append("(");
    s.append(commit_type);
    s.append(" on ");
    s.append(branch_name);
    s.append(") ");
    let t = trimmed(message);
    s.append(t.as_str());
    proof {
        assert(s@ =~= fallback_message_spec(commit_number, commit_type@, branch_name@, message@));
    }
    s
}

} // verus!
