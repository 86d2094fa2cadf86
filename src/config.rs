//! The validator's settings and their defaults. Reading them from files is the
//! caller's business; this module only holds the values.
use crate::parser::names;
use vstd::prelude::*;
use vstd::string::StringExecFns;

verus! {

/// Which marker glyphs a report draws with.
#[derive(Debug, Clone, Copy, PartialEq, Eq, Structural)]
pub enum CharSetConfig {
    Ascii,
    Unicode,
}

/// The settings of the validator.
#[derive(Debug, Clone)]
pub struct Config {
    pub enabled: bool,
    pub title_only: bool,
    pub commits_only: bool,
    pub title_and_commits: bool,
    pub any_commit: bool,
    pub types: Vec<String>,
    pub scopes: Option<Vec<String>>,
    pub allow_merge_commits: bool,
    pub allow_revert_commits: bool,
    pub target_url: String,
    pub charset: CharSetConfig,
}

/// The commit types allowed when nothing else is configured.
pub open spec fn default_type_names() -> Seq<Seq<char>> {
    seq![
        "feat"@,
        "fix"@,
        "docs"@,
        "style"@,
        "refactor"@,
        "perf"@,
        "test"@,
        "build"@,
        "ci"@,
        "chore"@,
        "revert"@,
    ]
}

pub open spec fn default_target_url_text() -> Seq<char> {
    "https://github.com/Ezard/semantic-prs"@
}

pub fn default_true() -> (r: bool)
    ensures
        r,
{
    true
}

pub fn default_types() -> (r: Vec<String>)
    ensures
        names(r@) == default_type_names(),
{
    let r = vec![
        String::from_str("feat"),
        String::from_str("fix"),
        String::from_str("docs"),
        String::from_str("style"),
        String::from_str("refactor"),
        String::from_str("perf"),
        String::from_str("test"),
        String::from_str("build"),
        String::from_str("ci"),
        String::from_str("chore"),
        String::from_str("revert"),
    ];
    assert(names(r@) =~= default_type_names());
    r
}

pub fn default_target_url() -> (r: String)
    ensures
        r@ == default_target_url_text(),
{
    String::from_str("https://github.com/Ezard/semantic-prs")
}

pub fn default_charset() -> (r: CharSetConfig)
    ensures
        r == CharSetConfig::Ascii,
{
    CharSetConfig::Ascii
}

impl Default for Config {
    fn default() -> (r: Self)
        ensures
            r.enabled,
            !r.title_only,
            !r.commits_only,
            !r.title_and_commits,
            !r.any_commit,
            names(r.types@) == default_type_names(),
            r.scopes is None,
            !r.allow_merge_commits,
            !r.allow_revert_commits,
            r.target_url@ == default_target_url_text(),
            r.charset == CharSetConfig::Ascii,
    {
        Self {
            enabled: default_true(),
            title_only: false,
            commits_only: false,
            title_and_commits: false,
            any_commit: false,
            types: default_types(),
            scopes: None,
            allow_merge_commits: false,
            allow_revert_commits: false,
            target_url: default_target_url(),
            charset: default_charset(),
        }
    }
}

} // verus!
