use vstd::prelude::*;
use vstd::string::*;

verus! {

/// User-tunable settings: the command used to open a selected file, and the
/// two ignore lists consulted by path filtering (directory markers matched
/// against the whole path, and name patterns matched against the file name).
pub struct Config {
    pub open_command: String,
    pub ignored_dirs: Vec<String>,
    pub ignored_patterns: Vec<String>,
}

pub open spec fn spec_default_command() -> Seq<char> {
    "cursor"@
}

pub open spec fn spec_default_dirs() -> Seq<Seq<char>> {
    seq![
        "/.git/"@,
        "/node_modules/"@,
        "/target/"@,
        "/dist/"@,
        "/build/"@,
        "/.idea/"@,
        "/.vscode/"@,
        "/vendor/"@,
        "/.next/"@,
        "/coverage/"@,
        "/yarn.lock"@,
        "/.yarn/"@,
    ]
}

pub open spec fn spec_default_patterns() -> Seq<Seq<char>> {
    seq![".lock"@, ".log"@, ".map"@, ".min.js"@, ".min.css"@, ".bundle."@, ".cache"@]
}

pub fn default_command() -> (r: String)
    ensures
        r@ == spec_default_command(),
{
    String::from_str("cursor")
}

pub fn default_ignored_dirs() -> (r: Vec<String>)
    ensures
        r.deep_view() == spec_default_dirs(),
{
    let mut r: Vec<String> = Vec::new();
    r.push(String::from_str("/.git/"));
    r.push(String::from_str("/node_modules/"));
    r.push(String::from_str("/target/"));
    r.push(String::from_str("/dist/"));
    r.push(String::from_str("/build/"));
    r.push(String::from_str("/.idea/"));
    r.push(String::from_str("/.vscode/"));
    r.push(String::from_str("/vendor/"));
    r.push(String::from_str("/.next/"));
    r.push(String::from_str("/coverage/"));
    r.push(String::from_str("/yarn.lock"));
    r.push(String::from_str("/.yarn/"));
    proof {
        assert(r.deep_view() =~= spec_default_dirs());
    }
    r
}

pub fn default_ignored_patterns() -> (r: Vec<String>)
    ensures
        r.deep_view() == spec_default_patterns(),
{
    let mut r: Vec<String> = Vec::new();
    r.push(String::from_str(".lock"));
    r.push(String::from_str(".log"));
    r.push(String::from_str(".map"));
    r.push(String::from_str(".min.js"));
    r.push(String::from_str(".min.css"));
    r.push(String::from_str(".bundle."));
    r.push(String::from_str(".cache"));
    proof {
        assert(r.deep_view() =~= spec_default_patterns());
    }
    r
}

impl Default for Config {
    /// The built-in configuration, used whenever no configuration file is
    /// read or it cannot be parsed.
    fn default() -> (r: Self)
        ensures
            r.open_command@ == spec_default_command(),
            r.ignored_dirs.deep_view() == spec_default_dirs(),
            r.ignored_patterns.deep_view() == spec_default_patterns(),
    {
        Config {
            open_command: default_command(),
            ignored_dirs: default_ignored_dirs(),
            ignored_patterns: default_ignored_patterns(),
        }
    }
}

} // verus!
