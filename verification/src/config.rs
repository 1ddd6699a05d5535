//! Configuration values the pipeline consumes, their defaults, the derived
//! file locations, and path normalization. Reading and writing the settings
//! file is the embedding program's job; the values and rules live here.

use vstd::prelude::*;
use vstd::string::StringExecFns;
use crate::text::{forward_slashes, slashes_of};

verus! {

/// The tunable settings: backend endpoint and credential, batching and
/// splitting limits, the extension allow-list, the exclude patterns, and the
/// retrieval options.
pub struct Settings {
    pub batch_size: usize,
    pub max_lines_per_blob: usize,
    pub base_url: String,
    pub token: String,
    pub text_extensions: Vec<String>,
    pub exclude_patterns: Vec<String>,
    pub max_output_length: u32,
    pub disable_codebase_retrieval: bool,
    pub enable_commit_retrieval: bool,
}

/// The default extension allow-list.
pub open spec fn default_text_extensions() -> Seq<Seq<char>> {
    seq![
        ".py"@, ".js"@, ".ts"@, ".jsx"@, ".tsx"@, ".java"@, ".go"@, ".rs"@, ".cpp"@, ".c"@,
        ".h"@, ".hpp"@, ".cs"@, ".rb"@, ".php"@, ".md"@, ".txt"@, ".json"@, ".yaml"@, ".yml"@,
        ".toml"@, ".xml"@, ".html"@, ".css"@, ".scss"@, ".sql"@, ".sh"@, ".bash"@,
    ]
}

/// The default exclude patterns.
pub open spec fn default_exclude_patterns() -> Seq<Seq<char>> {
    seq![
        ".venv"@, "venv"@, ".env"@, "env"@, "node_modules"@, ".git"@, ".svn"@, ".hg"@,
        "__pycache__"@, ".pytest_cache"@, ".mypy_cache"@, ".tox"@, ".eggs"@, "*.egg-info"@,
        "dist"@, "build"@, ".idea"@, ".vscode"@, ".DS_Store"@, "*.pyc"@, "*.pyo"@, "*.pyd"@,
        ".Python"@, "pip-log.txt"@, "pip-delete-this-directory.txt"@, ".coverage"@, "htmlcov"@,
        ".gradle"@, "target"@, "bin"@, "obj"@,
    ]
}

impl Default for Settings {
    /// The settings a fresh installation starts with.
    fn default() -> (r: Settings)
        ensures
            r.batch_size == 10,
            r.max_lines_per_blob == 800,
            r.base_url@ == "https://api.example.com"@,
            r.token@ == "your-token-here"@,
            r.text_extensions.deep_view() == default_text_extensions(),
            r.exclude_patterns.deep_view() == default_exclude_patterns(),
            r.max_output_length == 0,
            !r.disable_codebase_retrieval,
            !r.enable_commit_retrieval,
    {
        let text_extensions: Vec<String> = vec![
            ".py".to_owned(),
            ".js".to_owned(),
            ".ts".to_owned(),
            ".jsx".to_owned(),
            ".tsx".to_owned(),
            ".java".to_owned(),
            ".go".to_owned(),
            ".rs".to_owned(),
            ".cpp".to_owned(),
            ".c".to_owned(),
            ".h".to_owned(),
            ".hpp".to_owned(),
            ".cs".to_owned(),
            ".rb".to_owned(),
            ".php".to_owned(),
            ".md".to_owned(),
            ".txt".to_owned(),
            ".json".to_owned(),
            ".yaml".to_owned(),
            ".yml".to_owned(),
            ".toml".to_owned(),
            ".xml".to_owned(),
            ".html".to_owned(),
            ".css".to_owned(),
            ".scss".to_owned(),
            ".sql".to_owned(),
            ".sh".to_owned(),
            ".bash".to_owned(),
        ];
        let exclude_patterns: Vec<String> = vec![
            ".venv".to_owned(),
            "venv".to_owned(),
            ".env".to_owned(),
            "env".to_owned(),
            "node_modules".to_owned(),
            ".git".to_owned(),
            ".svn".to_owned(),
            ".hg".to_owned(),
            "__pycache__".to_owned(),
            ".pytest_cache".to_owned(),
            ".mypy_cache".to_owned(),
            ".tox".to_owned(),
            ".eggs".to_owned(),
            "*.egg-info".to_owned(),
            "dist".to_owned(),
            "build".to_owned(),
            ".idea".to_owned(),
            ".vscode".to_owned(),
            ".DS_Store".to_owned(),
            "*.pyc".to_owned(),
            "*.pyo".to_owned(),
            "*.pyd".to_owned(),
            ".Python".to_owned(),
            "pip-log.txt".to_owned(),
            "pip-delete-this-directory.txt".to_owned(),
            ".coverage".to_owned(),
            "htmlcov".to_owned(),
            ".gradle".to_owned(),
            "target".to_owned(),
            "bin".to_owned(),
            "obj".to_owned(),
        ];
        proof {
            assert(text_extensions.deep_view() =~= default_text_extensions());
            assert(exclude_patterns.deep_view() =~= default_exclude_patterns());
        }
        Settings {
            batch_size: 10,
            max_lines_per_blob: 800,
            base_url: "https://api.example.com".to_owned(),
            token: "your-token-here".to_owned(),
            text_extensions,
            exclude_patterns,
            max_output_length: 0,
            disable_codebase_retrieval: false,
            enable_commit_retrieval: false,
        }
    }
}

/// Apply command-line overrides on top of loaded settings: a given base URL
/// or token replaces the stored one; everything else is untouched.
pub fn apply_overrides(settings: &mut Settings, base_url: Option<String>, token: Option<String>)
    ensures
        final(settings).base_url@ == (match base_url {
            Some(u) => u@,
            None => old(settings).base_url@,
        }),
        final(settings).token@ == (match token {
            Some(t) => t@,
            None => old(settings).token@,
        }),
        final(settings).batch_size == old(settings).batch_size,
        final(settings).max_lines_per_blob == old(settings).max_lines_per_blob,
        final(settings).text_extensions == old(settings).text_extensions,
        final(settings).exclude_patterns == old(settings).exclude_patterns,
        final(settings).max_output_length == old(settings).max_output_length,
        final(settings).disable_codebase_retrieval == old(settings).disable_codebase_retrieval,
        final(settings).enable_commit_retrieval == old(settings).enable_commit_retrieval,
{
    match base_url {
        Some(u) => {
            settings.base_url = u;
        },
        None => {},
    }
    match token {
        Some(t) => {
            settings.token = t;
        },
        None => {},
    }
}

/// The configuration: the settings plus the directories the program uses,
/// as forward-slash path strings.
pub struct Config {
    pub settings: Settings,
    pub root_dir: String,
    pub data_dir: String,
    pub settings_path: String,
}

impl Config {
    /// The extension allow-list, as an owned list for a collection pass.
    pub fn text_extensions_set(&self) -> (r: Vec<String>)
        ensures
            r.deep_view() == self.settings.text_extensions.deep_view(),
    {
        let mut r: Vec<String> = Vec::new();
        let n = self.settings.text_extensions.len();
        let mut i: usize = 0;
        proof {
            assert(r.deep_view() =~= self.settings.text_extensions.deep_view().take(0));
        }
        while i < n
            invariant
                i <= n,
                n == self.settings.text_extensions@.len(),
                r.deep_view() == self.settings.text_extensions.deep_view().take(i as int),
            decreases n - i,
        {
            let ghost pre = r.deep_view();
            r.push(self.settings.text_extensions[i].clone());
            proof {
                assert(r.deep_view() =~= pre.push(
                    self.settings.text_extensions.deep_view()[i as int],
                ));
                assert(r.deep_view() =~= self.settings.text_extensions.deep_view().take(i + 1));
            }
            i = i + 1;
        }
        proof {
            let d = self.settings.text_extensions.deep_view();
            assert(d.take(n as int) =~= d);
        }
        r
    }

    /// Where the fingerprint index is persisted.
    pub fn projects_file(&self) -> (r: String)
        ensures
            r@ == self.data_dir@ + "/projects.json"@,
    {
        self.data_dir.clone().concat("/projects.json")
    }

    /// Where log files go.
    pub fn log_dir(&self) -> (r: String)
        ensures
            r@ == self.root_dir@ + "/log"@,
    {
        self.root_dir.clone().concat("/log")
    }

    /// Where the alias table is persisted.
    pub fn aliases_file(&self) -> (r: String)
        ensures
            r@ == self.root_dir@ + "/aliases.json"@,
    {
        self.root_dir.clone().concat("/aliases.json")
    }
}

/// Relies on dunce::canonicalize: resolves against the filesystem, so
/// nothing of the result is assumed; the error text is carried over.
#[verifier::external_body]
fn canonical_path(p: &str) -> (r: Result<String, String>)
{
    match dunce::canonicalize(p) {
        Ok(pb) => Ok(pb.to_string_lossy().into_owned()),
        Err(e) => Err(e.to_string()),
    }
}

/// Normalize a path to an absolute forward-slash string; fails when the
/// path cannot be resolved on this machine.
pub fn normalize_path(p: &str) -> (r: Result<String, String>)
    ensures
        r matches Ok(s) ==> forall|i: int| 0 <= i < s@.len() ==> s@[i] != '\\',
{
    match canonical_path(p) {
        Ok(abs) => {
            let fs = forward_slashes(abs.as_str());
            proof {
                assert(forall|i: int|
                    0 <= i < fs@.len() ==> slashes_of(abs@)[i] != '\\' && fs@[i] == slashes_of(
                        abs@,
                    )[i]);
            }
            Ok(fs)
        },
        Err(e) => Err(e),
    }
}

} // verus!
