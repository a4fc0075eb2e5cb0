//! Finding the Codex CLI: the candidates tried in order, the choice among
//! those that answered, and the check of a fresh managed install.
use vstd::prelude::*;

use crate::json::opt_chars;
use crate::runtime::CodexBinary;
use crate::text::{append_str, concat, str_eq};
use crate::validate::CODEX_CLI_VERSION;

verus! {

broadcast use vstd::string::group_string_axioms;

/// A candidate as plain values: the program and whether it is the managed install.
pub open spec fn candidate_view(c: (String, bool)) -> (Seq<char>, bool) {
    (c.0@, c.1)
}

/// An optional candidate as plain values.
pub open spec fn configured_view(c: Option<(String, bool)>) -> Option<(Seq<char>, bool)> {
    match c {
        Some(x) => Some(candidate_view(x)),
        None => None,
    }
}

/// The Codex CLIs tried, in order: an override command, the CLI last
/// configured (with whether it is the managed install), the managed
/// install, on Windows `codex.cmd` and `codex.exe`, then `codex`.
pub open spec fn candidates_of(
    override_cmd: Option<Seq<char>>,
    configured: Option<(Seq<char>, bool)>,
    managed: Seq<char>,
    windows: bool,
) -> Seq<(Seq<char>, bool)> {
    (match override_cmd {
        Some(p) => seq![(p, false)],
        None => Seq::empty(),
    }) + (match configured {
        Some(c) => seq![c],
        None => Seq::empty(),
    }) + seq![(managed, true)] + (if windows {
        seq![("codex.cmd"@, false), ("codex.exe"@, false)]
    } else {
        Seq::empty()
    }) + seq![("codex"@, false)]
}

/// The Codex CLIs to try, in order.
pub fn codex_candidates(
    override_cmd: Option<String>,
    configured: Option<(String, bool)>,
    managed: String,
    windows: bool,
) -> (r: Vec<(String, bool)>)
    ensures
        r@.map_values(|c: (String, bool)| candidate_view(c)) == candidates_of(
            opt_chars(override_cmd),
            configured_view(configured),
            managed@,
            windows,
        ),
{
    let ghost o = opt_chars(override_cmd);
    let ghost c = configured_view(configured);
    let ghost m = managed@;
    let mut r: Vec<(String, bool)> = Vec::new();
    match override_cmd {
        Some(p) => r.push((p, false)),
        None => {},
    }
    match configured {
        Some(x) => r.push(x),
        None => {},
    }
    r.push((managed, true));
    if windows {
        r.push(("codex.cmd".to_string(), false));
        r.push(("codex.exe".to_string(), false));
    }
    r.push(("codex".to_string(), false));
    assert(r@.map_values(|c: (String, bool)| candidate_view(c)) =~= candidates_of(o, c, m, windows));
    r
}

/// The choice among the candidates that answered `--version`: the first with
/// the pinned version, else the first that answered.
#[derive(Debug)]
pub struct CodexDetection {
    pub exact: Option<CodexBinary>,
    pub fallback: Option<CodexBinary>,
}

impl CodexDetection {
    /// Nothing answered yet.
    pub fn new() -> (r: CodexDetection)
        ensures
            r.exact is None,
            r.fallback is None,
    {
        CodexDetection { exact: None, fallback: None }
    }

    /// Records what a candidate answered (`None` when it did not run or
    /// failed); whether the search is over (the pinned version was found).
    pub fn record(&mut self, program: String, managed: bool, version: Option<String>) -> (done: bool)
        requires
            old(self).exact is None,
        ensures
            done == (match version {
                Some(v) => v@ == CODEX_CLI_VERSION@,
                None => false,
            }),
            done ==> final(self).exact == Some(
                CodexBinary { program, version: version->0, managed },
            ) && final(self).fallback == old(self).fallback,
            !done ==> final(self).exact is None,
            !done && version is Some && old(self).fallback is None ==> final(self).fallback == Some(
                CodexBinary { program, version: version->0, managed },
            ),
            !done && (version is None || old(self).fallback is Some) ==> final(self).fallback == old(
                self,
            ).fallback,
    {
        match version {
            Some(v) => {
                if str_eq(v.as_str(), CODEX_CLI_VERSION) {
                    self.exact = Some(CodexBinary { program, version: v, managed });
                    true
                } else {
                    if self.fallback.is_none() {
                        self.fallback = Some(CodexBinary { program, version: v, managed });
                    }
                    false
                }
            },
            None => false,
        }
    }

    /// The CLI chosen.
    pub fn chosen(self) -> (r: Option<CodexBinary>)
        ensures
            r == (if self.exact is Some {
                self.exact
            } else {
                self.fallback
            }),
    {
        match self.exact {
            Some(b) => Some(b),
            None => self.fallback,
        }
    }
}

/// Whether the pinned Codex CLI must be installed: no CLI was detected, or
/// the one detected has another version.
pub fn needs_install(detected: Option<&CodexBinary>) -> (r: bool)
    ensures
        r == !(detected is Some && detected->0.version@ == CODEX_CLI_VERSION@),
{
    match detected {
        Some(b) => !str_eq(b.version.as_str(), CODEX_CLI_VERSION),
        None => true,
    }
}

/// The npm arguments that install the pinned Codex CLI under `prefix`.
pub fn npm_install_args(prefix: &str) -> (r: Vec<String>)
    ensures
        r@.map_values(|a: String| a@) == seq![
            "install"@,
            "--global"@,
            "--prefix"@,
            prefix@,
            "@openai/codex@"@ + CODEX_CLI_VERSION@,
            "--no-audit"@,
            "--no-fund"@,
        ],
{
    let mut r: Vec<String> = Vec::new();
    r.push("install".to_string());
    r.push("--global".to_string());
    r.push("--prefix".to_string());
    r.push(prefix.to_string());
    r.push(concat("@openai/codex@", CODEX_CLI_VERSION));
    r.push("--no-audit".to_string());
    r.push("--no-fund".to_string());
    assert(r@.map_values(|a: String| a@) =~= seq![
        "install"@,
        "--global"@,
        "--prefix"@,
        prefix@,
        "@openai/codex@"@ + CODEX_CLI_VERSION@,
        "--no-audit"@,
        "--no-fund"@,
    ]);
    r
}

/// Checks the version a fresh managed install reports.
pub fn installed_binary(program: String, version: Option<String>) -> (r: Result<CodexBinary, String>)
    ensures
        match r {
            Ok(b) => version is Some && version->0@ == CODEX_CLI_VERSION@ && b == CodexBinary {
                program,
                version: version->0,
                managed: true,
            },
            Err(e) => match version {
                None => e@ == "installed Codex CLI did not start"@,
                Some(v) => v@ != CODEX_CLI_VERSION@ && e@ == "installed Codex CLI version "@ + v@
                    + ", expected "@ + CODEX_CLI_VERSION@,
            },
        },
{
    let v = match version {
        Some(v) => v,
        None => return Err("installed Codex CLI did not start".to_string()),
    };
    if !str_eq(v.as_str(), CODEX_CLI_VERSION) {
        let mut e = concat("installed Codex CLI version ", v.as_str());
        append_str(&mut e, ", expected ");
        append_str(&mut e, CODEX_CLI_VERSION);
        return Err(e);
    }
    Ok(CodexBinary { program, version: v, managed: true })
}

} // verus!
