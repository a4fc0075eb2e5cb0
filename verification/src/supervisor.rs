//! The decisions of the harness supervisor: which command runs the dsh web
//! child, when its output reports readiness, how long to wait before a
//! restart, and which profile links belong to the development checkout.
use vstd::prelude::*;

use crate::text::{
    ascii_lowercase, chars_of, lowercase_ascii, split_words, starts_with, str_eq, string_of,
    string_of_range, trim, trimmed, words,
};

use crate::paths::{posix_components, posix_starts_with};

verus! {

broadcast use vstd::string::group_string_axioms;

/// The first wait before restarting the harness, in seconds.
pub const INITIAL_BACKOFF_SECS: u64 = 1;

/// The longest wait before restarting the harness, in seconds.
pub const MAX_BACKOFF_SECS: u64 = 30;

/// The line by which the dsh web child reports where it serves.
pub const READINESS_PREFIX: &'static str = "dsh web: ";

/// The workspace launcher runs only in a debug build of a checkout that
/// still has it.
pub fn should_use_workspace_layout(debug_build: bool, workspace_exists: bool) -> (r: bool)
    ensures
        r == (debug_build && workspace_exists),
{
    debug_build && workspace_exists
}

/// The origin a readiness line (`dsh web: <URL>`) reports, trimmed; `None`
/// for any other line.
pub fn readiness_url(line: &str) -> (r: Option<String>)
    ensures
        match r {
            Some(url) => "dsh web: "@.is_prefix_of(line@) && url@ == trimmed(line@.skip(9)),
            None => !"dsh web: "@.is_prefix_of(line@),
        },
{
    proof {
        reveal_strlit("dsh web: ");
    }
    if !starts_with(line, READINESS_PREFIX) {
        return None;
    }
    let cs = chars_of(line);
    let rest = string_of_range(&cs, 9, cs.len());
    assert(cs@.subrange(9, cs@.len() as int) =~= line@.skip(9));
    Some(trim(rest.as_str()))
}

/// The wait before the next restart of the harness: it starts at one
/// second, doubles after every failed or ended run up to 30 seconds, and is
/// reset once the harness reports readiness.
#[derive(Debug)]
pub struct Backoff {
    pub secs: u64,
}

impl Backoff {
    /// The wait is always between the first and the longest.
    pub open spec fn wf(&self) -> bool {
        INITIAL_BACKOFF_SECS <= self.secs <= MAX_BACKOFF_SECS
    }

    /// The first wait.
    pub fn new() -> (r: Backoff)
        ensures
            r.wf(),
            r.secs == INITIAL_BACKOFF_SECS,
    {
        Backoff { secs: INITIAL_BACKOFF_SECS }
    }

    /// The harness reported readiness: the next wait is the first again.
    pub fn reset(&mut self)
        ensures
            final(self).wf(),
            final(self).secs == INITIAL_BACKOFF_SECS,
    {
        self.secs = INITIAL_BACKOFF_SECS;
    }

    /// A run failed or ended: the seconds to wait now; the next wait doubles,
    /// up to the longest.
    pub fn next_wait(&mut self) -> (wait: u64)
        requires
            old(self).wf(),
        ensures
            final(self).wf(),
            wait == old(self).secs,
            final(self).secs == (if 2 * old(self).secs < MAX_BACKOFF_SECS {
                2 * old(self).secs
            } else {
                MAX_BACKOFF_SECS as int
            }),
    {
        let wait = self.secs;
        let doubled = self.secs * 2;
        self.secs = if doubled < MAX_BACKOFF_SECS {
            doubled
        } else {
            MAX_BACKOFF_SECS
        };
        wait
    }
}

/// The command of a `DSH_DESKTOP_DSH_CMD` override: its first word runs
/// with the other words as arguments; `None` when it has no word.
pub fn override_command(cmd: &str) -> (r: Option<(String, Vec<String>)>)
    ensures
        match r {
            Some((program, args)) => {
                &&& words(cmd@).len() > 0
                &&& program@ == words(cmd@)[0]
                &&& args@.map_values(|a: String| a@) == words(cmd@).drop_first()
            },
            None => words(cmd@).len() == 0,
        },
{
    let cs = chars_of(cmd);
    let ws = split_words(&cs);
    if ws.len() == 0 {
        return None;
    }
    let program = string_of(&ws[0]);
    let mut args: Vec<String> = Vec::new();
    let mut i: usize = 1;
    while i < ws.len()
        invariant
            1 <= i <= ws@.len(),
            ws@.len() == words(cmd@).len(),
            forall|k: int| 0 <= k < ws@.len() ==> (#[trigger] ws@[k])@ == words(cmd@)[k],
            args@.map_values(|a: String| a@) == words(cmd@).subrange(1, i as int),
        decreases ws.len() - i,
    {
        let a = string_of(&ws[i]);
        let ghost before = args@;
        args.push(a);
        assert(args@.map_values(|a: String| a@) =~= before.map_values(|a: String| a@).push(
            words(cmd@)[i as int],
        ));
        assert(words(cmd@).subrange(1, (i + 1) as int) =~= words(cmd@).subrange(1, i as int).push(
            words(cmd@)[i as int],
        ));
        i = i + 1;
    }
    assert(words(cmd@).subrange(1, ws@.len() as int) =~= words(cmd@).drop_first());
    Some((program, args))
}

/// The name of the Node executable.
pub fn node_program(windows: bool) -> (r: &'static str)
    ensures
        r@ == (if windows {
            "node.exe"@
        } else {
            "node"@
        }),
{
    if windows {
        "node.exe"
    } else {
        "node"
    }
}

/// The Node executable's name, as text.
pub open spec fn node_name(windows: bool) -> Seq<char> {
    if windows {
        "node.exe"@
    } else {
        "node"@
    }
}

/// What runs the harness, before the bundled runtime is looked at.
#[derive(Debug)]
pub enum HarnessStep {
    /// This program with these arguments.
    Run(String, Vec<String>),
    /// The bundled runtime, if it can be prepared; else the fallback.
    Bundled,
}

/// The first choice of the harness command: a `DSH_DESKTOP_DSH_CMD`
/// override with a word in it; else the workspace launcher under system
/// Node in a debug build whose checkout has it; else the bundled runtime.
pub fn harness_step(
    override_cmd: Option<&str>,
    windows: bool,
    debug_build: bool,
    workspace_script: &str,
    workspace_exists: bool,
) -> (r: HarnessStep)
    ensures
        ({
            let has_override = override_cmd is Some && words(override_cmd->0@).len() > 0;
            match r {
                HarnessStep::Run(program, args) => if has_override {
                    &&& program@ == words(override_cmd->0@)[0]
                    &&& args@.map_values(|a: String| a@) == words(override_cmd->0@).drop_first()
                } else {
                    &&& debug_build && workspace_exists
                    &&& program@ == node_name(windows)
                    &&& args@.map_values(|a: String| a@) == seq![workspace_script@]
                },
                HarnessStep::Bundled => !has_override && !(debug_build && workspace_exists),
            }
        }),
{
    match override_cmd {
        Some(cmd) => match override_command(cmd) {
            Some((program, args)) => {
                return HarnessStep::Run(program, args);
            },
            None => {},
        },
        None => {},
    }
    if should_use_workspace_layout(debug_build, workspace_exists) {
        let mut args: Vec<String> = Vec::new();
        args.push(workspace_script.to_string());
        assert(args@.map_values(|a: String| a@) =~= seq![workspace_script@]);
        return HarnessStep::Run(node_program(windows).to_string(), args);
    }
    HarnessStep::Bundled
}

/// The harness command once the bundled runtime was looked at: its Node
/// running its launcher when it could be prepared, else the workspace
/// launcher under system Node.
pub fn harness_fallback(windows: bool, workspace_script: &str, bundled: Option<(String, String)>) -> (r: (
    String,
    Vec<String>,
))
    ensures
        match bundled {
            Some((node, script)) => r.0 == node && r.1@.map_values(|a: String| a@) == seq![script@],
            None => r.0@ == node_name(windows) && r.1@.map_values(|a: String| a@) == seq![
                workspace_script@,
            ],
        },
{
    let mut args: Vec<String> = Vec::new();
    match bundled {
        Some((node, script)) => {
            let ghost sv = script@;
            args.push(script);
            assert(args@.map_values(|a: String| a@) =~= seq![sv]);
            (node, args)
        },
        None => {
            args.push(workspace_script.to_string());
            assert(args@.map_values(|a: String| a@) =~= seq![workspace_script@]);
            (node_program(windows).to_string(), args)
        },
    }
}

/// The directory of the bundled Node distribution for an operating system
/// and architecture.
pub fn node_dist_dir(os: &str, arch: &str) -> (r: &'static str)
    ensures
        r@ == (if os@ == "windows"@ && arch@ == "x86_64"@ {
            "win-x64"@
        } else if os@ == "macos"@ && arch@ == "x86_64"@ {
            "darwin-x64"@
        } else if os@ == "macos"@ && arch@ == "aarch64"@ {
            "darwin-arm64"@
        } else if os@ == "linux"@ && arch@ == "x86_64"@ {
            "linux-x64"@
        } else if os@ == "linux"@ && arch@ == "aarch64"@ {
            "linux-arm64"@
        } else {
            "unknown"@
        }),
{
    if str_eq(os, "windows") && str_eq(arch, "x86_64") {
        "win-x64"
    } else if str_eq(os, "macos") && str_eq(arch, "x86_64") {
        "darwin-x64"
    } else if str_eq(os, "macos") && str_eq(arch, "aarch64") {
        "darwin-arm64"
    } else if str_eq(os, "linux") && str_eq(arch, "x86_64") {
        "linux-x64"
    } else if str_eq(os, "linux") && str_eq(arch, "aarch64") {
        "linux-arm64"
    } else {
        "unknown"
    }
}

/// The lower-case hexadecimal digit of `d < 16`.
pub open spec fn hex_digit(d: nat) -> char {
    if d < 10 {
        (('0' as u32) + d) as char
    } else {
        (('a' as u32) + (d - 10)) as char
    }
}

/// `n` in lower-case hexadecimal, without leading zeros (`{:x}`).
pub open spec fn hexadecimal(n: nat) -> Seq<char>
    decreases n,
{
    if n < 16 {
        seq![hex_digit(n)]
    } else {
        hexadecimal(n / 16).push(hex_digit(n % 16))
    }
}

/// The lower-case hexadecimal digits of `n`.
fn hex_chars(n: u64) -> (out: Vec<char>)
    ensures
        out@ == hexadecimal(n as nat),
    decreases n,
{
    let d = (n % 16) as u8;
    let c = if d < 10 {
        (48u8 + d) as char
    } else {
        (87u8 + d) as char
    };
    if n < 16 {
        let mut out: Vec<char> = Vec::new();
        out.push(c);
        assert(out@ =~= seq![hex_digit(n as nat)]);
        out
    } else {
        let mut out = hex_chars(n / 16);
        out.push(c);
        out
    }
}

/// The fingerprint of a bundled runtime archive: its size and modification
/// time (seconds) in hexadecimal, joined by a dash.
pub fn closure_fingerprint(len: u64, modified_secs: u64) -> (r: String)
    ensures
        r@ == hexadecimal(len as nat) + "-"@ + hexadecimal(modified_secs as nat),
{
    let mut out = string_of(&hex_chars(len));
    crate::text::append_str(&mut out, "-");
    crate::text::append_str(&mut out, string_of(&hex_chars(modified_secs)).as_str());
    out
}

/// A Windows path as compared for containment: without a `\\?\` prefix
/// (however often it repeats), with `\` for `/`, and in ASCII lower case.
pub open spec fn windows_normal(p: Seq<char>) -> Seq<char>
    decreases p.len(),
{
    let verbatim = seq!['\\', '\\', '?', '\\'];
    if p.len() >= 4 && p.take(4) == verbatim {
        windows_normal(p.skip(4))
    } else {
        ascii_lowercase(p.map_values(|c: char| if c == '/' { '\\' } else { c }))
    }
}

/// The normalized root with a final separator.
pub open spec fn windows_root(root: Seq<char>) -> Seq<char> {
    let r = windows_normal(root);
    if r.len() > 0 && r.last() == '\\' {
        r
    } else {
        r.push('\\')
    }
}

/// Normalizes a Windows path for containment checks.
fn normalize_windows(p: &str) -> (r: Vec<char>)
    ensures
        r@ == windows_normal(p@),
{
    let cs = chars_of(p);
    let mut start: usize = 0;
    assert(cs@.skip(0) =~= cs@);
    while cs.len() >= 4 && start <= cs.len() - 4 && cs[start] == '\\' && cs[start + 1] == '\\' && cs[start + 2] == '?'
        && cs[start + 3] == '\\'
        invariant
            start <= cs@.len(),
            cs@ == p@,
            windows_normal(cs@.skip(start as int)) == windows_normal(p@),
        decreases cs@.len() - start,
    {
        proof {
            let s = cs@.skip(start as int);
            assert(s.take(4) =~= seq!['\\', '\\', '?', '\\']);
            assert(s.skip(4) =~= cs@.skip(start + 4));
        }
        start = start + 4;
    }
    proof {
        let s = cs@.skip(start as int);
        if s.len() >= 4 {
            assert(s.take(4) != seq!['\\', '\\', '?', '\\']) by {
                if s.take(4) == seq!['\\', '\\', '?', '\\'] {
                    assert(s.take(4)[0] == cs@[start as int]);
                    assert(s.take(4)[1] == cs@[start + 1]);
                    assert(s.take(4)[2] == cs@[start + 2]);
                    assert(s.take(4)[3] == cs@[start + 3]);
                }
            }
        }
    }
    let mut out: Vec<char> = Vec::new();
    let mut i: usize = start;
    while i < cs.len()
        invariant
            start <= i <= cs@.len(),
            cs@ == p@,
            out@ == ascii_lowercase(
                cs@.subrange(start as int, i as int).map_values(
                    |c: char|
                        if c == '/' {
                            '\\'
                        } else {
                            c
                        },
                ),
            ),
        decreases cs@.len() - i,
    {
        let c = if cs[i] == '/' {
            '\\'
        } else {
            cs[i]
        };
        let l = if 'A' <= c && c <= 'Z' {
            ((c as u8) + 32) as char
        } else {
            c
        };
        out.push(l);
        assert(cs@.subrange(start as int, (i + 1) as int) =~= cs@.subrange(start as int, i as int).push(
            cs@[i as int],
        ));
        assert(ascii_lowercase(
            cs@.subrange(start as int, (i + 1) as int).map_values(
                |c: char|
                    if c == '/' {
                        '\\'
                    } else {
                        c
                    },
            ),
        ) =~= out@);
        i = i + 1;
    }
    assert(cs@.subrange(start as int, cs@.len() as int) =~= cs@.skip(start as int));
    out
}

/// Whether a Windows path lies under a root: the normalized path begins with
/// the normalized root and a separator.
pub fn windows_path_is_within(path: &str, root: &str) -> (r: bool)
    ensures
        r == windows_root(root@).is_prefix_of(windows_normal(path@)),
{
    let p = normalize_windows(path);
    let mut r = normalize_windows(root);
    if !(r.len() > 0 && r[r.len() - 1] == '\\') {
        r.push('\\');
    }
    assert(r@ == windows_root(root@));
    if r.len() > p.len() {
        return false;
    }
    let mut i: usize = 0;
    while i < r.len()
        invariant
            i <= r@.len() <= p@.len(),
            r@ == windows_root(root@),
            p@ == windows_normal(path@),
            forall|k: int| 0 <= k < i ==> r@[k] == p@[k],
        decreases r.len() - i,
    {
        if r[i] != p[i] {
            assert(p@.take(r@.len() as int)[i as int] != r@[i as int]);
            return false;
        }
        i = i + 1;
    }
    assert(p@.take(r@.len() as int) =~= r@);
    true
}

/// Whether a profile link's target lies under the checkout's
/// `node_modules`: on Windows by the normalized text, elsewhere component by
/// component.
pub fn path_is_within(path: &str, root: &str, windows: bool) -> (r: bool)
    ensures
        windows ==> r == windows_root(root@).is_prefix_of(windows_normal(path@)),
        !windows ==> r == posix_components(root@).is_prefix_of(posix_components(path@)),
{
    if windows {
        windows_path_is_within(path, root)
    } else {
        posix_starts_with(path, root)
    }
}

/// What the supervisor shares with the app: whether shutdown was asked,
/// the harness origin once it reported readiness, and the running child.
#[derive(Debug)]
pub struct HarnessSupervisor {
    pub shutdown_requested: bool,
    pub ready_url: Option<String>,
    pub child_pid: Option<u32>,
}

impl HarnessSupervisor {
    /// A supervisor with no child, not yet asked to stop.
    pub fn new() -> (r: HarnessSupervisor)
        ensures
            !r.shutdown_requested,
            r.ready_url is None,
            r.child_pid is None,
    {
        HarnessSupervisor { shutdown_requested: false, ready_url: None, child_pid: None }
    }

    /// Asks the loop to stop; the child whose process tree must be killed,
    /// if one runs.
    pub fn shutdown(&mut self) -> (kill: Option<u32>)
        ensures
            final(self).shutdown_requested,
            kill == old(self).child_pid,
            final(self).ready_url == old(self).ready_url,
            final(self).child_pid == old(self).child_pid,
    {
        self.shutdown_requested = true;
        self.child_pid
    }

    /// The harness origin, once it reported readiness.
    pub fn url(&self) -> (r: Option<String>)
        ensures
            r == self.ready_url,
    {
        crate::session::copy_opt(&self.ready_url)
    }

    /// A child was started.
    pub fn child_started(&mut self, pid: u32)
        ensures
            *final(self) == (HarnessSupervisor { child_pid: Some(pid), ..*old(self) }),
    {
        self.child_pid = Some(pid);
    }

    /// The child reported readiness at `url`.
    pub fn child_ready(&mut self, url: String)
        ensures
            *final(self) == (HarnessSupervisor { ready_url: Some(url), ..*old(self) }),
    {
        self.ready_url = Some(url);
    }

    /// The child ended: no origin and no child any more.
    pub fn child_ended(&mut self)
        ensures
            *final(self) == (HarnessSupervisor {
                ready_url: None,
                child_pid: None,
                ..*old(self)
            }),
    {
        self.ready_url = None;
        self.child_pid = None;
    }
}

} // verus!
