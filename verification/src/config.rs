//! Configuration data: the team roster, the exploit set, the submission
//! endpoint settings and the command-line surface.
//!
//! Network addresses are carried as plain values (an IPv4 address is its
//! 32-bit number), paths and tokens as byte strings; the caller converts
//! at its own boundary.

use vstd::prelude::*;
use vstd::string::StringSliceAdditionalSpecFns;

verus! {

/// One opposing team: its vulnerable machine's address and whether it is
/// a non-playing (safe test) target.
#[derive(Debug, Clone, Copy, PartialEq, Eq, Structural)]
pub struct Team {
    /// The IPv4 address of the team's machine, as its 32-bit number.
    pub ip: u32,
    /// Marks a non-playing team, used to test exploits without exposing
    /// them to rivals.
    pub nop: Option<bool>,
}

/// A named roster entry.
#[derive(Debug, Clone)]
pub struct TeamEntry {
    pub name: Vec<u8>,
    pub team: Team,
}

/// The text after the last path separator; the file's own name.
pub open spec fn after_last_slash(s: Seq<u8>) -> Seq<u8>
    decreases s.len(),
{
    if s.len() == 0 {
        Seq::empty()
    } else if s.last() == 47 {
        Seq::empty()
    } else {
        after_last_slash(s.drop_last()).push(s.last())
    }
}

/// An exploit's display name: the text after the last path separator,
/// or "unknown" where the path ends in a separator or is empty.
pub open spec fn exploit_name_of(path: Seq<u8>) -> Seq<u8> {
    if after_last_slash(path).len() == 0 {
        "unknown".spec_bytes()
    } else {
        after_last_slash(path)
    }
}

/// If `path[k]` is the last separator, the name is everything after it.
proof fn lemma_after_last_slash_at(s: Seq<u8>, k: int)
    requires
        0 <= k < s.len(),
        s[k] == 47,
        forall|j: int| k < j < s.len() ==> s[j] != 47,
    ensures
        after_last_slash(s) =~= s.skip(k + 1),
    decreases s.len(),
{
    if k == s.len() - 1 {
    } else {
        assert(forall|j: int| k < j < s.len() - 1 ==> s.drop_last()[j] == s[j]);
        lemma_after_last_slash_at(s.drop_last(), k);
    }
}

/// With no separator anywhere, the name is the whole path.
proof fn lemma_after_last_slash_none(s: Seq<u8>)
    requires
        forall|j: int| 0 <= j < s.len() ==> s[j] != 47,
    ensures
        after_last_slash(s) =~= s,
    decreases s.len(),
{
    if s.len() > 0 {
        assert(forall|j: int| 0 <= j < s.len() - 1 ==> s.drop_last()[j] == s[j]);
        lemma_after_last_slash_none(s.drop_last());
    }
}

/// The position just after the last separator in `path`; zero when there
/// is none.
fn last_separator_end(path: &[u8]) -> (k: usize)
    ensures
        k <= path@.len(),
        k == 0 ==> forall|j: int| 0 <= j < path@.len() ==> path@[j] != 47,
        k > 0 ==> path@[k - 1] == 47 && (forall|j: int| k <= j < path@.len() ==> path@[j] != 47),
{
    let mut k: usize = path.len();
    while k > 0
        invariant
            k <= path@.len(),
            forall|j: int| k <= j < path@.len() ==> path@[j] != 47,
        decreases k,
    {
        if path[k - 1] == 47 {
            return k;
        }
        k -= 1;
    }
    0
}

/// One exploit program: where it lives, how it is shown, and whether the
/// scheduler runs it.
#[derive(Debug, Clone)]
pub struct ExploitInfo {
    /// Path of the exploit program, as byte text.
    pub path: Vec<u8>,
    /// Display name: the path's last component.
    pub name: Vec<u8>,
    /// Whether this exploit runs in the next cycle.
    pub enabled: bool,
}

impl ExploitInfo {
    /// A freshly scanned exploit: named after its file, enabled by
    /// default.
    pub fn new(path: Vec<u8>) -> (r: ExploitInfo)
        ensures
            r.path@ == path@,
            r.name@ == exploit_name_of(path@),
            r.enabled,
    {
        let ghost p = path@;
        let k = last_separator_end(path.as_slice());
        proof {
            if k > 0 {
                lemma_after_last_slash_at(p, k - 1);
            } else {
                lemma_after_last_slash_none(p);
                assert(p.skip(0) =~= p);
            }
        }
        let tail = vstd::slice::slice_subrange(path.as_slice(), k, path.len());
        let name = vstd::slice::slice_to_vec(tail);
        proof {
            assert(p.subrange(k as int, p.len() as int) =~= p.skip(k as int));
        }
        if name.len() == 0 {
            let unknown = vstd::slice::slice_to_vec("unknown".as_bytes());
            ExploitInfo { path, name: unknown, enabled: true }
        } else {
            ExploitInfo { path, name, enabled: true }
        }
    }

    /// Flips whether the exploit runs.
    pub fn toggle(&mut self)
        ensures
            final(self).enabled == !old(self).enabled,
            final(self).path@ == old(self).path@,
            final(self).name@ == old(self).name@,
    {
        self.enabled = !self.enabled;
    }
}

/// Some listed exploit has this path.
pub open spec fn has_exploit_path(exploits: Seq<ExploitInfo>, path: Seq<u8>) -> bool {
    exists|j: int| 0 <= j < exploits.len() && exploits[j].path@ == path
}

/// The position of the first listed exploit with this path (meaningful
/// only when one exists).
pub open spec fn exploit_path_index(exploits: Seq<ExploitInfo>, path: Seq<u8>) -> int
    decreases exploits.len(),
{
    if exploits.len() == 0 {
        0
    } else if exploits[0].path@ == path {
        0
    } else {
        1 + exploit_path_index(exploits.drop_first(), path)
    }
}

/// If `exploits[k]` has the path and nothing before it does, `k` is the
/// first position.
proof fn lemma_exploit_path_index(exploits: Seq<ExploitInfo>, path: Seq<u8>, k: int)
    requires
        0 <= k < exploits.len(),
        exploits[k].path@ == path,
        forall|j: int| 0 <= j < k ==> exploits[j].path@ != path,
    ensures
        exploit_path_index(exploits, path) == k,
    decreases exploits.len(),
{
    if k > 0 {
        assert(forall|j: int| 0 <= j < k - 1 ==> exploits.drop_first()[j] == exploits[j + 1]);
        lemma_exploit_path_index(exploits.drop_first(), path, k - 1);
    }
}

/// Rebuilds the exploit list after a rescan: each scanned path keeps its
/// existing entry — and with it whether the operator enabled it — and a
/// path seen for the first time becomes a fresh, enabled entry.  Entries
/// whose file is gone are dropped.
pub fn merge_exploits(existing: &Vec<ExploitInfo>, paths: &Vec<Vec<u8>>) -> (r: Vec<ExploitInfo>)
    ensures
        r@.len() == paths@.len(),
        forall|i: int|
            0 <= i < paths@.len() ==> {
                let p = #[trigger] paths@[i]@;
                if has_exploit_path(existing@, p) {
                    let e = existing@[exploit_path_index(existing@, p)];
                    r@[i].path@ == e.path@ && r@[i].name@ == e.name@ && r@[i].enabled
                        == e.enabled
                } else {
                    r@[i].path@ == p && r@[i].name@ == exploit_name_of(p) && r@[i].enabled
                }
            },
{
    let mut r: Vec<ExploitInfo> = Vec::new();
    let mut i: usize = 0;
    while i < paths.len()
        invariant
            i <= paths@.len(),
            r@.len() == i,
            forall|l: int|
                0 <= l < i ==> {
                    let p = #[trigger] paths@[l]@;
                    if has_exploit_path(existing@, p) {
                        let e = existing@[exploit_path_index(existing@, p)];
                        r@[l].path@ == e.path@ && r@[l].name@ == e.name@ && r@[l].enabled
                            == e.enabled
                    } else {
                        r@[l].path@ == p && r@[l].name@ == exploit_name_of(p) && r@[l].enabled
                    }
                },
        decreases paths@.len() - i,
    {
        let path = &paths[i];
        let mut j: usize = 0;
        let mut found = false;
        while j < existing.len() && !found
            invariant
                j <= existing@.len(),
                !found ==> forall|l: int| 0 <= l < j ==> existing@[l].path@ != path@,
                found ==> j < existing@.len() && existing@[j as int].path@ == path@ && (
                forall|l: int| 0 <= l < j ==> existing@[l].path@ != path@),
            decreases existing@.len() - j + (if found {
                0int
            } else {
                1int
            }),
        {
            if crate::text::bytes_eq(existing[j].path.as_slice(), path.as_slice()) {
                found = true;
            } else {
                j += 1;
            }
        }
        if found {
            proof {
                lemma_exploit_path_index(existing@, path@, j as int);
            }
            let e = &existing[j];
            r.push(
                ExploitInfo {
                    path: vstd::slice::slice_to_vec(e.path.as_slice()),
                    name: vstd::slice::slice_to_vec(e.name.as_slice()),
                    enabled: e.enabled,
                },
            );
        } else {
            r.push(ExploitInfo::new(vstd::slice::slice_to_vec(path.as_slice())));
        }
        i += 1;
    }
    r
}

/// How the attacker loops its cycles.
#[derive(Debug, Clone, Copy, PartialEq, Eq, Structural)]
pub struct AttackerLoopConfig {
    /// Seconds between cycles.
    pub every: u64,
    /// If set, an extra uniformly random wait in `[0, random]` seconds,
    /// to resist timing-based detection.
    pub random: Option<u64>,
}

/// Which wire protocol delivers the flags.
#[derive(Debug, Clone, Copy, PartialEq, Eq, Structural)]
pub enum SubmitterType {
    /// The line protocol over a stream connection.
    Tcp,
    /// The JSON batch protocol.
    Http,
}

impl SubmitterType {
    /// The protocol's name, as the configuration writes it.
    pub fn label(&self) -> (r: &'static str)
        ensures
            r@ == self.spec_label(),
    {
        proof {
            reveal_strlit("tcp");
            reveal_strlit("http");
        }
        match self {
            SubmitterType::Tcp => "tcp",
            SubmitterType::Http => "http",
        }
    }

    pub open spec fn spec_label(self) -> Seq<char> {
        match self {
            SubmitterType::Tcp => "tcp"@,
            SubmitterType::Http => "http"@,
        }
    }
}

/// When the dispatcher is invoked relative to the scheduler's progress.
#[derive(Debug, Clone, Copy, PartialEq, Eq, Structural)]
pub enum SubmitMode {
    /// Accumulate the whole cycle's flags, submit once at the end.
    Batch,
    /// Submit each team's flags as soon as that team's exploits finish.
    Grouped,
    /// Submit each flag on its own as soon as it is captured.
    Instant,
}

/// Where the ledger's durable mirror lives.
#[derive(Debug, Clone)]
pub struct DatabaseConfig {
    /// The store's file path, as byte text.
    pub file: Vec<u8>,
}

/// A timeout in seconds.
#[derive(Debug, Clone, Copy, PartialEq, Eq, Structural)]
pub struct Timeout(pub usize);

impl Default for Timeout {
    /// One minute.
    fn default() -> (r: Timeout)
        ensures
            r.0 == 60,
    {
        Timeout(60)
    }
}

/// The line protocol's endpoint.
#[derive(Debug, Clone)]
pub struct SubmitterTCPConfig {
    /// The scoring service's IPv4 address, as its 32-bit number.
    pub host: u32,
    /// The port the service listens on.
    pub port: u16,
    /// The team's authentication token.
    pub token: Vec<u8>,
}

/// The batch protocol's endpoint.
#[derive(Debug, Clone)]
pub struct SubmitterHTTPConfig {
    /// The service's URL, as byte text.
    pub url: Vec<u8>,
    /// The team's authentication token.
    pub token: Vec<u8>,
    /// Accept TLS connections with untrusted certificates (self-signed
    /// scoring endpoints).
    pub insecure: bool,
    /// Request timeout in seconds.
    pub timeout: Timeout,
}

/// The endpoint settings of both protocols; only the selected one needs
/// to be present.
#[derive(Debug, Clone)]
pub struct SubmissionConfig {
    pub tcp: Option<SubmitterTCPConfig>,
    pub http: Option<SubmitterHTTPConfig>,
}

/// Everything submission needs: the selected protocol, the mirror's
/// location, the endpoints, and when to submit.
#[derive(Debug, Clone)]
pub struct SubmitterConfig {
    /// The selected protocol.
    pub kind: SubmitterType,
    pub database: DatabaseConfig,
    pub config: SubmissionConfig,
    /// When the dispatcher is invoked.
    pub mode: SubmitMode,
}

impl Default for SubmitterConfig {
    /// The line protocol against the local host with the placeholder
    /// token, mirroring to "flags.sqlite", batched submission.
    fn default() -> (r: SubmitterConfig)
        ensures
            r.kind == SubmitterType::Tcp,
            r.mode == SubmitMode::Batch,
            r.database.file@ == "flags.sqlite".spec_bytes(),
            (r.config.tcp matches Some(t) && t.host == 0x7F000001 && t.port == 1337 && t.token@
                == "changeme".spec_bytes()),
            r.config.http is None,
    {
        SubmitterConfig {
            kind: SubmitterType::Tcp,
            database: DatabaseConfig {
                file: vstd::slice::slice_to_vec("flags.sqlite".as_bytes()),
            },
            config: SubmissionConfig {
                tcp: Some(
                    SubmitterTCPConfig {
                        host: 0x7F000001,
                        port: 1337,
                        token: vstd::slice::slice_to_vec("changeme".as_bytes()),
                    },
                ),
                http: None,
            },
            mode: SubmitMode::Batch,
        }
    }
}

/// The attacker's own settings.
#[derive(Debug, Clone)]
pub struct AttackerConfig {
    /// Path of a folder of exploit programs, or of one program.
    pub exploit: Vec<u8>,
    /// The pattern flags match in exploit output.
    pub flag: Vec<u8>,
    /// The roster of opposing teams.
    pub teams: Vec<TeamEntry>,
    /// How cycles repeat; absent means one cycle only.
    pub loop_cfg: Option<AttackerLoopConfig>,
    /// The scanned exploit set (populated at runtime).
    pub exploits: Vec<ExploitInfo>,
}

/// The whole configuration.
#[derive(Debug, Clone)]
pub struct Config {
    pub attacker: AttackerConfig,
    pub submitter: Option<SubmitterConfig>,
}

impl Default for Config {
    /// Exploits from the "exploits" folder, the competition's usual flag
    /// pattern, an empty roster, a two-minute loop with up to ten
    /// seconds of jitter, and the default submitter.
    fn default() -> (r: Config)
        ensures
            r.attacker.exploit@ == "exploits".spec_bytes(),
            r.attacker.flag@ == "[0-9A-Z]{31}=".spec_bytes(),
            r.attacker.teams@.len() == 0,
            r.attacker.loop_cfg == Some(AttackerLoopConfig { every: 120, random: Some(10u64) }),
            r.attacker.exploits@.len() == 0,
            (r.submitter matches Some(s) && is_default_submitter_config(s)),
    {
        Config {
            attacker: AttackerConfig {
                exploit: vstd::slice::slice_to_vec("exploits".as_bytes()),
                flag: vstd::slice::slice_to_vec("[0-9A-Z]{31}=".as_bytes()),
                teams: Vec::new(),
                loop_cfg: Some(AttackerLoopConfig { every: 120, random: Some(10) }),
                exploits: Vec::new(),
            },
            submitter: Some(SubmitterConfig::default()),
        }
    }
}

/// The default submitter configuration's shape.
pub open spec fn is_default_submitter_config(c: SubmitterConfig) -> bool {
    &&& c.kind == SubmitterType::Tcp
    &&& c.mode == SubmitMode::Batch
    &&& c.database.file@ == "flags.sqlite".spec_bytes()
    &&& (c.config.tcp matches Some(t) && t.host == 0x7F000001 && t.port == 1337 && t.token@
        == "changeme".spec_bytes())
    &&& c.config.http is None
}

/// The command-line surface.
#[derive(Debug, Clone)]
pub struct Args {
    pub command: Commands,
    /// Overrides the default configuration file.
    pub config: Option<Vec<u8>>,
}

#[derive(Debug, Clone)]
pub enum Commands {
    /// Run exploits against the roster.
    Attack(AttackerArgs),
    /// Show the ledger.
    Display,
}

#[derive(Debug, Clone)]
pub struct AttackerArgs {
    /// Overrides the exploits to run.
    pub exploit: Option<Vec<u8>>,
    /// Overrides the hosts to attack.
    pub hosts: Option<Vec<Vec<u8>>>,
    /// If given, run the exploits every this many seconds.
    pub every: Option<u64>,
    /// Whether to submit captured flags.
    pub submit: bool,
}

} // verus!
