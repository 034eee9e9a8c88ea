//! The decisions of the edge agent: where it connects, which gateway nodes it
//! addresses, which namespace it uses, which pushed job ids it accepts, and
//! what the job loop does next on each event.
//!
//! The program around this library performs the OPC-UA work (connect,
//! subscribe, read, call) and the driver run, and hands each outcome back as
//! an event.

use vstd::prelude::*;
use vstd::string::StrSliceExecFns;

use crate::config::AgentConfig;

verus! {

// ───────────────────────────── gateway endpoint ─────────────────────────────

/// `s` without the `'/'` characters at its end.
pub open spec fn trim_trailing_slashes(s: Seq<char>) -> Seq<char>
    decreases s.len(),
{
    if s.len() > 0 && s.last() == '/' {
        trim_trailing_slashes(s.drop_last())
    } else {
        s
    }
}

/// The trimmed text is a prefix of the text, and the rest is all `'/'`.
proof fn lemma_trim_shape(s: Seq<char>)
    ensures
        trim_trailing_slashes(s).len() <= s.len(),
        trim_trailing_slashes(s) =~= s.subrange(0, trim_trailing_slashes(s).len() as int),
        forall|i: int| trim_trailing_slashes(s).len() <= i < s.len() ==> s[i] == '/',
        trim_trailing_slashes(s).len() == 0 || trim_trailing_slashes(s).last() != '/',
    decreases s.len(),
{
    if s.len() > 0 && s.last() == '/' {
        let t = s.drop_last();
        lemma_trim_shape(t);
        assert forall|i: int| trim_trailing_slashes(s).len() <= i < s.len() implies s[i] == '/' by {
            if i < t.len() {
                assert(s[i] == t[i]);
            }
        }
        assert(trim_trailing_slashes(s) =~= s.subrange(0, trim_trailing_slashes(s).len() as int));
    }
}

/// The gateway endpoint of a configured URL: the URL without its trailing
/// slashes.
pub fn gateway_endpoint(url: &str) -> (r: String)
    ensures
        r@ == trim_trailing_slashes(url@),
{
    let n = url.unicode_len();
    let mut end: usize = n;
    assert(url@.subrange(0, n as int) =~= url@);
    while end > 0 && url.get_char(end - 1) == '/'
        invariant
            end <= n,
            n == url@.len(),
            trim_trailing_slashes(url@) == trim_trailing_slashes(url@.subrange(0, end as int)),
        decreases end,
    {
        assert(url@.subrange(0, end as int).drop_last() =~= url@.subrange(0, end - 1));
        end = end - 1;
    }
    url.substring_char(0, end).to_owned()
}

/// The endpoint never ends in `'/'`, and the configured URL is the endpoint
/// followed by nothing but slashes.
pub proof fn law_endpoint_shape(url: Seq<char>)
    ensures
        trim_trailing_slashes(url).len() == 0 || trim_trailing_slashes(url).last() != '/',
        url =~= trim_trailing_slashes(url) + url.subrange(trim_trailing_slashes(url).len() as int, url.len() as int),
        forall|i: int| trim_trailing_slashes(url).len() <= i < url.len() ==> url[i] == '/',
{
    lemma_trim_shape(url);
}

/// Trimming the endpoint again changes nothing.
pub proof fn law_endpoint_idempotent(url: Seq<char>)
    ensures
        trim_trailing_slashes(trim_trailing_slashes(url)) == trim_trailing_slashes(url),
{
    lemma_trim_shape(url);
}

/// Slashes added at the end of a URL lead to the same endpoint.
pub proof fn law_endpoint_ignores_trailing_slashes(url: Seq<char>, extra: nat)
    ensures
        trim_trailing_slashes(url + Seq::new(extra, |i: int| '/')) == trim_trailing_slashes(url),
    decreases extra,
{
    let slashes = Seq::new(extra, |i: int| '/');
    if extra > 0 {
        let fewer = Seq::new((extra - 1) as nat, |i: int| '/');
        assert((url + slashes).drop_last() =~= url + fewer);
        law_endpoint_ignores_trailing_slashes(url, (extra - 1) as nat);
    } else {
        assert(url + slashes =~= url);
    }
}

// ───────────────────────────── gateway nodes ─────────────────────────────

/// The identifier of a node under the machine's folder in the gateway.
pub open spec fn spec_machine_node(machine_id: Seq<char>, suffix: Seq<char>) -> Seq<char> {
    "Machines/"@ + machine_id + suffix
}

/// A machine node's identifier is `Machines/`, then the whole machine id,
/// then the suffix; so different machines never share a node.
pub proof fn law_machine_node_names_the_machine(id: Seq<char>, other: Seq<char>, suffix: Seq<char>)
    ensures
        spec_machine_node(id, suffix).len() == 9 + id.len() + suffix.len(),
        spec_machine_node(id, suffix).subrange(0, 9) == "Machines/"@,
        spec_machine_node(id, suffix).subrange(9, 9 + id.len() as int) == id,
        spec_machine_node(id, suffix).subrange(9 + id.len() as int, 9 + id.len() as int + suffix.len() as int) == suffix,
        spec_machine_node(id, suffix) == spec_machine_node(other, suffix) ==> id == other,
{
    reveal_strlit("Machines/");
    let n = spec_machine_node(id, suffix);
    assert(n.subrange(0, 9) =~= "Machines/"@);
    assert(n.subrange(9, 9 + id.len() as int) =~= id);
    assert(n.subrange(9 + id.len() as int, 9 + id.len() as int + suffix.len() as int) =~= suffix);
    if n == spec_machine_node(other, suffix) {
        let m = spec_machine_node(other, suffix);
        assert(m.subrange(9, 9 + other.len() as int) =~= other);
        assert(id.len() == other.len());
        assert(id =~= other);
    }
}

/// `Machines/<id>` + `suffix`.
fn machine_node(machine_id: &str, suffix: &str) -> (r: String)
    ensures
        r@ == spec_machine_node(machine_id@, suffix@),
{
    let mut r = "Machines/".to_owned();
    r.append(machine_id);
    r.append(suffix);
    r
}

/// The gateway nodes this agent talks to, by their string identifiers in
/// the gateway's namespace.
pub struct GatewayNodes {
    /// `Machines/<id>/EdgeAgent/PendingJobId`: pushed when a job is dispatched.
    pub pending_job_id: String,
    /// `Machines/<id>/EdgeAgent/PendingJobCsv`: the cut-list of that job.
    pub pending_job_csv: String,
    /// `Machines/<id>/JobOrderReceiver`: the object holding `ReportComplete`.
    pub receiver: String,
    /// `Machines/<id>/JobOrderReceiver/ReportComplete`: called when a job is done.
    pub report_complete: String,
}

impl GatewayNodes {
    /// The nodes of the machine with identifier `machine_id`.
    pub fn for_machine(machine_id: &str) -> (r: Self)
        ensures
            r.pending_job_id@ == spec_machine_node(machine_id@, "/EdgeAgent/PendingJobId"@),
            r.pending_job_csv@ == spec_machine_node(machine_id@, "/EdgeAgent/PendingJobCsv"@),
            r.receiver@ == spec_machine_node(machine_id@, "/JobOrderReceiver"@),
            r.report_complete@ == spec_machine_node(machine_id@, "/JobOrderReceiver/ReportComplete"@),
    {
        GatewayNodes {
            pending_job_id: machine_node(machine_id, "/EdgeAgent/PendingJobId"),
            pending_job_csv: machine_node(machine_id, "/EdgeAgent/PendingJobCsv"),
            receiver: machine_node(machine_id, "/JobOrderReceiver"),
            report_complete: machine_node(machine_id, "/JobOrderReceiver/ReportComplete"),
        }
    }
}

/// Where the agent connects and what it addresses, derived from its
/// configuration.
pub struct AgentPlan {
    /// The gateway endpoint: the configured URL without trailing slashes.
    pub endpoint: String,
    /// The gateway nodes of the configured machine.
    pub nodes: GatewayNodes,
}

impl AgentPlan {
    /// The plan for a configuration.
    pub fn for_config(config: &AgentConfig) -> (r: Self)
        ensures
            r.endpoint@ == trim_trailing_slashes(config.gateway_url@),
            r.nodes.pending_job_id@ == spec_machine_node(config.machine_id@, "/EdgeAgent/PendingJobId"@),
            r.nodes.pending_job_csv@ == spec_machine_node(config.machine_id@, "/EdgeAgent/PendingJobCsv"@),
            r.nodes.receiver@ == spec_machine_node(config.machine_id@, "/JobOrderReceiver"@),
            r.nodes.report_complete@ == spec_machine_node(
                config.machine_id@,
                "/JobOrderReceiver/ReportComplete"@,
            ),
    {
        AgentPlan {
            endpoint: gateway_endpoint(config.gateway_url.as_str()),
            nodes: GatewayNodes::for_machine(config.machine_id.as_str()),
        }
    }
}

// ───────────────────────────── namespace ─────────────────────────────

/// The namespace index used when the gateway's namespace array cannot be read
/// or does not list the configured URI.
pub const FALLBACK_NAMESPACE: u16 = 2;

/// The entry is a string equal to `uri`.
pub open spec fn names_uri(entry: Option<String>, uri: Seq<char>) -> bool {
    entry matches Some(s) && s@ == uri
}

/// The position of the first entry that names `uri`, if any.
pub open spec fn first_position(entries: Seq<Option<String>>, uri: Seq<char>) -> Option<int> {
    if exists|i: int| 0 <= i < entries.len() && #[trigger] names_uri(entries[i], uri) {
        Some(
            choose|i: int|
                0 <= i < entries.len() && #[trigger] names_uri(entries[i], uri) && forall|j: int|
                    0 <= j < i ==> !#[trigger] names_uri(entries[j], uri),
        )
    } else {
        None
    }
}

/// There is a first position when there is any.
proof fn lemma_first_position(entries: Seq<Option<String>>, uri: Seq<char>, i: int)
    requires
        0 <= i < entries.len(),
        names_uri(entries[i], uri),
        forall|j: int| 0 <= j < i ==> !#[trigger] names_uri(entries[j], uri),
    ensures
        first_position(entries, uri) == Some(i),
{
    let k = choose|k: int|
        0 <= k < entries.len() && #[trigger] names_uri(entries[k], uri) && forall|j: int|
            0 <= j < k ==> !#[trigger] names_uri(entries[j], uri);
    assert(exists|k: int|
        0 <= k < entries.len() && #[trigger] names_uri(entries[k], uri) && forall|j: int|
            0 <= j < k ==> !#[trigger] names_uri(entries[j], uri));
    if k < i {
        assert(!names_uri(entries[k], uri));
    } else if k > i {
        assert(!names_uri(entries[i], uri));
    }
}

/// The namespace index of `uri` in the gateway's namespace array, whose
/// entries are the string values of the array (`None` for an entry that is
/// not a string): the position of the first entry equal to `uri`, as a
/// 16-bit index (the position taken modulo 65536).
pub fn resolve_namespace(entries: &Vec<Option<String>>, uri: &str) -> (r: Option<u16>)
    ensures
        r == match first_position(entries@, uri@) {
            Some(i) => Some((i % 65536) as u16),
            None => None::<u16>,
        },
{
    let n = entries.len();
    let mut i: usize = 0;
    while i < n
        invariant
            i <= n,
            n == entries@.len(),
            forall|j: int| 0 <= j < i ==> !#[trigger] names_uri(entries@[j], uri@),
        decreases n - i,
    {
        match &entries[i] {
            Some(s) => {
                if s.as_str().to_owned() == uri.to_owned() {
                    proof {
                        lemma_first_position(entries@, uri@, i as int);
                    }
                    return Some((i % 65536) as u16);
                }
            },
            None => {},
        }
        i = i + 1;
    }
    None
}

/// The namespace the agent uses: the index of the configured URI in the
/// namespace array the gateway returned, or the fallback index when the
/// array could not be read or does not list the URI.
pub fn namespace_index(array: Option<Vec<Option<String>>>, uri: &str) -> (ns: u16)
    ensures
        ns == match array {
            Some(a) => match first_position(a@, uri@) {
                Some(i) => (i % 65536) as u16,
                None => FALLBACK_NAMESPACE,
            },
            None => FALLBACK_NAMESPACE,
        },
{
    match array {
        Some(a) => match resolve_namespace(&a, uri) {
            Some(i) => i,
            None => FALLBACK_NAMESPACE,
        },
        None => FALLBACK_NAMESPACE,
    }
}

// ───────────────────────────── pushed job ids ─────────────────────────────

/// The job id that a data change of `PendingJobId` makes pending. `change` is
/// the pushed value: `None` when it is not a string, `Some(None)` for a null
/// string. Only a non-empty string becomes pending.
pub fn pending_job_id(change: Option<Option<String>>) -> (r: Option<String>)
    ensures
        r == match change {
            Some(Some(s)) => if s@.len() > 0 {
                Some(s)
            } else {
                None::<String>
            },
            _ => None::<String>,
        },
{
    match change {
        Some(Some(s)) => {
            if s.as_str().is_empty() {
                None
            } else {
                Some(s)
            }
        },
        _ => None,
    }
}

} // verus!
