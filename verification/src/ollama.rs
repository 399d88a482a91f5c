//! What a probe of a host means, and the collection of probe results.
//!
//! The requests themselves are made elsewhere. This module takes what came
//! of a request as a plain value and decides what it says about the host.

use vstd::prelude::*;
use vstd::string::*;
use crate::config::OllamaHost;
use crate::text::{chars_of, push_chars, slice_of};

verus! {

/// A model available on a host.
#[derive(Debug, Clone, PartialEq)]
pub struct OllamaModel {
    /// Model name and tag.
    pub name: String,
    /// Last modification timestamp.
    pub modified_at: Option<String>,
    /// Model size in bytes.
    pub size: Option<u64>,
    /// Digest of the model.
    pub digest: Option<String>,
}

/// Request for text generation.
#[derive(Debug)]
pub struct GenerateRequest {
    /// Model name to use.
    pub model: String,
    /// The prompt to send.
    pub prompt: String,
    /// Whether to stream the response; a single response is asked for.
    pub stream: bool,
}

/// Response from text generation.
#[derive(Debug)]
pub struct GenerateResponse {
    /// The generated text.
    pub response: String,
    /// Whether generation is complete.
    pub done: bool,
    /// Total duration in nanoseconds.
    pub total_duration: Option<u64>,
    /// Number of tokens evaluated.
    pub eval_count: Option<u64>,
}

impl GenerateRequest {
    /// A request for a single, unstreamed response.
    pub fn new(model: &str, prompt: &str) -> (r: Self)
        ensures
            r.model@ == model@,
            r.prompt@ == prompt@,
            !r.stream,
    {
        GenerateRequest {
            model: String::from_str(model),
            prompt: String::from_str(prompt),
            stream: false,
        }
    }
}

/// Result of probing a host.
#[derive(Debug, Clone)]
pub struct PingResult {
    /// The host that was probed.
    pub host: OllamaHost,
    /// Whether the host answered with success.
    pub reachable: bool,
    /// Response time in milliseconds, where a response was received.
    pub latency_ms: Option<u64>,
    /// What went wrong, where the host is not reachable.
    pub error: Option<String>,
}

/// What a [`PingResult`] says, with its text as a character sequence.
pub struct Ping {
    pub host: OllamaHost,
    pub reachable: bool,
    pub latency_ms: Option<u64>,
    pub error: Option<Seq<char>>,
}

impl View for PingResult {
    type V = Ping;

    open spec fn view(&self) -> Ping {
        Ping {
            host: self.host,
            reachable: self.reachable,
            latency_ms: self.latency_ms,
            error: match self.error {
                Some(e) => Some(e@),
                None => None,
            },
        }
    }
}

impl Ping {
    /// The invariant of a probe result: a reachable host has a latency
    /// and no error; an unreachable one has an error.
    pub open spec fn wf(self) -> bool {
        &&& self.reachable ==> self.latency_ms is Some && self.error is None
        &&& !self.reachable ==> self.error is Some
    }
}

/// What came of one probe.
#[derive(Debug)]
pub enum ProbeOutcome {
    /// The host answered, with this status code, after this many
    /// milliseconds. `status_line` is the status as it is shown.
    Answered { status: u16, status_line: String, latency_ms: u64 },
    /// No answer was received, for this reason.
    Failed { reason: String },
}

/// The status code of success.
pub open spec fn status_ok() -> u16 {
    200
}

/// What an outcome says about the host: success with its latency, another
/// answer with its latency and status, or a failure without a latency.
pub open spec fn interpretation(host: OllamaHost, outcome: ProbeOutcome) -> Ping {
    match outcome {
        ProbeOutcome::Answered { status, status_line, latency_ms } => if status == status_ok() {
            Ping { host, reachable: true, latency_ms: Some(latency_ms), error: None }
        } else {
            Ping {
                host,
                reachable: false,
                latency_ms: Some(latency_ms),
                error: Some("HTTP status: "@ + status_line@),
            }
        },
        ProbeOutcome::Failed { reason } => Ping {
            host,
            reachable: false,
            latency_ms: None,
            error: Some(reason@),
        },
    }
}

/// A copy of a host.
pub fn copy_host(host: &OllamaHost) -> (r: OllamaHost)
    ensures
        r == *host,
{
    OllamaHost {
        name: host.name.clone(),
        base_url: host.base_url.clone(),
        enabled: host.enabled,
        fallback: host.fallback,
        description: match &host.description {
            Some(d) => Some(d.clone()),
            None => None,
        },
    }
}

/// Interprets the outcome of probing `host`.
pub fn interpret_probe(host: &OllamaHost, outcome: &ProbeOutcome) -> (r: PingResult)
    ensures
        r@ == interpretation(*host, *outcome),
        r@.wf(),
{
    match outcome {
        ProbeOutcome::Answered { status, status_line, latency_ms } => {
            if *status == 200 {
                PingResult {
                    host: copy_host(host),
                    reachable: true,
                    latency_ms: Some(*latency_ms),
                    error: None,
                }
            } else {
                let mut error = String::new();
                error.append("HTTP status: ");
                error.append(status_line.as_str());
                assert(error@ =~= "HTTP status: "@ + status_line@);
                PingResult {
                    host: copy_host(host),
                    reachable: false,
                    latency_ms: Some(*latency_ms),
                    error: Some(error),
                }
            }
        },
        ProbeOutcome::Failed { reason } => PingResult {
            host: copy_host(host),
            reachable: false,
            latency_ms: None,
            error: Some(reason.clone()),
        },
    }
}

/// `s` without its trailing slashes.
pub open spec fn without_trailing_slashes(s: Seq<char>) -> Seq<char>
    decreases s.len(),
{
    if s.len() > 0 && s.last() == '/' {
        without_trailing_slashes(s.drop_last())
    } else {
        s
    }
}

/// The address of an API route on a host: the base URL without trailing
/// slashes, followed by the route.
pub open spec fn route(base_url: Seq<char>, path: Seq<char>) -> Seq<char> {
    without_trailing_slashes(base_url) + path
}

/// The address of the route `path` on the host with this base URL.
pub fn endpoint(base_url: &str, path: &str) -> (url: String)
    ensures
        url@ == route(base_url@, path@),
{
    let base = chars_of(base_url);
    let mut end: usize = base.len();
    assert(base@.subrange(0, end as int) =~= base@);
    while end > 0 && base[end - 1] == '/'
        invariant
            end <= base.len(),
            without_trailing_slashes(base@) == without_trailing_slashes(
                base@.subrange(0, end as int),
            ),
        decreases end,
    {
        assert(base@.subrange(0, end as int).drop_last() =~= base@.subrange(0, end - 1));
        end = end - 1;
    }
    let kept = slice_of(&base, 0, end);
    let mut url = String::new();
    push_chars(&mut url, &kept);
    url.append(path);
    assert(url@ =~= route(base_url@, path@));
    url
}

/// The address that is probed and that lists the models of a host.
pub fn tags_url(host: &OllamaHost) -> (url: String)
    ensures
        url@ == route(host.base_url@, "/api/tags"@),
{
    endpoint(host.base_url.as_str(), "/api/tags")
}

/// The address that generates text on a host.
pub fn generate_url(host: &OllamaHost) -> (url: String)
    ensures
        url@ == route(host.base_url@, "/api/generate"@),
{
    endpoint(host.base_url.as_str(), "/api/generate")
}

/// Whether a status code is one of success.
pub fn is_success(status: u16) -> (b: bool)
    ensures
        b == (200 <= status <= 299),
{
    200 <= status && status <= 299
}

/// The message for a host that answered without success.
pub fn http_failure(host_name: &str, status: &str, detail: &str) -> (message: String)
    ensures
        message@ == "Host "@ + host_name@ + " returned HTTP "@ + status@ + ": "@ + detail@,
{
    let mut message = String::new();
    message.append("Host ");
    message.append(host_name);
    message.append(" returned HTTP ");
    message.append(status);
    message.append(": ");
    message.append(detail);
    assert(message@ =~= "Host "@ + host_name@ + " returned HTTP "@ + status@ + ": "@ + detail@);
    message
}

/// Some model of the list has this name.
pub open spec fn lists_model(models: Seq<OllamaModel>, name: Seq<char>) -> bool {
    exists|i: int| 0 <= i < models.len() && (#[trigger] models[i]).name@ == name
}

/// Whether some model of the list has this name.
pub fn has_model(models: &Vec<OllamaModel>, name: &str) -> (b: bool)
    ensures
        b == lists_model(models@, name@),
{
    let wanted = chars_of(name);
    let mut i: usize = 0;
    while i < models.len()
        invariant
            i <= models.len(),
            wanted@ == name@,
            forall|k: int| 0 <= k < i ==> (#[trigger] models@[k]).name@ != name@,
        decreases models.len() - i,
    {
        let found = chars_of(models[i].name.as_str());
        if crate::text::same_chars(&found, &wanted) {
            return true;
        }
        i = i + 1;
    }
    false
}

/// The slots of a board after an outcome arrived for slot `index`: the
/// first outcome for a slot is kept; one for a slot that is taken, or for
/// no slot of the board, changes nothing.
pub open spec fn recorded(
    slots: Seq<Option<ProbeOutcome>>,
    index: int,
    outcome: ProbeOutcome,
) -> Seq<Option<ProbeOutcome>> {
    if 0 <= index < slots.len() && slots[index] is None {
        slots.update(index, Some(outcome))
    } else {
        slots
    }
}

/// The slots of a board of `n` hosts after the first `upto` arrivals.
pub open spec fn slots_after(n: nat, arrivals: Seq<(int, ProbeOutcome)>, upto: int) -> Seq<
    Option<ProbeOutcome>,
>
    decreases upto,
{
    if upto <= 0 || upto > arrivals.len() {
        Seq::new(n, |i: int| None)
    } else {
        recorded(slots_after(n, arrivals, upto - 1), arrivals[upto - 1].0, arrivals[upto - 1].1)
    }
}

/// The first outcome for slot `i` among the first `upto` arrivals.
pub open spec fn first_for(arrivals: Seq<(int, ProbeOutcome)>, i: int, upto: int) -> Option<
    ProbeOutcome,
>
    decreases upto,
{
    if upto <= 0 || upto > arrivals.len() {
        None
    } else {
        match first_for(arrivals, i, upto - 1) {
            Some(o) => Some(o),
            None => if arrivals[upto - 1].0 == i {
                Some(arrivals[upto - 1].1)
            } else {
                None
            },
        }
    }
}

/// Whatever the order in which the outcomes arrive, each slot of the board
/// holds the first outcome that arrived for it, and the board has as many
/// slots as there are hosts.
pub proof fn lemma_arrival_order_is_irrelevant(
    n: nat,
    arrivals: Seq<(int, ProbeOutcome)>,
    upto: int,
)
    requires
        0 <= upto <= arrivals.len(),
    ensures
        slots_after(n, arrivals, upto).len() == n,
        forall|i: int|
            0 <= i < n ==> #[trigger] slots_after(n, arrivals, upto)[i] == first_for(
                arrivals,
                i,
                upto,
            ),
    decreases upto,
{
    if upto > 0 {
        lemma_arrival_order_is_irrelevant(n, arrivals, upto - 1);
    }
}

/// The results of a board whose slots are all taken: for each host, in
/// the order of the hosts, the interpretation of its outcome.
pub open spec fn board_results(hosts: Seq<OllamaHost>, slots: Seq<Option<ProbeOutcome>>) -> Seq<Ping> {
    Seq::new(hosts.len(), |i: int| interpretation(hosts[i], slots[i]->0))
}

/// What a sequence of probe results says.
pub open spec fn pings(results: Seq<PingResult>) -> Seq<Ping> {
    results.map_values(|r: PingResult| r@)
}

/// A probed host with the outcome of its probe, once that has arrived.
struct Slot {
    host: OllamaHost,
    outcome: Option<ProbeOutcome>,
}

/// One slot for each probed host, filled as the probes complete.
pub struct ProbeBoard {
    entries: Vec<Slot>,
}

impl ProbeBoard {
    /// The probed hosts, in the order in which they were given.
    pub closed spec fn hosts(self) -> Seq<OllamaHost> {
        self.entries@.map_values(|s: Slot| s.host)
    }

    /// For each host, the outcome of its probe where it has arrived.
    pub closed spec fn slots(self) -> Seq<Option<ProbeOutcome>> {
        self.entries@.map_values(|s: Slot| s.outcome)
    }

    /// Every probe has completed.
    pub open spec fn complete(self) -> bool {
        forall|i: int| 0 <= i < self.slots().len() ==> (#[trigger] self.slots()[i]) is Some
    }

    /// A board for the given hosts, with no probe completed.
    pub fn new(hosts: &Vec<OllamaHost>) -> (board: Self)
        ensures
            board.hosts() == hosts@,
            board.slots() == Seq::new(hosts@.len(), |i: int| None::<ProbeOutcome>),
    {
        let mut entries: Vec<Slot> = Vec::new();
        let mut i: usize = 0;
        while i < hosts.len()
            invariant
                i <= hosts.len(),
                entries@.len() == i,
                forall|k: int|
                    0 <= k < i ==> (#[trigger] entries@[k]).outcome is None && entries@[k].host
                        == hosts@[k],
            decreases hosts.len() - i,
        {
            entries.push(Slot { host: copy_host(&hosts[i]), outcome: None });
            i = i + 1;
        }
        let board = ProbeBoard { entries };
        assert(board.hosts() =~= hosts@);
        assert(board.slots() =~= Seq::new(hosts@.len(), |i: int| None::<ProbeOutcome>));
        board
    }

    /// The number of probed hosts.
    pub fn len(&self) -> (n: usize)
        ensures
            n == self.hosts().len(),
            n == self.slots().len(),
    {
        self.entries.len()
    }

    /// The host of slot `index`.
    pub fn host(&self, index: usize) -> (h: Option<&OllamaHost>)
        ensures
            match h {
                Some(host) => index < self.hosts().len() && *host == self.hosts()[index as int],
                None => index >= self.hosts().len(),
            },
    {
        if index < self.entries.len() {
            Some(&self.entries[index].host)
        } else {
            None
        }
    }

    /// Records the outcome of the probe of slot `index`. Returns whether
    /// the outcome was taken: it is not where the slot has an outcome
    /// already or the board has no such slot.
    pub fn record(&mut self, index: usize, outcome: ProbeOutcome) -> (taken: bool)
        ensures
            final(self).hosts() == old(self).hosts(),
            final(self).slots() == recorded(old(self).slots(), index as int, outcome),
            taken == (index < old(self).slots().len() && old(self).slots()[index as int] is None),
    {
        if index < self.entries.len() && self.entries[index].outcome.is_none() {
            let host = copy_host(&self.entries[index].host);
            self.entries.set(index, Slot { host, outcome: Some(outcome) });
            assert(self.hosts() =~= old(self).hosts());
            assert(self.slots() =~= recorded(old(self).slots(), index as int, outcome));
            true
        } else {
            false
        }
    }

    /// Whether every probe has completed.
    pub fn is_complete(&self) -> (b: bool)
        ensures
            b == self.complete(),
    {
        let mut i: usize = 0;
        while i < self.entries.len()
            invariant
                i <= self.entries.len(),
                forall|k: int| 0 <= k < i ==> (#[trigger] self.slots()[k]) is Some,
            decreases self.entries.len() - i,
        {
            if self.entries[i].outcome.is_none() {
                assert(self.slots()[i as int] is None);
                return false;
            }
            assert(self.slots()[i as int] is Some);
            i = i + 1;
        }
        true
    }

    /// The results of the probes, one for each host in the order in which
    /// the hosts were given, once every probe has completed; `None`
    /// before that.
    pub fn results(&self) -> (r: Option<Vec<PingResult>>)
        ensures
            r is Some <==> self.complete(),
            r is Some ==> pings(r->0@) == board_results(self.hosts(), self.slots()),
            r is Some ==> r->0@.len() == self.hosts().len(),
    {
        let mut out: Vec<PingResult> = Vec::new();
        let mut i: usize = 0;
        while i < self.entries.len()
            invariant
                i <= self.entries.len(),
                out@.len() == i,
                forall|k: int| 0 <= k < i ==> (#[trigger] self.slots()[k]) is Some,
                forall|k: int|
                    0 <= k < i ==> (#[trigger] out@[k])@ == interpretation(
                        self.hosts()[k],
                        self.slots()[k]->0,
                    ),
            decreases self.entries.len() - i,
        {
            assert(self.slots()[i as int] == self.entries@[i as int].outcome);
            assert(self.hosts()[i as int] == self.entries@[i as int].host);
            match &self.entries[i].outcome {
                Some(outcome) => {
                    let r = interpret_probe(&self.entries[i].host, outcome);
                    out.push(r);
                },
                None => {
                    return None;
                },
            }
            i = i + 1;
        }
        assert(pings(out@) =~= board_results(self.hosts(), self.slots()));
        Some(out)
    }
}

} // verus!
