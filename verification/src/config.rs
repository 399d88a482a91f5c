//! The configured pool of inference hosts.
//!
//! A pool is an ordered list of hosts. Its primary hosts (enabled, not a
//! fallback) and its fallback hosts (enabled, a fallback) are views that
//! are computed from the list on demand and keep its order.

use vstd::prelude::*;

verus! {

/// A host of the pool.
#[derive(Debug, Clone, PartialEq)]
pub struct OllamaHost {
    /// Human-readable name, unique within a pool.
    pub name: String,
    /// Base URL of the host's API.
    pub base_url: String,
    /// Whether this host is enabled for use.
    pub enabled: bool,
    /// Whether this host is used only when no primary host is available.
    pub fallback: bool,
    /// Optional description.
    pub description: Option<String>,
}

/// The value of `enabled` for a host that does not say.
pub fn default_true() -> (b: bool)
    ensures
        b,
{
    true
}

/// The host settings of a configuration.
#[derive(Debug, Clone)]
pub struct OllamaSection {
    /// Default timeout in milliseconds for requests.
    pub default_timeout_ms: Option<u64>,
    /// Name of the host to use when none is given.
    pub default_host: Option<String>,
    /// Model to use when none is given.
    pub default_model: Option<String>,
    /// The pool, in the order of declaration.
    pub hosts: Vec<OllamaHost>,
}

impl Default for OllamaSection {
    fn default() -> (r: Self)
        ensures
            r.default_timeout_ms is None,
            r.default_host is None,
            r.default_model is None,
            r.hosts@.len() == 0,
    {
        OllamaSection {
            default_timeout_ms: None,
            default_host: None,
            default_model: None,
            hosts: Vec::new(),
        }
    }
}

/// Root of the configuration.
#[derive(Debug, Clone)]
pub struct GuardianConfig {
    /// The host settings.
    pub ollama: OllamaSection,
}

impl Default for GuardianConfig {
    fn default() -> (r: Self)
        ensures
            r.ollama.default_timeout_ms is None,
            r.ollama.default_host is None,
            r.ollama.default_model is None,
            r.ollama.hosts@.len() == 0,
    {
        GuardianConfig { ollama: OllamaSection::default() }
    }
}

/// The timeout used where the configuration gives none, in milliseconds.
pub open spec fn standard_timeout_ms() -> u64 {
    2500
}

/// The host is enabled and its being a fallback is as asked.
pub open spec fn usable_as(h: OllamaHost, fallback: bool) -> bool {
    h.enabled && h.fallback == fallback
}

/// The hosts from index `from` on that are enabled and whose being a
/// fallback is as asked, in the order of the pool.
pub open spec fn usable_hosts(hosts: Seq<OllamaHost>, fallback: bool, from: int) -> Seq<OllamaHost>
    decreases hosts.len() - from,
{
    if from < 0 || from >= hosts.len() {
        Seq::empty()
    } else {
        let here = if usable_as(hosts[from], fallback) {
            seq![hosts[from]]
        } else {
            Seq::empty()
        };
        here + usable_hosts(hosts, fallback, from + 1)
    }
}

/// The primary hosts of a pool.
pub open spec fn primaries(hosts: Seq<OllamaHost>) -> Seq<OllamaHost> {
    usable_hosts(hosts, false, 0)
}

/// The fallback hosts of a pool.
pub open spec fn fallbacks(hosts: Seq<OllamaHost>) -> Seq<OllamaHost> {
    usable_hosts(hosts, true, 0)
}

/// The hosts of a pool in the order in which they are tried: the primary
/// hosts, then the fallback hosts.
pub open spec fn priority_order(hosts: Seq<OllamaHost>) -> Seq<OllamaHost> {
    primaries(hosts) + fallbacks(hosts)
}

/// The hosts that a vector of references points to.
pub open spec fn hosts_of(v: Seq<&OllamaHost>) -> Seq<OllamaHost> {
    v.map_values(|h: &OllamaHost| *h)
}

/// Every host of the selection is a host of the pool, is enabled, and is
/// a fallback or not as asked.
pub proof fn lemma_usable_hosts(hosts: Seq<OllamaHost>, fallback: bool, from: int)
    requires
        0 <= from,
    ensures
        forall|k: int|
            0 <= k < usable_hosts(hosts, fallback, from).len() ==> {
                let h = #[trigger] usable_hosts(hosts, fallback, from)[k];
                usable_as(h, fallback) && exists|j: int| from <= j < hosts.len() && hosts[j] == h
            },
    decreases hosts.len() - from,
{
    if from < hosts.len() {
        lemma_usable_hosts(hosts, fallback, from + 1);
        let rest = usable_hosts(hosts, fallback, from + 1);
        let all = usable_hosts(hosts, fallback, from);
        assert forall|k: int| 0 <= k < all.len() implies {
            let h = #[trigger] all[k];
            usable_as(h, fallback) && exists|j: int| from <= j < hosts.len() && hosts[j] == h
        } by {
            let h = all[k];
            if usable_as(hosts[from], fallback) {
                if k == 0 {
                    assert(hosts[from] == h);
                } else {
                    assert(h == rest[k - 1]);
                    let j = choose|j: int| from + 1 <= j < hosts.len() && hosts[j] == rest[k - 1];
                    assert(hosts[j] == h);
                }
            } else {
                assert(h == rest[k]);
                let j = choose|j: int| from + 1 <= j < hosts.len() && hosts[j] == rest[k];
                assert(hosts[j] == h);
            }
        }
    }
}

/// No host is both a primary and a fallback host.
pub proof fn lemma_views_disjoint(hosts: Seq<OllamaHost>, p: int, f: int)
    requires
        0 <= p < primaries(hosts).len(),
        0 <= f < fallbacks(hosts).len(),
    ensures
        primaries(hosts)[p] != fallbacks(hosts)[f],
{
    lemma_usable_hosts(hosts, false, 0);
    lemma_usable_hosts(hosts, true, 0);
    assert(usable_as(primaries(hosts)[p], false));
    assert(usable_as(fallbacks(hosts)[f], true));
}

/// No two hosts of the pool have the same name.
pub open spec fn unique_names(hosts: Seq<OllamaHost>) -> bool {
    forall|i: int, j: int|
        0 <= i < j < hosts.len() ==> (#[trigger] hosts[i]).name@ != (#[trigger] hosts[j]).name@
}

/// Whether no two hosts of the pool have the same name.
pub fn has_unique_names(hosts: &Vec<OllamaHost>) -> (b: bool)
    ensures
        b == unique_names(hosts@),
{
    let mut j: usize = 0;
    while j < hosts.len()
        invariant
            j <= hosts.len(),
            forall|a: int, b: int|
                0 <= a < b < j ==> (#[trigger] hosts@[a]).name@ != (#[trigger] hosts@[b]).name@,
        decreases hosts.len() - j,
    {
        let mut i: usize = 0;
        while i < j
            invariant
                i <= j < hosts.len(),
                forall|a: int| 0 <= a < i ==> (#[trigger] hosts@[a]).name@ != hosts@[j as int].name@,
            decreases j - i,
        {
            if hosts[i].name == hosts[j].name {
                return false;
            }
            i = i + 1;
        }
        j = j + 1;
    }
    true
}

impl GuardianConfig {
    /// The default timeout in milliseconds.
    pub fn default_timeout_ms(&self) -> (ms: u64)
        ensures
            ms == match self.ollama.default_timeout_ms {
                Some(t) => t,
                None => standard_timeout_ms(),
            },
    {
        match self.ollama.default_timeout_ms {
            Some(t) => t,
            None => 2500,
        }
    }

    fn select(&self, fallback: bool) -> (r: Vec<&OllamaHost>)
        ensures
            hosts_of(r@) == usable_hosts(self.ollama.hosts@, fallback, 0),
    {
        let hosts = &self.ollama.hosts;
        let mut out: Vec<&OllamaHost> = Vec::new();
        let mut i: usize = 0;
        assert(hosts_of(out@) =~= Seq::<OllamaHost>::empty());
        while i < hosts.len()
            invariant
                i <= hosts.len(),
                hosts_of(out@) + usable_hosts(hosts@, fallback, i as int) == usable_hosts(
                    hosts@,
                    fallback,
                    0,
                ),
            decreases hosts.len() - i,
        {
            let ghost before = hosts_of(out@);
            let h = &hosts[i];
            if h.enabled && h.fallback == fallback {
                out.push(h);
                assert(hosts_of(out@) =~= before + seq![*h]);
            }
            assert(hosts_of(out@) + usable_hosts(hosts@, fallback, i + 1) =~= before
                + usable_hosts(hosts@, fallback, i as int));
            i = i + 1;
        }
        assert(hosts_of(out@) + Seq::<OllamaHost>::empty() =~= hosts_of(out@));
        out
    }

    /// The primary hosts: enabled and not a fallback, in the order of the
    /// pool.
    pub fn primary_hosts(&self) -> (r: Vec<&OllamaHost>)
        ensures
            hosts_of(r@) == primaries(self.ollama.hosts@),
    {
        self.select(false)
    }

    /// The fallback hosts: enabled and a fallback, in the order of the
    /// pool.
    pub fn fallback_hosts(&self) -> (r: Vec<&OllamaHost>)
        ensures
            hosts_of(r@) == fallbacks(self.ollama.hosts@),
    {
        self.select(true)
    }

    /// All enabled hosts, the primary hosts first, then the fallback
    /// hosts.
    pub fn enabled_hosts(&self) -> (r: Vec<&OllamaHost>)
        ensures
            hosts_of(r@) == priority_order(self.ollama.hosts@),
    {
        let mut hosts = self.primary_hosts();
        let mut more = self.fallback_hosts();
        let ghost first = hosts_of(hosts@);
        let ghost second = hosts_of(more@);
        hosts.append(&mut more);
        assert(hosts_of(hosts@) =~= first + second);
        hosts
    }
}

} // verus!
