//! The configuration as text.

use vstd::prelude::*;
use vstd::string::*;
use crate::config::{standard_timeout_ms, GuardianConfig, OllamaHost};
use crate::text::{decimal, push_decimal};

verus! {

/// The lines that describe one host.
pub open spec fn host_info(h: OllamaHost) -> Seq<char> {
    "  - "@ + h.name@ + " ("@ + h.base_url@ + ") ["@ + (if h.enabled {
        "enabled"@
    } else {
        "disabled"@
    }) + (if h.fallback {
        ", fallback"@
    } else {
        Seq::empty()
    }) + "]\n"@ + (match h.description {
        Some(d) => "    "@ + d@ + "\n"@,
        None => Seq::empty(),
    })
}

/// The lines that describe the first `n` hosts.
pub open spec fn hosts_info(hosts: Seq<OllamaHost>, n: int) -> Seq<char>
    decreases n,
{
    if n <= 0 || n > hosts.len() {
        Seq::empty()
    } else {
        hosts_info(hosts, n - 1) + host_info(hosts[n - 1])
    }
}

/// The settings of a configuration, before its hosts.
pub open spec fn settings_text(c: GuardianConfig) -> Seq<char> {
    "Guardian CLI Configuration\n\n"@ + "Timeout: "@ + decimal(
        (match c.ollama.default_timeout_ms {
            Some(t) => t,
            None => standard_timeout_ms(),
        }) as nat,
    ) + "ms\n"@ + (match c.ollama.default_host {
        Some(h) => "Default host: "@ + h@ + "\n"@,
        None => Seq::empty(),
    }) + (match c.ollama.default_model {
        Some(m) => "Default model: "@ + m@ + "\n"@,
        None => Seq::empty(),
    })
}

/// A configuration as text: its settings, then its hosts in the order of
/// the pool.
pub open spec fn config_text(c: GuardianConfig) -> Seq<char> {
    settings_text(c) + "\nConfigured hosts:\n"@ + (if c.ollama.hosts@.len() == 0 {
        "  (none)\n"@
    } else {
        hosts_info(c.ollama.hosts@, c.ollama.hosts@.len() as int)
    })
}

fn push_host_info(out: &mut String, h: &OllamaHost)
    ensures
        final(out)@ == old(out)@ + host_info(*h),
{
    out.append("  - ");
    out.append(h.name.as_str());
    out.append(" (");
    out.append(h.base_url.as_str());
    out.append(") [");
    if h.enabled {
        out.append("enabled");
    } else {
        out.append("disabled");
    }
    if h.fallback {
        out.append(", fallback");
    }
    out.append("]\n");
    let ghost head = out@;
    match &h.description {
        Some(d) => {
            out.append("    ");
            out.append(d.as_str());
            out.append("\n");
        },
        None => {},
    }
    assert(out@ =~= head + (match h.description {
        Some(d) => "    "@ + d@ + "\n"@,
        None => Seq::empty(),
    }));
    assert(out@ =~= old(out)@ + host_info(*h));
}

fn push_settings(out: &mut String, config: &GuardianConfig)
    ensures
        final(out)@ == old(out)@ + settings_text(*config),
{
    out.append("Guardian CLI Configuration\n\n");
    out.append("Timeout: ");
    push_decimal(out, config.default_timeout_ms());
    out.append("ms\n");
    let ghost head = out@;
    match &config.ollama.default_host {
        Some(h) => {
            out.append("Default host: ");
            out.append(h.as_str());
            out.append("\n");
        },
        None => {},
    }
    let ghost with_host = out@;
    assert(with_host =~= head + (match config.ollama.default_host {
        Some(h) => "Default host: "@ + h@ + "\n"@,
        None => Seq::empty(),
    }));
    match &config.ollama.default_model {
        Some(m) => {
            out.append("Default model: ");
            out.append(m.as_str());
            out.append("\n");
        },
        None => {},
    }
    assert(out@ =~= with_host + (match config.ollama.default_model {
        Some(m) => "Default model: "@ + m@ + "\n"@,
        None => Seq::empty(),
    }));
    assert(out@ =~= old(out)@ + settings_text(*config));
}

/// Shows the configuration as text.
pub fn show_config(config: &GuardianConfig) -> (text: String)
    ensures
        text@ == config_text(*config),
{
    let mut text = String::new();
    push_settings(&mut text, config);
    text.append("\nConfigured hosts:\n");
    let hosts = &config.ollama.hosts;
    if hosts.len() == 0 {
        text.append("  (none)\n");
    } else {
        let ghost start = text@;
        let mut i: usize = 0;
        assert(text@ =~= start + hosts_info(hosts@, 0));
        while i < hosts.len()
            invariant
                i <= hosts.len(),
                text@ == start + hosts_info(hosts@, i as int),
            decreases hosts.len() - i,
        {
            push_host_info(&mut text, &hosts[i]);
            assert(text@ =~= start + hosts_info(hosts@, i + 1));
            i = i + 1;
        }
    }
    assert(text@ =~= config_text(*config));
    text
}

} // verus!
