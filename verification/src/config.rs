//! Main configuration for concord.

use crate::persistence::{parse_unsigned, spec_parse_unsigned};
use vstd::prelude::*;

verus! {

/// Main configuration for concord.
pub struct ConcordConfig {
    pub tor_port: u16,
    pub port: u16,
    pub host: String,
    pub root_dir: String,
}

impl Default for ConcordConfig {
    fn default() -> (c: ConcordConfig)
        ensures
            c.tor_port == 19901,
            c.port == 9919,
            c.host@ == "127.0.0.1"@,
            c.root_dir@ == "~/.concord"@,
    {
        ConcordConfig {
            tor_port: 19901,
            port: 9919,
            host: "127.0.0.1".to_owned(),
            root_dir: "~/.concord".to_owned(),
        }
    }
}

impl ConcordConfig {
    /// A copy of this configuration.
    pub fn duplicate(&self) -> (c: ConcordConfig)
        ensures
            c == *self,
    {
        ConcordConfig {
            tor_port: self.tor_port,
            port: self.port,
            host: self.host.clone(),
            root_dir: self.root_dir.clone(),
        }
    }
}

/// A port given on the command line, or the default when none is given;
/// nothing when one is given that is not a number that fits in 16 bits.
pub open spec fn port_arg(arg: Option<Seq<char>>, default: u16) -> Option<u16> {
    match arg {
        None => Some(default),
        Some(a) => match spec_parse_unsigned(a, u16::MAX as nat) {
            Some(v) => Some(v as u16),
            None => None,
        },
    }
}

/// A port given on the command line, or the default.
fn port_from_arg(arg: &Option<String>, default: u16) -> (r: Option<u16>)
    ensures
        r == port_arg(
            match arg {
                Some(a) => Some(a@),
                None => None,
            },
            default,
        ),
{
    match arg {
        None => Some(default),
        Some(a) => match parse_unsigned(a.as_str(), 0xffff) {
            Some(v) => Some(v as u16),
            None => None,
        },
    }
}

/// The settings the program starts with, from its command line: the Tor
/// proxy port (1234 unless given), the port to serve on (8093 unless
/// given), and the root directory (`~/.concord` unless given). Nothing when
/// a port given is not a number that fits in 16 bits.
pub fn settings_from_args(tor_port: Option<String>, port: Option<String>, root_dir: Option<String>) -> (res: Option<
    (u16, u16, String),
>)
    ensures
        match (
            port_arg(
                match tor_port {
                    Some(a) => Some(a@),
                    None => None,
                },
                1234,
            ),
            port_arg(
                match port {
                    Some(a) => Some(a@),
                    None => None,
                },
                8093,
            ),
        ) {
            (Some(t), Some(p)) => res matches Some(r) && r.0 == t && r.1 == p && r.2@ == match root_dir {
                Some(d) => d@,
                None => "~/.concord"@,
            },
            _ => res is None,
        },
{
    let t = port_from_arg(&tor_port, 1234)?;
    let p = port_from_arg(&port, 8093)?;
    let root = match root_dir {
        Some(d) => d,
        None => "~/.concord".to_owned(),
    };
    Some((t, p, root))
}

} // verus!
