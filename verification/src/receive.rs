//! Watching the receive directory: how the device of a received file is
//! named.
use vstd::prelude::*;
use crate::text::{push_text, starts_with_spec};
use crate::config::Config;
use crate::tailscale::{TailscaleStatus, is_tailscale_ip, get_device_name, device_name_spec};

verus! {

/// `<name> (<ip>)`.
pub open spec fn named_spec(name: Seq<char>, ip: Seq<char>) -> Seq<char> {
    name + " ("@ + ip + ")"@
}

/// The name shown for the device at `ip`: its alias; else, for a Tailscale
/// address, the host name of the peer that has it; else the address.
pub open spec fn display_name_spec(config: &Config, ip: Seq<char>, status: Option<&TailscaleStatus>) -> Seq<
    char,
> {
    if config.aliases@.contains_key(ip) {
        named_spec(config.aliases@[ip], ip)
    } else if starts_with_spec(ip, "100."@) && (match status {
        Some(s) => device_name_spec(s.peers@, ip) is Some,
        None => false,
    }) {
        named_spec(device_name_spec(status->0.peers@, ip)->0, ip)
    } else {
        ip
    }
}

/// Whether naming the device at `ip` needs the Tailscale status: it has no
/// alias and is a Tailscale address.
pub fn needs_tailscale_lookup(config: &Config, ip: &str) -> (r: bool)
    ensures
        r == (!config.aliases@.contains_key(ip@) && starts_with_spec(ip@, "100."@)),
{
    let alias = config.aliases.get(ip);
    alias.is_none() && is_tailscale_ip(ip)
}

fn named(name: &str, ip: &str) -> (r: String)
    ensures
        r@ == named_spec(name@, ip@),
{
    let mut r = String::from_str(name);
    push_text(&mut r, " (");
    push_text(&mut r, ip);
    push_text(&mut r, ")");
    r
}

/// The name shown for the device at `ip`, given the Tailscale status when
/// it could be read.
pub fn get_device_display_name(config: &Config, ip: &str, status: Option<&TailscaleStatus>) -> (r:
    String)
    ensures
        r@ == display_name_spec(config, ip@, status),
{
    if let Some(alias) = config.aliases.get(ip) {
        return named(alias.as_str(), ip);
    }
    if is_tailscale_ip(ip) {
        if let Some(s) = status {
            if let Some(name) = get_device_name(s, ip) {
                return named(name.as_str(), ip);
            }
        }
    }
    String::from_str(ip)
}

} // verus!
