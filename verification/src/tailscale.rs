//! Tailscale: recognising Tailscale addresses and naming a peer by address
//! from the status that `tailscale status --json` reports.
use vstd::prelude::*;
use crate::text::{starts_with, starts_with_spec, same_text};
use crate::ssh::{CommandLine, args_view};

verus! {

/// One device of the tailnet.
pub struct TailscaleDevice {
    pub dns_name: String,
    pub tailscale_ips: Vec<String>,
    pub host_name: String,
    pub online: bool,
}

/// The tailnet as seen from this machine: this device and its peers, each
/// peer under its node key.
pub struct TailscaleStatus {
    pub self_device: TailscaleDevice,
    pub peers: Vec<(String, TailscaleDevice)>,
}

/// The command whose output is the Tailscale status as JSON.
pub fn status_command() -> (r: CommandLine)
    ensures
        r.program@ == "tailscale"@,
        args_view(r.args@) == seq!["status"@, "--json"@],
{
    let mut args: Vec<String> = Vec::new();
    args.push(String::from_str("status"));
    args.push(String::from_str("--json"));
    assert(args_view(args@) =~= seq!["status"@, "--json"@]);
    CommandLine { program: String::from_str("tailscale"), args }
}

/// Whether `ip` is a Tailscale address (it begins with `100.`).
pub fn is_tailscale_ip(ip: &str) -> (r: bool)
    ensures
        r == starts_with_spec(ip@, "100."@),
{
    starts_with(ip, "100.")
}

/// The device lists `ip` among its Tailscale addresses.
pub open spec fn lists_ip(d: TailscaleDevice, ip: Seq<char>) -> bool {
    exists|k: int| 0 <= k < d.tailscale_ips@.len() && #[trigger] d.tailscale_ips@[k]@ == ip
}

/// The host name of the first peer that lists `ip`.
pub open spec fn device_name_spec(peers: Seq<(String, TailscaleDevice)>, ip: Seq<char>) -> Option<
    Seq<char>,
>
    decreases peers.len(),
{
    if peers.len() == 0 {
        None
    } else if lists_ip(peers[0].1, ip) {
        Some(peers[0].1.host_name@)
    } else {
        device_name_spec(peers.drop_first(), ip)
    }
}

fn device_lists_ip(d: &TailscaleDevice, ip: &str) -> (r: bool)
    ensures
        r == lists_ip(*d, ip@),
{
    let mut k: usize = 0;
    while k < d.tailscale_ips.len()
        invariant
            k <= d.tailscale_ips@.len(),
            forall|j: int| 0 <= j < k ==> #[trigger] d.tailscale_ips@[j]@ != ip@,
        decreases d.tailscale_ips.len() - k,
    {
        if same_text(d.tailscale_ips[k].as_str(), ip) {
            return true;
        }
        k += 1;
    }
    false
}

/// The host name of the peer whose Tailscale addresses include `ip`
/// (the first such peer, in the order of the status).
pub fn get_device_name(status: &TailscaleStatus, ip: &str) -> (r: Option<String>)
    ensures
        match r {
            Some(n) => device_name_spec(status.peers@, ip@) == Some(n@),
            None => device_name_spec(status.peers@, ip@) is None,
        },
{
    let ghost all = status.peers@;
    let mut i: usize = 0;
    assert(all.skip(0) =~= all);
    while i < status.peers.len()
        invariant
            all == status.peers@,
            i <= all.len(),
            device_name_spec(all, ip@) == device_name_spec(all.skip(i as int), ip@),
        decreases status.peers.len() - i,
    {
        let ghost rest = all.skip(i as int);
        assert(rest[0] == all[i as int]);
        assert(rest.drop_first() =~= all.skip(i + 1));
        if device_lists_ip(&status.peers[i].1, ip) {
            return Some(status.peers[i].1.host_name.clone());
        }
        i += 1;
    }
    None
}

} // verus!
