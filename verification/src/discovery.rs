//! LAN device discovery: the messages a searcher multicasts and the replies
//! a receiving service sends back.
use vstd::prelude::*;
use crate::text::{push_text, same_text};
use crate::number::{decimal, decimal_spec};

verus! {

/// The multicast port of discovery.
pub const MULTICAST_PORT: u16 = 53317;

/// The multicast group of discovery, 239.12.34.56.
pub const MULTICAST_GROUP: (u8, u8, u8, u8) = (239, 12, 34, 56);

/// A search for receiving services.
pub struct DiscoverMessage {
    pub msg_type: String,
    pub version: String,
}

/// A receiving service's reply to a search.
pub struct DeviceInfo {
    pub msg_type: String,
    pub name: String,
    pub ip: String,
    pub port: u16,
    pub device_id: String,
    pub network: String,
}

/// Discovery of receiving services on the local network.
pub struct Discovery;

/// The replies among `candidates` that are discovery replies, in order.
pub open spec fn responses_spec(candidates: Seq<DeviceInfo>) -> Seq<DeviceInfo>
    decreases candidates.len(),
{
    if candidates.len() == 0 {
        Seq::<DeviceInfo>::empty()
    } else {
        let prev = responses_spec(candidates.drop_last());
        if candidates.last().msg_type@ == "THRU_RESPONSE"@ {
            prev.push(candidates.last())
        } else {
            prev
        }
    }
}

impl Discovery {
    /// A discovery handle.
    pub fn new() -> Self {
        Self
    }

    /// The search that a searcher multicasts.
    pub fn discover_request() -> (m: DiscoverMessage)
        ensures
            m.msg_type@ == "THRU_DISCOVER"@,
            m.version@ == "1.0"@,
    {
        DiscoverMessage { msg_type: String::from_str("THRU_DISCOVER"), version: String::from_str("1.0") }
    }

    /// Whether a received datagram is a discovery reply.
    pub fn is_response(device: &DeviceInfo) -> (r: bool)
        ensures
            r == (device.msg_type@ == "THRU_RESPONSE"@),
    {
        same_text(device.msg_type.as_str(), "THRU_RESPONSE")
    }

    /// The discovery replies among the received candidates, in arrival order.
    pub fn collect_responses(candidates: Vec<DeviceInfo>) -> (r: Vec<DeviceInfo>)
        ensures
            r@ == responses_spec(candidates@),
    {
        let ghost all = candidates@;
        let mut r: Vec<DeviceInfo> = Vec::new();
        for d in it: candidates
            invariant
                all == it.seq(),
                r@ == responses_spec(all.take(it.index())),
        {
            let ghost k = it.index();
            proof {
                assert(all.take(k + 1).drop_last() =~= all.take(k));
                assert(all.take(k + 1).last() == all[k]);
            }
            if Self::is_response(&d) {
                r.push(d);
            }
        }
        assert(all.take(all.len() as int) =~= all);
        r
    }

    /// Whether a receiving service answers a datagram: only searches are
    /// answered.
    pub fn should_respond(message: &DiscoverMessage) -> (r: bool)
        ensures
            r == (message.msg_type@ == "THRU_DISCOVER"@),
    {
        same_text(message.msg_type.as_str(), "THRU_DISCOVER")
    }

    /// The reply of a receiving service at `local_ip` and `port`: named by
    /// the host name, or `Unknown` when it cannot be read.
    pub fn response_info(hostname: Option<String>, local_ip: String, port: u16, device_id: String) -> (r:
        DeviceInfo)
        ensures
            r.msg_type@ == "THRU_RESPONSE"@,
            r.name@ == (match hostname {
                Some(h) => h@,
                None => "Unknown"@,
            }),
            r.ip == local_ip,
            r.port == port,
            r.device_id == device_id,
            r.network@ == "lan"@,
    {
        let name = match hostname {
            Some(h) => h,
            None => String::from_str("Unknown"),
        };
        DeviceInfo {
            msg_type: String::from_str("THRU_RESPONSE"),
            name,
            ip: local_ip,
            port,
            device_id,
            network: String::from_str("lan"),
        }
    }
}

/// The line that lists a found device, numbered from 1:
/// `  <n>. <name> (<ip>:<port>) [<network>]`.
pub open spec fn device_line_spec(number: nat, d: DeviceInfo) -> Seq<char> {
    "  "@ + decimal_spec(number) + ". "@ + d.name@ + " ("@ + d.ip@ + ":"@ + decimal_spec(
        d.port as nat,
    ) + ") ["@ + d.network@ + "]"@
}

/// The line that lists the device at position `index` (counted from 0).
pub fn device_line(index: usize, device: &DeviceInfo) -> (r: String)
    requires
        index < usize::MAX,
    ensures
        r@ == device_line_spec(index as nat + 1, *device),
{
    let mut r = String::from_str("  ");
    let n = decimal((index + 1) as u64);
    push_text(&mut r, n.as_str());
    push_text(&mut r, ". ");
    push_text(&mut r, device.name.as_str());
    push_text(&mut r, " (");
    push_text(&mut r, device.ip.as_str());
    push_text(&mut r, ":");
    let p = decimal(device.port as u64);
    push_text(&mut r, p.as_str());
    push_text(&mut r, ") [");
    push_text(&mut r, device.network.as_str());
    push_text(&mut r, "]");
    r
}

} // verus!
