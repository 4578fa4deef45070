//! Sending a file: over SSH to the configured phone, or over HTTP to a
//! receiving service on the LAN, given by address or picked from the
//! devices that discovery found.
use vstd::prelude::*;
use crate::text::{chars_of, split_chars, split_spec, views, string_of, trim, trim_spec,
    lemma_split_append_plain, lemma_split_push_sep};
use crate::number::{parse_unsigned, parse_unsigned_chars, parse_unsigned_spec, decimal_spec,
    lemma_decimal_digits, law_parse_decimal_roundtrip};
use crate::discovery::DeviceInfo;
use crate::http_server::DEFAULT_PORT;
use crate::config::Config;

verus! {

/// How a file is sent over SSH.
#[derive(Debug, PartialEq, Eq)]
pub enum TransferMethod {
    Rsync,
    Scp,
    Auto,
}

/// What `send` does.
#[derive(Debug, PartialEq, Eq)]
pub enum SendPlan {
    /// Upload over HTTP to the given address and port, or to a device that
    /// discovery finds when no address was given.
    Lan { target: Option<(String, u16)> },
    /// Send over SSH to the configured phone.
    Ssh { method: TransferMethod },
}

/// The port of an address given as `ip:port`: the text after the first
/// colon read as a port, or the default service port when there is none or
/// it is not a port number.
pub open spec fn lan_port_spec(addr: Seq<char>) -> nat {
    let parts = split_spec(addr, ':');
    if parts.len() >= 2 {
        match parse_unsigned_spec(parts[1], 65535) {
            Some(v) => v,
            None => DEFAULT_PORT as nat,
        }
    } else {
        DEFAULT_PORT as nat
    }
}

/// Reads a LAN address `ip[:port]`: the address is the text before the
/// first colon.
pub fn parse_lan_address(addr: &str) -> (r: (String, u16))
    ensures
        r.0@ == split_spec(addr@, ':')[0],
        r.1 as nat == lan_port_spec(addr@),
{
    let cs = chars_of(addr);
    let parts = split_chars(&cs, ':');
    proof {
        crate::text::lemma_split_len(cs@, ':');
        assert(views(parts@)[0] == parts@[0]@);
    }
    let ip = string_of(&parts[0]);
    let port: u16 = if parts.len() >= 2 {
        assert(views(parts@)[1] == parts@[1]@);
        match parse_unsigned_chars(&parts[1], 65535) {
            Some(v) => v as u16,
            None => DEFAULT_PORT,
        }
    } else {
        DEFAULT_PORT
    };
    (ip, port)
}

/// Decides how `send` sends: over HTTP when `--lan` was given (with the
/// address, if one was given); otherwise over SSH by rsync, scp, or the
/// automatic choice.
pub fn handle_send(use_rsync: bool, use_scp: bool, use_lan: Option<Option<String>>) -> (r: SendPlan)
    ensures
        match use_lan {
            Some(Some(a)) => r matches SendPlan::Lan { target: Some(t) } && t.0@ == split_spec(
                a@,
                ':',
            )[0] && t.1 as nat == lan_port_spec(a@),
            Some(None) => r == SendPlan::Lan { target: None },
            None => r == SendPlan::Ssh {
                method: if use_rsync {
                    TransferMethod::Rsync
                } else if use_scp {
                    TransferMethod::Scp
                } else {
                    TransferMethod::Auto
                },
            },
        },
{
    match use_lan {
        Some(Some(a)) => SendPlan::Lan { target: Some(parse_lan_address(a.as_str())) },
        Some(None) => SendPlan::Lan { target: None },
        None => {
            let method = if use_rsync {
                TransferMethod::Rsync
            } else if use_scp {
                TransferMethod::Scp
            } else {
                TransferMethod::Auto
            };
            SendPlan::Ssh { method }
        },
    }
}

/// What `send --lan` does once the HTTP upload has failed.
#[derive(Debug, PartialEq, Eq)]
pub enum LanFailure {
    /// Send the file over SSH with scp to the configured phone instead.
    FallBackToScp,
    /// Report the HTTP error.
    Fail,
}

/// Decides what follows a failed HTTP upload: the file goes over scp to the
/// configured phone, unless `--no-fallback` was given or no phone address
/// is configured, in which case the HTTP error stands.
pub fn after_lan_failure(config: &Config, no_fallback: bool) -> (r: LanFailure)
    ensures
        r == (if !no_fallback && config.device.phone_ip@.len() > 0 {
            LanFailure::FallBackToScp
        } else {
            LanFailure::Fail
        }),
{
    if !no_fallback && config.device.phone_ip.as_str().unicode_len() > 0 {
        LanFailure::FallBackToScp
    } else {
        LanFailure::Fail
    }
}

/// Law: an address written `<ip>:<port>`, where the ip holds no colon,
/// reads back as that ip and port.
pub proof fn law_lan_address_roundtrip(ip: Seq<char>, port: u16)
    requires
        !ip.contains(':'),
    ensures
        split_spec(ip + seq![':'] + decimal_spec(port as nat), ':')[0] == ip,
        lan_port_spec(ip + seq![':'] + decimal_spec(port as nat)) == port as nat,
{
    let d = decimal_spec(port as nat);
    lemma_decimal_digits(port as nat);
    assert(!d.contains(':')) by {
        if d.contains(':') {
            let k = choose|k: int| 0 <= k < d.len() && d[k] == ':';
            assert(crate::number::is_digit(d[k]));
        }
    }
    let e = Seq::<char>::empty();
    lemma_split_append_plain(e, ip, ':');
    assert(e + ip =~= ip);
    assert(split_spec(e, ':') =~= seq![e]);
    assert(split_spec(ip, ':') =~= seq![ip]);
    lemma_split_push_sep(ip, ':');
    lemma_split_append_plain(ip.push(':'), d, ':');
    assert(ip.push(':') + d =~= ip + seq![':'] + d);
    assert(split_spec(ip + seq![':'] + d, ':') =~= seq![ip, d]);
    law_parse_decimal_roundtrip(port as nat, 65535);
}

/// How long discovery searches before `send --lan` picks a device.
pub const SELECT_TIMEOUT_SECS: u64 = 5;

/// What the found devices leave to decide.
#[derive(Debug, PartialEq, Eq)]
pub enum DeviceChoice {
    /// Nothing was found.
    NoDevices,
    /// Exactly one device was found: send to its address and port.
    Only(String, u16),
    /// Several were found: the user picks one.
    Ask,
}

/// Decides the target among the found devices.
pub fn select_device(devices: &Vec<DeviceInfo>) -> (r: DeviceChoice)
    ensures
        devices@.len() == 0 ==> r == DeviceChoice::NoDevices,
        devices@.len() == 1 ==> (r matches DeviceChoice::Only(ip, port) && ip@ == devices@[0].ip@
            && port == devices@[0].port),
        devices@.len() > 1 ==> r == DeviceChoice::Ask,
{
    if devices.len() == 0 {
        DeviceChoice::NoDevices
    } else if devices.len() == 1 {
        DeviceChoice::Only(devices[0].ip.clone(), devices[0].port)
    } else {
        DeviceChoice::Ask
    }
}

/// Why a typed choice is refused.
#[derive(Debug, PartialEq, Eq)]
pub enum SelectError {
    /// The answer is not a number.
    InvalidChoice,
    /// The number is not one of the listed devices.
    OutOfRange,
}

/// The device the user picked by typing its number (counted from 1).
pub fn pick_device(devices: &Vec<DeviceInfo>, input: &str) -> (r: Result<(String, u16), SelectError>)
    ensures
        match parse_unsigned_spec(trim_spec(input@), usize::MAX as nat) {
            None => r == Err::<(String, u16), SelectError>(SelectError::InvalidChoice),
            Some(v) => if 1 <= v && v <= devices@.len() {
                r matches Ok(t) && t.0@ == devices@[v - 1].ip@ && t.1 == devices@[v - 1].port
            } else {
                r == Err::<(String, u16), SelectError>(SelectError::OutOfRange)
            },
        },
{
    let t = trim(input);
    match parse_unsigned(t.as_str(), usize::MAX as u64) {
        None => Err(SelectError::InvalidChoice),
        Some(v) => {
            let choice = v as usize;
            if choice < 1 || choice > devices.len() {
                Err(SelectError::OutOfRange)
            } else {
                let d = &devices[choice - 1];
                Ok((d.ip.clone(), d.port))
            }
        },
    }
}

} // verus!
