//! SSH transfer with the phone: the `ssh` and `scp` command lines that
//! send a file, make the receive directory and pull or list files.
use vstd::prelude::*;
use crate::text::push_text;
use crate::number::{decimal, decimal_spec};
use crate::config::Config;
use crate::ssh::args_view;

verus! {

/// The phone's receive directory.
pub open spec fn remote_dir() -> Seq<char> {
    "~/storage/downloads/Thru/"@
}

/// `user@ip` of the configured phone.
pub open spec fn login_spec(config: &Config) -> Seq<char> {
    config.device.phone_user@ + seq!['@'] + config.device.phone_ip@
}

/// The identity-file arguments: `-i <key>` when a key exists.
pub open spec fn key_args(key: Option<Seq<char>>) -> Seq<Seq<char>> {
    match key {
        Some(k) => seq!["-i"@, k],
        None => Seq::empty(),
    }
}

/// The view of an optional text.
pub open spec fn opt_view(key: Option<&str>) -> Option<Seq<char>> {
    match key {
        Some(k) => Some(k@),
        None => None,
    }
}

fn push_arg(args: &mut Vec<String>, a: String)
    ensures
        args_view(final(args)@) == args_view(old(args)@).push(a@),
{
    args.push(a);
    assert(args_view(args@) =~= args_view(old(args)@).push(a@));
}

fn push_key_args(args: &mut Vec<String>, key: Option<&str>)
    ensures
        args_view(final(args)@) == args_view(old(args)@) + key_args(opt_view(key)),
{
    match key {
        Some(k) => {
            push_arg(args, String::from_str("-i"));
            push_arg(args, String::from_str(k));
            assert(args_view(args@) =~= args_view(old(args)@) + key_args(opt_view(key)));
        },
        None => {
            assert(args_view(args@) =~= args_view(old(args)@) + key_args(opt_view(key)));
        },
    }
}

fn login(config: &Config) -> (r: String)
    ensures
        r@ == login_spec(config),
{
    let mut r = config.device.phone_user.clone();
    r.push('@');
    push_text(&mut r, config.device.phone_ip.as_str());
    r
}

/// The `ssh` arguments that make sure the phone's receive directory exists.
pub fn mkdir_args(config: &Config, key: Option<&str>) -> (args: Vec<String>)
    ensures
        args_view(args@) == key_args(opt_view(key)) + seq![
            "-p"@,
            decimal_spec(config.device.phone_port as nat),
            login_spec(config),
            "mkdir -p ~/storage/downloads/Thru/"@,
        ],
{
    let mut args: Vec<String> = Vec::new();
    push_key_args(&mut args, key);
    push_arg(&mut args, String::from_str("-p"));
    push_arg(&mut args, decimal(config.device.phone_port as u64));
    push_arg(&mut args, login(config));
    push_arg(&mut args, String::from_str("mkdir -p ~/storage/downloads/Thru/"));
    assert(args_view(args@) =~= key_args(opt_view(key)) + seq![
        "-p"@,
        decimal_spec(config.device.phone_port as nat),
        login_spec(config),
        "mkdir -p ~/storage/downloads/Thru/"@,
    ]);
    args
}

/// The `scp` arguments that send `file_path` to the phone's receive
/// directory, recursively when asked.
pub fn scp_send_args(config: &Config, key: Option<&str>, recursive: bool, file_path: &str) -> (args:
    Vec<String>)
    ensures
        args_view(args@) == seq!["-P"@, decimal_spec(config.device.phone_port as nat)] + key_args(
            opt_view(key),
        ) + (if recursive {
            seq!["-r"@]
        } else {
            Seq::empty()
        }) + seq![file_path@, login_spec(config) + ":"@ + remote_dir()],
{
    let mut args: Vec<String> = Vec::new();
    push_arg(&mut args, String::from_str("-P"));
    push_arg(&mut args, decimal(config.device.phone_port as u64));
    push_key_args(&mut args, key);
    let ghost mid = args_view(args@);
    if recursive {
        push_arg(&mut args, String::from_str("-r"));
    }
    let ghost flag = args_view(args@);
    push_arg(&mut args, String::from_str(file_path));
    let mut dest = login(config);
    push_text(&mut dest, ":");
    push_text(&mut dest, "~/storage/downloads/Thru/");
    push_arg(&mut args, dest);
    proof {
        let r: Seq<Seq<char>> = if recursive {
            seq!["-r"@]
        } else {
            Seq::empty()
        };
        assert(flag =~= mid + r);
        assert(args_view(args@) =~= seq!["-P"@, decimal_spec(config.device.phone_port as nat)]
            + key_args(opt_view(key)) + r + seq![file_path@, login_spec(config) + ":"@ + remote_dir()]);
    }
    args
}

/// The `ssh` arguments that run `command` on the phone.
pub fn ssh_command_args(config: &Config, key: Option<&str>, command: &str) -> (args: Vec<String>)
    ensures
        args_view(args@) == seq!["-p"@, decimal_spec(config.device.phone_port as nat)] + key_args(
            opt_view(key),
        ) + seq![login_spec(config), command@],
{
    let mut args: Vec<String> = Vec::new();
    push_arg(&mut args, String::from_str("-p"));
    push_arg(&mut args, decimal(config.device.phone_port as u64));
    push_key_args(&mut args, key);
    push_arg(&mut args, login(config));
    push_arg(&mut args, String::from_str(command));
    assert(args_view(args@) =~= seq!["-p"@, decimal_spec(config.device.phone_port as nat)]
        + key_args(opt_view(key)) + seq![login_spec(config), command@]);
    args
}

/// The command that lists the phone's receive directory in detail, each
/// modification time in one column as an ISO-8601 time in UTC, or prints
/// `EMPTY` when the directory is missing.
pub fn list_command() -> (r: String)
    ensures
        r@ == "TZ=UTC ls -la --time-style=+%Y-%m-%dT%H:%M:%SZ ~/storage/downloads/Thru/ 2>/dev/null || echo 'EMPTY'"@,
{
    String::from_str(
        "TZ=UTC ls -la --time-style=+%Y-%m-%dT%H:%M:%SZ ~/storage/downloads/Thru/ 2>/dev/null || echo 'EMPTY'",
    )
}

/// The command that prints the names in the phone's receive directory.
pub fn names_command() -> (r: String)
    ensures
        r@ == "ls ~/storage/downloads/Thru/ 2>/dev/null"@,
{
    String::from_str("ls ~/storage/downloads/Thru/ 2>/dev/null")
}

/// The `scp` arguments that pull `file_name` from the phone's receive
/// directory to `local_path`.
pub fn scp_pull_args(config: &Config, key: Option<&str>, file_name: &str, local_path: &str) -> (args:
    Vec<String>)
    ensures
        args_view(args@) == seq!["-P"@, decimal_spec(config.device.phone_port as nat)] + key_args(
            opt_view(key),
        ) + seq![login_spec(config) + ":"@ + remote_dir() + file_name@, local_path@],
{
    let mut args: Vec<String> = Vec::new();
    push_arg(&mut args, String::from_str("-P"));
    push_arg(&mut args, decimal(config.device.phone_port as u64));
    push_key_args(&mut args, key);
    let mut src = login(config);
    push_text(&mut src, ":");
    push_text(&mut src, "~/storage/downloads/Thru/");
    push_text(&mut src, file_name);
    push_arg(&mut args, src);
    push_arg(&mut args, String::from_str(local_path));
    assert(args_view(args@) =~= seq!["-P"@, decimal_spec(config.device.phone_port as nat)]
        + key_args(opt_view(key)) + seq![
        login_spec(config) + ":"@ + remote_dir() + file_name@,
        local_path@,
    ]);
    args
}

} // verus!
