//! SSH: the key pair that logs in to the phone, and the local SSH server
//! (Windows `sshd` service) that `start`, `stop` and `status` manage.
use vstd::prelude::*;
use crate::text::{trim, trim_spec, push_text, same_text};
use crate::config::{join_path, join_spec, is_yes, is_yes_spec};

verus! {

/// The private key inside the configuration directory.
pub fn get_key_path(config_dir: &str, main: char) -> (r: String)
    requires
        main == '/' || main == '\\',
    ensures
        r@ == join_spec(config_dir@, "id_ed25519"@, main),
{
    join_path(config_dir, "id_ed25519", main)
}

/// The public key inside the configuration directory.
pub fn get_pub_key_path(config_dir: &str, main: char) -> (r: String)
    requires
        main == '/' || main == '\\',
    ensures
        r@ == join_spec(config_dir@, "id_ed25519.pub"@, main),
{
    join_path(config_dir, "id_ed25519.pub", main)
}

/// What is known of the key pair.
pub struct KeyInfo {
    pub private_key: String,
    pub public_key: String,
    pub public_key_content: String,
    pub exists: bool,
}

/// What is known of the key pair: where its two files are, whether the
/// private key exists, and, when it does, the public key text without
/// surrounding white space (empty when the public key file cannot be read).
pub fn get_key_info(config_dir: &str, main: char, exists: bool, public_key_file: Option<&str>) -> (r:
    KeyInfo)
    requires
        main == '/' || main == '\\',
    ensures
        r.private_key@ == join_spec(config_dir@, "id_ed25519"@, main),
        r.public_key@ == join_spec(config_dir@, "id_ed25519.pub"@, main),
        r.exists == exists,
        r.public_key_content@ == (match public_key_file {
            Some(t) => if exists {
                trim_spec(t@)
            } else {
                Seq::<char>::empty()
            },
            None => Seq::<char>::empty(),
        }),
{
    let content = match public_key_file {
        Some(t) => if exists {
            trim(t)
        } else {
            String::new()
        },
        None => String::new(),
    };
    KeyInfo {
        private_key: get_key_path(config_dir, main),
        public_key: get_pub_key_path(config_dir, main),
        public_key_content: content,
        exists,
    }
}

/// What `config keygen` does.
#[derive(Debug, PartialEq, Eq)]
pub enum KeygenAction {
    /// A key exists and replacing it was neither forced nor confirmed:
    /// report it, change nothing.
    ReportExisting,
    /// A key exists and replacing it was forced or confirmed: remove both
    /// files, then generate.
    RemoveThenGenerate,
    /// No key exists: generate one.
    Generate,
}

/// Decides what `config keygen` does. `answer` is the reply to "replace the
/// existing key?", when the question was asked.
pub fn keygen_action(exists: bool, force: bool, answer: Option<&str>) -> (r: KeygenAction)
    ensures
        !exists ==> r == KeygenAction::Generate,
        exists ==> r == (if force || (match answer {
            Some(a) => is_yes_spec(a@),
            None => false,
        }) {
            KeygenAction::RemoveThenGenerate
        } else {
            KeygenAction::ReportExisting
        }),
{
    if !exists {
        return KeygenAction::Generate;
    }
    let confirmed = match answer {
        Some(a) => is_yes(a),
        None => false,
    };
    if force || confirmed {
        KeygenAction::RemoveThenGenerate
    } else {
        KeygenAction::ReportExisting
    }
}

/// The `ssh-keygen` command that creates an ed25519 key pair without a
/// passphrase at `key_path` (the public key beside it, with `.pub`).
pub fn keygen_command(key_path: &str) -> (r: CommandLine)
    ensures
        r.program@ == "ssh-keygen"@,
        args_view(r.args@) == seq![
            "-t"@,
            "ed25519"@,
            "-f"@,
            key_path@,
            "-N"@,
            ""@,
            "-C"@,
            "thru@pc"@,
        ],
{
    let mut args: Vec<String> = Vec::new();
    args.push(String::from_str("-t"));
    args.push(String::from_str("ed25519"));
    args.push(String::from_str("-f"));
    args.push(String::from_str(key_path));
    args.push(String::from_str("-N"));
    args.push(String::from_str(""));
    args.push(String::from_str("-C"));
    args.push(String::from_str("thru@pc"));
    assert(args_view(args@) =~= seq![
        "-t"@,
        "ed25519"@,
        "-f"@,
        key_path@,
        "-N"@,
        ""@,
        "-C"@,
        "thru@pc"@,
    ]);
    CommandLine { program: String::from_str("ssh-keygen"), args }
}

/// The command that, run on the phone, authorises the public key.
pub fn authorized_keys_command(public_key: &str) -> (r: String)
    ensures
        r@ == "echo \""@ + public_key@ + "\" >> ~/.ssh/authorized_keys"@,
{
    let mut r = String::from_str("echo \"");
    push_text(&mut r, public_key);
    push_text(&mut r, "\" >> ~/.ssh/authorized_keys");
    r
}

/// A program to run with its arguments.
pub struct CommandLine {
    pub program: String,
    pub args: Vec<String>,
}

/// The views of a command line's arguments.
pub open spec fn args_view(args: Seq<String>) -> Seq<Seq<char>> {
    args.map_values(|s: String| s@)
}

fn powershell(command: &str) -> (r: CommandLine)
    ensures
        r.program@ == "powershell"@,
        args_view(r.args@) == seq!["-Command"@, command@],
{
    let mut args: Vec<String> = Vec::new();
    args.push(String::from_str("-Command"));
    args.push(String::from_str(command));
    assert(args_view(args@) =~= seq!["-Command"@, command@]);
    CommandLine { program: String::from_str("powershell"), args }
}

/// The command that starts the SSH server (`start`).
pub fn handle_start() -> (r: CommandLine)
    ensures
        r.program@ == "powershell"@,
        args_view(r.args@) == seq!["-Command"@, "Start-Service sshd"@],
{
    powershell("Start-Service sshd")
}

/// The command that stops the SSH server (`stop`).
pub fn handle_stop() -> (r: CommandLine)
    ensures
        r.program@ == "powershell"@,
        args_view(r.args@) == seq!["-Command"@, "Stop-Service sshd"@],
{
    powershell("Stop-Service sshd")
}

/// The command whose output tells the state of the SSH server.
pub fn service_query_command() -> (r: CommandLine)
    ensures
        r.program@ == "powershell"@,
        args_view(r.args@) == seq![
            "-Command"@,
            "Get-Service sshd | Select-Object -ExpandProperty Status"@,
        ],
{
    powershell("Get-Service sshd | Select-Object -ExpandProperty Status")
}

/// The state of the SSH server.
pub struct SshStatus {
    pub running: bool,
    pub port: u16,
}

/// The lower-case form of a text under Unicode case mapping, as
/// `str::to_lowercase` computes it.
pub uninterp spec fn unicode_lowercase(s: Seq<char>) -> Seq<char>;

/// Every character is ASCII.
pub open spec fn ascii_text(s: Seq<char>) -> bool {
    forall|i: int| 0 <= i < s.len() ==> (#[trigger] s[i] as u32) < 128
}

/// The lower-case form of an ASCII character: `A` to `Z` become `a` to `z`,
/// the rest stay.
pub open spec fn ascii_lower(c: char) -> char {
    if 'A' <= c && c <= 'Z' {
        ((c as u32) + 32) as char
    } else {
        c
    }
}

/// Calls `str::to_lowercase`. Claimed: the result depends on the text
/// alone (it is named, not stated in general), and an ASCII text comes back
/// with `A` to `Z` lowered and every other character kept, which is what
/// Unicode's lower-case mapping does to ASCII characters.
#[verifier::external_body]
pub(crate) fn to_lowercase(s: &str) -> (r: String)
    ensures
        r@ == unicode_lowercase(s@),
        ascii_text(s@) ==> r@ == s@.map_values(|c: char| ascii_lower(c)),
{
    s.to_lowercase()
}

impl SshStatus {
    /// The state read from the service query's output: running exactly when
    /// the trimmed output is `running` in lower case (for an ASCII output:
    /// `running` in any mix of cases); the port is 22.
    pub fn from_service_output(stdout: &str) -> (r: SshStatus)
        ensures
            r.running == (unicode_lowercase(trim_spec(stdout@)) == "running"@),
            ascii_text(trim_spec(stdout@)) ==> r.running == (trim_spec(stdout@).map_values(
                |c: char| ascii_lower(c),
            ) == "running"@),
            r.port == 22,
    {
        let t = trim(stdout);
        let lower = to_lowercase(t.as_str());
        let running = same_text(lower.as_str(), "running");
        SshStatus { running, port: 22 }
    }
}

} // verus!
