//! The configuration: the phone to reach, device aliases, the receive
//! directory and SSH settings, with the edits that the `config` and `init`
//! commands make and the text that `config show` prints.
use vstd::prelude::*;
use crate::text::{push_text, trim, same_text};
use crate::number::{decimal, decimal_spec, parse_unsigned, parse_unsigned_spec};

verus! {

/// The SSH port of the phone unless told otherwise (Termux's sshd).
pub const DEFAULT_PHONE_PORT: u16 = 8022;

// ---------------------------------------------------------------- aliases

/// The views of alias entries.
pub open spec fn pairs_view(p: Seq<(String, String)>) -> Seq<(Seq<char>, Seq<char>)> {
    p.map_values(|e: (String, String)| (e.0@, e.1@))
}

/// The map that a list of entries describes, a later entry winning.
pub open spec fn map_of(p: Seq<(Seq<char>, Seq<char>)>) -> Map<Seq<char>, Seq<char>>
    decreases p.len(),
{
    if p.len() == 0 {
        Map::empty()
    } else {
        map_of(p.drop_last()).insert(p.last().0, p.last().1)
    }
}

/// No two entries have the same key.
pub open spec fn keys_distinct(p: Seq<(Seq<char>, Seq<char>)>) -> bool {
    forall|i: int, j: int| 0 <= i < j < p.len() ==> #[trigger] p[i].0 != #[trigger] p[j].0
}

proof fn lemma_map_of_keys(p: Seq<(Seq<char>, Seq<char>)>, k: Seq<char>)
    ensures
        map_of(p).contains_key(k) <==> exists|i: int| 0 <= i < p.len() && #[trigger] p[i].0 == k,
    decreases p.len(),
{
    if p.len() > 0 {
        let q = p.drop_last();
        lemma_map_of_keys(q, k);
        if exists|i: int| 0 <= i < q.len() && #[trigger] q[i].0 == k {
            let i = choose|i: int| 0 <= i < q.len() && #[trigger] q[i].0 == k;
            assert(p[i].0 == k);
        }
        if exists|i: int| 0 <= i < p.len() && #[trigger] p[i].0 == k {
            let i = choose|i: int| 0 <= i < p.len() && #[trigger] p[i].0 == k;
            if i < q.len() {
                assert(q[i].0 == k);
            }
        }
    }
}

proof fn lemma_map_of_value(p: Seq<(Seq<char>, Seq<char>)>, i: int)
    requires
        keys_distinct(p),
        0 <= i < p.len(),
    ensures
        map_of(p).contains_key(p[i].0),
        map_of(p)[p[i].0] == p[i].1,
    decreases p.len(),
{
    let q = p.drop_last();
    if i < p.len() - 1 {
        assert(q[i] == p[i]);
        assert(p[i].0 != p[p.len() - 1].0);
        lemma_map_of_value(q, i);
    }
}

proof fn lemma_map_of_update(p: Seq<(Seq<char>, Seq<char>)>, i: int, v: Seq<char>)
    requires
        keys_distinct(p),
        0 <= i < p.len(),
    ensures
        keys_distinct(p.update(i, (p[i].0, v))),
        map_of(p.update(i, (p[i].0, v))) == map_of(p).insert(p[i].0, v),
    decreases p.len(),
{
    let k = p[i].0;
    let u = p.update(i, (k, v));
    let q = p.drop_last();
    assert(keys_distinct(u)) by {
        assert forall|a: int, b: int| 0 <= a < b < u.len() implies #[trigger] u[a].0
            != #[trigger] u[b].0 by {
            assert(p[a].0 != p[b].0);
        }
    }
    if i == p.len() - 1 {
        assert(u.drop_last() =~= q);
        assert(map_of(u) =~= map_of(p).insert(k, v));
    } else {
        assert(u.drop_last() =~= q.update(i, (k, v)));
        assert(q[i] == p[i]);
        lemma_map_of_update(q, i, v);
        assert(p.last().0 != k);
        assert(map_of(u) =~= map_of(p).insert(k, v));
    }
}

/// Some entry has key `k`.
pub open spec fn has_key(p: Seq<(Seq<char>, Seq<char>)>, k: Seq<char>) -> bool {
    exists|i: int| 0 <= i < p.len() && #[trigger] p[i].0 == k
}

/// The position of the entry with key `k`.
pub open spec fn key_index(p: Seq<(Seq<char>, Seq<char>)>, k: Seq<char>) -> int {
    choose|i: int| 0 <= i < p.len() && #[trigger] p[i].0 == k
}

/// Device aliases: a name for each address, at most one per address.
pub struct AliasMap {
    entries: Vec<(String, String)>,
}

impl AliasMap {
    #[verifier::type_invariant]
    closed spec fn inv(self) -> bool {
        keys_distinct(pairs_view(self.entries@))
    }

    /// The entries in the order they were first set.
    pub closed spec fn pairs(self) -> Seq<(Seq<char>, Seq<char>)> {
        pairs_view(self.entries@)
    }

    /// No aliases.
    pub fn new() -> (r: Self)
        ensures
            r@ == Map::<Seq<char>, Seq<char>>::empty(),
            r.pairs().len() == 0,
    {
        let r = AliasMap { entries: Vec::new() };
        assert(pairs_view(r.entries@) =~= Seq::<(Seq<char>, Seq<char>)>::empty());
        r
    }

    /// The number of aliases.
    pub fn len(&self) -> (n: usize)
        ensures
            n == self.pairs().len(),
            n == self@.len(),
    {
        proof {
            use_type_invariant(self);
            self.lemma_len();
        }
        self.entries.len()
    }

    /// Whether there is no alias.
    pub fn is_empty(&self) -> (r: bool)
        ensures
            r == (self.pairs().len() == 0),
            r == (self@.len() == 0),
    {
        self.len() == 0
    }

    proof fn lemma_len(&self)
        requires
            keys_distinct(self.pairs()),
        ensures
            self@.dom().finite(),
            self@.len() == self.pairs().len(),
    {
        lemma_map_of_len(self.pairs());
    }

    /// The entries, in the order their addresses were first given an alias.
    pub fn entries(&self) -> (r: &Vec<(String, String)>)
        ensures
            pairs_view(r@) == self.pairs(),
            keys_distinct(self.pairs()),
            map_of(self.pairs()) == self@,
    {
        proof {
            use_type_invariant(self);
        }
        &self.entries
    }

    /// The alias of `ip`, if it has one.
    pub fn get(&self, ip: &str) -> (r: Option<String>)
        ensures
            match r {
                Some(a) => self@.contains_key(ip@) && self@[ip@] == a@,
                None => !self@.contains_key(ip@),
            },
    {
        proof {
            use_type_invariant(self);
        }
        let ghost p = self.pairs();
        let mut i: usize = 0;
        while i < self.entries.len()
            invariant
                p == pairs_view(self.entries@),
                keys_distinct(p),
                i <= p.len(),
                forall|j: int| 0 <= j < i ==> #[trigger] p[j].0 != ip@,
            decreases self.entries.len() - i,
        {
            assert(p[i as int].0 == self.entries@[i as int].0@);
            if same_text(self.entries[i].0.as_str(), ip) {
                proof {
                    lemma_map_of_value(p, i as int);
                }
                return Some(self.entries[i].1.clone());
            }
            i += 1;
        }
        proof {
            lemma_map_of_keys(p, ip@);
        }
        None
    }

    /// Gives `ip` the alias `alias`, replacing any alias it had.
    pub fn insert(&mut self, ip: &str, alias: &str)
        ensures
            final(self)@ == old(self)@.insert(ip@, alias@),
    {
        proof {
            use_type_invariant(&*self);
        }
        let ghost p = self.pairs();
        let mut i: usize = 0;
        while i < self.entries.len()
            invariant
                p == old(self).pairs(),
                p == pairs_view(self.entries@),
                keys_distinct(p),
                i <= p.len(),
                forall|j: int| 0 <= j < i ==> #[trigger] p[j].0 != ip@,
            decreases self.entries.len() - i,
        {
            assert(p[i as int].0 == self.entries@[i as int].0@);
            if same_text(self.entries[i].0.as_str(), ip) {
                let key = self.entries[i].0.clone();
                let ghost old_entries = self.entries@;
                proof {
                    lemma_map_of_update(p, i as int, alias@);
                }
                proof {
                    assert(has_key(p, ip@));
                    let j = key_index(p, ip@);
                    assert(p[j].0 == ip@);
                    if j != i {
                        if j < i {
                            assert(p[j].0 != p[i as int].0);
                        } else {
                            assert(p[i as int].0 != p[j].0);
                        }
                    }
                }
                let mut entries: Vec<(String, String)> = Vec::new();
                std::mem::swap(&mut entries, &mut self.entries);
                entries.set(i, (key, String::from_str(alias)));
                assert(pairs_view(entries@) =~= p.update(i as int, (p[i as int].0, alias@)));
                self.entries = entries;
                return;
            }
            i += 1;
        }
        let mut entries: Vec<(String, String)> = Vec::new();
                std::mem::swap(&mut entries, &mut self.entries);
        entries.push((String::from_str(ip), String::from_str(alias)));
        proof {
            assert(pairs_view(entries@) =~= p.push((ip@, alias@)));
            assert(pairs_view(entries@).drop_last() =~= p);
            assert forall|a: int, b: int|
                0 <= a < b < pairs_view(entries@).len() implies #[trigger] pairs_view(
                entries@,
            )[a].0 != #[trigger] pairs_view(entries@)[b].0 by {
                if b == p.len() {
                    assert(p[a].0 != ip@);
                } else {
                    assert(p[a].0 != p[b].0);
                }
            }
        }
        self.entries = entries;
    }
}

proof fn lemma_map_of_len(p: Seq<(Seq<char>, Seq<char>)>)
    requires
        keys_distinct(p),
    ensures
        map_of(p).dom().finite(),
        map_of(p).len() == p.len(),
    decreases p.len(),
{
    if p.len() > 0 {
        let q = p.drop_last();
        assert(keys_distinct(q)) by {
            assert forall|a: int, b: int| 0 <= a < b < q.len() implies #[trigger] q[a].0
                != #[trigger] q[b].0 by {
                assert(q[a] == p[a] && q[b] == p[b]);
            }
        }
        lemma_map_of_len(q);
        assert forall|j: int| 0 <= j < q.len() implies #[trigger] q[j].0 != p.last().0 by {
            assert(q[j] == p[j]);
        }
        lemma_map_of_keys(q, p.last().0);
    }
}

impl View for AliasMap {
    type V = Map<Seq<char>, Seq<char>>;

    open spec fn view(&self) -> Map<Seq<char>, Seq<char>> {
        map_of(self.pairs())
    }
}

/// Law: after an alias is set, looking the address up gives that alias, and
/// every other address keeps the alias it had.
pub proof fn law_alias_read_after_write(
    before: Map<Seq<char>, Seq<char>>,
    after: Map<Seq<char>, Seq<char>>,
    ip: Seq<char>,
    alias: Seq<char>,
    other: Seq<char>,
)
    requires
        after == before.insert(ip, alias),
        other != ip,
    ensures
        after.contains_key(ip) && after[ip] == alias,
        after.contains_key(other) == before.contains_key(other),
        before.contains_key(other) ==> after[other] == before[other],
{
}

// ---------------------------------------------------------------- the configuration

/// The phone to reach over SSH.
pub struct DeviceConfig {
    pub phone_ip: String,
    pub phone_user: String,
    pub phone_port: u16,
}

/// Where received files go.
pub struct PathsConfig {
    pub receive_dir: String,
}

/// SSH server settings.
pub struct SshConfig {
    pub auto_start: bool,
}

/// The whole configuration, as stored in `~/.thru/config.toml`.
pub struct Config {
    pub device: DeviceConfig,
    pub aliases: AliasMap,
    pub paths: PathsConfig,
    pub ssh: SshConfig,
}

/// The receive directory of a fresh configuration.
pub open spec fn default_receive_dir() -> Seq<char> {
    "~/Downloads/Thru"@
}

/// A fresh configuration: no phone, port 8022, no aliases, files received
/// in `~/Downloads/Thru`, SSH server started automatically.
pub open spec fn is_default_config(c: Config) -> bool {
    &&& c.device.phone_ip@.len() == 0
    &&& c.device.phone_user@.len() == 0
    &&& c.device.phone_port == DEFAULT_PHONE_PORT
    &&& c.aliases@ == Map::<Seq<char>, Seq<char>>::empty()
    &&& c.aliases.pairs().len() == 0
    &&& c.paths.receive_dir@ == default_receive_dir()
    &&& c.ssh.auto_start
}

impl Default for Config {
    fn default() -> (r: Self)
        ensures
            is_default_config(r),
    {
        Config {
            device: DeviceConfig {
                phone_ip: String::new(),
                phone_user: String::new(),
                phone_port: DEFAULT_PHONE_PORT,
            },
            aliases: AliasMap::new(),
            paths: PathsConfig { receive_dir: String::from_str("~/Downloads/Thru") },
            ssh: SshConfig { auto_start: true },
        }
    }
}

/// Everything but the phone address is unchanged.
pub open spec fn same_except_ip(a: &Config, b: &Config) -> bool {
    &&& a.device.phone_user@ == b.device.phone_user@
    &&& a.device.phone_port == b.device.phone_port
    &&& a.aliases@ == b.aliases@
    &&& a.paths.receive_dir@ == b.paths.receive_dir@
    &&& a.ssh.auto_start == b.ssh.auto_start
}

/// `after` is `before` with the phone address set to `ip`.
pub open spec fn ip_set(before: &Config, after: &Config, ip: Seq<char>) -> bool {
    after.device.phone_ip@ == ip && same_except_ip(after, before)
}

/// The phone address that `config get-ip` reads.
pub open spec fn ip_read(config: &Config) -> Seq<char> {
    config.device.phone_ip@
}

/// Sets the phone address (`config set-ip`); returns the confirmation.
pub fn handle_set_ip(config: &mut Config, ip: &str) -> (msg: String)
    ensures
        ip_set(&*old(config), &*final(config), ip@),
        msg@ == "✓ 手机 IP 已设置为："@ + ip@,
{
    config.device.phone_ip = String::from_str(ip);
    let mut msg = String::from_str("✓ 手机 IP 已设置为：");
    push_text(&mut msg, ip);
    msg
}

/// The phone address (`config get-ip`).
pub fn handle_get_ip(config: &Config) -> (r: String)
    ensures
        r@ == ip_read(config),
{
    config.device.phone_ip.clone()
}

/// Sets the phone's SSH user (`config set-user`); returns the confirmation.
pub fn handle_set_user(config: &mut Config, user: &str) -> (msg: String)
    ensures
        final(config).device.phone_user@ == user@,
        final(config).device.phone_ip@ == old(config).device.phone_ip@,
        final(config).device.phone_port == old(config).device.phone_port,
        final(config).aliases@ == old(config).aliases@,
        final(config).paths.receive_dir@ == old(config).paths.receive_dir@,
        final(config).ssh.auto_start == old(config).ssh.auto_start,
        msg@ == "✓ 手机用户已设置为："@ + user@,
{
    config.device.phone_user = String::from_str(user);
    let mut msg = String::from_str("✓ 手机用户已设置为：");
    push_text(&mut msg, user);
    msg
}

/// Names the device at `ip` (`config set-alias`); returns the confirmation.
pub fn handle_set_alias(config: &mut Config, ip: &str, alias: &str) -> (msg: String)
    ensures
        final(config).aliases@ == old(config).aliases@.insert(ip@, alias@),
        final(config).device.phone_ip@ == old(config).device.phone_ip@,
        final(config).device.phone_user@ == old(config).device.phone_user@,
        final(config).device.phone_port == old(config).device.phone_port,
        final(config).paths.receive_dir@ == old(config).paths.receive_dir@,
        final(config).ssh.auto_start == old(config).ssh.auto_start,
        msg@ == "✓ 设备别名已设置："@ + ip@ + " → "@ + alias@,
{
    config.aliases.insert(ip, alias);
    let mut msg = String::from_str("✓ 设备别名已设置：");
    push_text(&mut msg, ip);
    push_text(&mut msg, " → ");
    push_text(&mut msg, alias);
    msg
}

/// Law: after `set-ip`, `get-ip` reads the address that was set, and
/// `config show` shows it; the aliases, the user and the port are kept.
pub proof fn law_get_ip_after_set_ip(before: Config, after: Config, ip: Seq<char>)
    requires
        ip_set(&before, &after, ip),
    ensures
        ip_read(&after) == ip,
        show_lines_spec(&after)[1] == "  IP: "@ + ip,
        after.aliases@ == before.aliases@,
        after.device.phone_user@ == before.device.phone_user@,
        after.device.phone_port == before.device.phone_port,
{
}

/// Law: of two `set-ip` in a row the second wins, and nothing else changes.
pub proof fn law_set_ip_last_wins(a: Config, b: Config, c: Config, ip1: Seq<char>, ip2: Seq<char>)
    requires
        ip_set(&a, &b, ip1),
        ip_set(&b, &c, ip2),
    ensures
        ip_read(&c) == ip2,
        ip_set(&a, &c, ip2),
{
}

/// The text of a boolean, as its `Display`.
pub open spec fn bool_text(b: bool) -> Seq<char> {
    if b {
        "true"@
    } else {
        "false"@
    }
}

/// The line that shows one alias.
pub open spec fn alias_line(e: (Seq<char>, Seq<char>)) -> Seq<char> {
    "  "@ + e.0 + " → "@ + e.1
}

/// The lines that `config show` prints.
pub open spec fn show_lines_spec(config: &Config) -> Seq<Seq<char>> {
    let head = seq![
        "📱 设备配置:"@,
        "  IP: "@ + config.device.phone_ip@,
        "  用户："@ + config.device.phone_user@,
        "  端口："@ + decimal_spec(config.device.phone_port as nat),
        "\n📁 路径:"@,
        "  接收目录："@ + config.paths.receive_dir@,
        "\n🔧 SSH:"@,
        "  自动启动："@ + bool_text(config.ssh.auto_start),
    ];
    if config.aliases.pairs().len() == 0 {
        head
    } else {
        head.push("\n🏷️  设备别名:"@) + config.aliases.pairs().map_values(
            |e: (Seq<char>, Seq<char>)| alias_line(e),
        )
    }
}

fn line_of(label: &str, value: &str) -> (r: String)
    ensures
        r@ == label@ + value@,
{
    let mut r = String::from_str(label);
    push_text(&mut r, value);
    r
}

/// The lines that `config show` prints, in order.
pub fn handle_show(config: &Config) -> (lines: Vec<String>)
    ensures
        lines@.map_values(|s: String| s@) == show_lines_spec(config),
{
    let mut lines: Vec<String> = Vec::new();
    lines.push(String::from_str("📱 设备配置:"));
    lines.push(line_of("  IP: ", config.device.phone_ip.as_str()));
    lines.push(line_of("  用户：", config.device.phone_user.as_str()));
    let port = decimal(config.device.phone_port as u64);
    lines.push(line_of("  端口：", port.as_str()));
    lines.push(String::from_str("\n📁 路径:"));
    lines.push(line_of("  接收目录：", config.paths.receive_dir.as_str()));
    lines.push(String::from_str("\n🔧 SSH:"));
    let flag = if config.ssh.auto_start {
        "true"
    } else {
        "false"
    };
    lines.push(line_of("  自动启动：", flag));
    let ghost head = lines@.map_values(|s: String| s@);
    let entries = config.aliases.entries();
    if entries.len() > 0 {
        lines.push(String::from_str("\n🏷️  设备别名:"));
        let ghost start = lines@.map_values(|s: String| s@);
        let mut i: usize = 0;
        while i < entries.len()
            invariant
                i <= entries@.len(),
                pairs_view(entries@) == config.aliases.pairs(),
                lines@.map_values(|s: String| s@) == start + pairs_view(entries@).take(
                    i as int,
                ).map_values(|e: (Seq<char>, Seq<char>)| alias_line(e)),
            decreases entries.len() - i,
        {
            let mut line = String::from_str("  ");
            push_text(&mut line, entries[i].0.as_str());
            push_text(&mut line, " → ");
            push_text(&mut line, entries[i].1.as_str());
            let ghost before = lines@.map_values(|s: String| s@);
            lines.push(line);
            proof {
                let pv = pairs_view(entries@);
                assert(pv[i as int] == (entries@[i as int].0@, entries@[i as int].1@));
                assert(pv.take(i + 1) =~= pv.take(i as int).push(pv[i as int]));
                assert(lines@.map_values(|s: String| s@) =~= before.push(line@));
            }
            i += 1;
        }
        assert(pairs_view(entries@).take(entries@.len() as int) =~= pairs_view(entries@));
    }
    assert(lines@.map_values(|s: String| s@) =~= show_lines_spec(config));
    lines
}

// ---------------------------------------------------------------- paths

/// `c` separates path components when `main` is the platform's main
/// separator (`/` everywhere, and `\` too on Windows).
pub open spec fn is_path_separator(c: char, main: char) -> bool {
    c == '/' || c == main
}

/// The path of `name` inside `base`, as `Path::join` for a plain file name:
/// the main separator is put between them unless `base` is empty or already
/// ends with a separator.
pub open spec fn join_spec(base: Seq<char>, name: Seq<char>, main: char) -> Seq<char> {
    if base.len() == 0 || is_path_separator(base.last(), main) {
        base + name
    } else {
        base.push(main) + name
    }
}

/// The path of the file `name` inside the directory `base`, where `main` is
/// the platform's main separator (`std::path::MAIN_SEPARATOR`).
pub fn join_path(base: &str, name: &str, main: char) -> (r: String)
    requires
        main == '/' || main == '\\',
    ensures
        r@ == join_spec(base@, name@, main),
{
    let cs = crate::text::chars_of(base);
    let mut r = String::from_str(base);
    let n = cs.len();
    if n > 0 && cs[n - 1] != '/' && cs[n - 1] != main {
        r.push(main);
    }
    push_text(&mut r, name);
    r
}

/// The configuration file inside the configuration directory.
pub fn get_config_path(config_dir: &str, main: char) -> (r: String)
    requires
        main == '/' || main == '\\',
    ensures
        r@ == join_spec(config_dir@, "config.toml"@, main),
{
    join_path(config_dir, "config.toml", main)
}

// ---------------------------------------------------------------- init

/// Why `init` refuses.
#[derive(Debug, PartialEq, Eq)]
pub enum InitError {
    /// Only one of the address and the user was given.
    IncompleteArguments,
    /// The address or the user is empty.
    EmptyIpOrUser,
}

/// Where `init` gets the phone's details from.
#[derive(Debug, PartialEq, Eq)]
pub enum InitSource {
    /// From the command line, the port defaulting to 8022.
    Arguments { ip: String, port: u16, user: String },
    /// From questions asked on the terminal.
    Prompt,
}

/// Decides where `init` gets its details: both address and user given →
/// those (port 8022 unless given); only one of them → refused; neither → ask.
pub fn init_source(ip: Option<String>, port: Option<u16>, user: Option<String>) -> (r: Result<
    InitSource,
    InitError,
>)
    ensures
        (ip is Some && user is Some) ==> (r matches Ok(InitSource::Arguments { ip: i, port: p, user: u })
            && i@ == ip->0@ && u@ == user->0@ && p == (match port {
            Some(q) => q,
            None => DEFAULT_PHONE_PORT,
        })),
        (ip is Some != user is Some) ==> r == Err::<InitSource, InitError>(
            InitError::IncompleteArguments,
        ),
        (ip is None && user is None) ==> r == Ok::<InitSource, InitError>(InitSource::Prompt),
{
    match (ip, user) {
        (Some(i), Some(u)) => {
            let p = match port {
                Some(q) => q,
                None => DEFAULT_PHONE_PORT,
            };
            Ok(InitSource::Arguments { ip: i, port: p, user: u })
        },
        (None, None) => Ok(InitSource::Prompt),
        _ => Err(InitError::IncompleteArguments),
    }
}

/// Text that std's `parse` reads as an unsigned number of some size: an
/// optional `+`, then one or more decimal digits.
pub open spec fn number_text(t: Seq<char>) -> bool {
    let d = crate::number::unsigned_digits(t);
    d.len() > 0 && crate::number::all_digits(d)
}

/// What the port answered at the `init` prompt means: a blank answer, or
/// one that is not a number, is the default 8022 (as the original reads
/// it); a number from 1 to 65535 is that port; a number out of that range
/// is refused, and `init` asks again.
pub open spec fn port_answer_spec(input: Seq<char>) -> Option<nat> {
    let t = crate::text::trim_spec(input);
    if t.len() == 0 || !number_text(t) {
        Some(DEFAULT_PHONE_PORT as nat)
    } else {
        let v = crate::number::digits_value(crate::number::unsigned_digits(t));
        if 1 <= v && v <= 65535 {
            Some(v)
        } else {
            None
        }
    }
}

fn is_number_text(cs: &Vec<char>) -> (r: bool)
    ensures
        r == number_text(cs@),
{
    let start: usize = if cs.len() > 0 && cs[0] == '+' {
        1
    } else {
        0
    };
    let ghost d = crate::number::unsigned_digits(cs@);
    assert(d =~= cs@.skip(start as int));
    if start >= cs.len() {
        return false;
    }
    let mut i = start;
    while i < cs.len()
        invariant
            start <= i <= cs@.len(),
            d == crate::number::unsigned_digits(cs@),
            d =~= cs@.skip(start as int),
            forall|j: int| start <= j < i ==> crate::number::is_digit(#[trigger] cs@[j]),
        decreases cs.len() - i,
    {
        let c = cs[i];
        if (c as u32) < 48 || (c as u32) > 57 {
            assert(d[i - start] == c);
            assert(!crate::number::is_digit(d[i - start]));
            return false;
        }
        i += 1;
    }
    assert forall|j: int| 0 <= j < d.len() implies crate::number::is_digit(#[trigger] d[j]) by {
        assert(d[j] == cs@[j + start]);
    }
    true
}

/// The port answered at the `init` prompt; `None` when it must be asked
/// again.
pub fn parse_port_input(input: &str) -> (p: Option<u16>)
    ensures
        match p {
            Some(v) => port_answer_spec(input@) == Some(v as nat),
            None => port_answer_spec(input@) is None,
        },
{
    let t = trim(input);
    let cs = crate::text::chars_of(t.as_str());
    if cs.len() == 0 || !is_number_text(&cs) {
        return Some(DEFAULT_PHONE_PORT);
    }
    match parse_unsigned(t.as_str(), 65535) {
        Some(v) => if v >= 1 {
            Some(v as u16)
        } else {
            None
        },
        None => None,
    }
}

/// One part of an IPv4 address: one to three decimal digits, without a
/// leading zero, of value at most 255.
pub open spec fn octet_text(p: Seq<char>) -> bool {
    &&& 1 <= p.len() <= 3
    &&& crate::number::all_digits(p)
    &&& (p.len() == 1 || p[0] != '0')
    &&& crate::number::digits_value(p) <= 255
}

/// An IPv4 address in dotted-quad form: four parts separated by dots.
pub open spec fn ipv4_text(s: Seq<char>) -> bool {
    let parts = crate::text::split_spec(s, '.');
    parts.len() == 4 && forall|i: int| 0 <= i < 4 ==> octet_text(#[trigger] parts[i])
}

proof fn lemma_octet_decimal(n: nat)
    requires
        n <= 255,
    ensures
        octet_text(crate::number::decimal_spec(n)),
{
    let s = crate::number::decimal_spec(n);
    crate::number::lemma_decimal_digits(n);
    reveal_with_fuel(crate::number::decimal_spec, 3);
    if n >= 10 {
        let q = n / 10;
        let t = crate::number::decimal_spec(q);
        assert(s == t.push(crate::number::digit_char(n % 10)));
        assert(s[0] == t[0]);
        if q < 10 {
            assert(t == seq![crate::number::digit_char(q)]);
            assert(q >= 1);
            assert(s[0] != '0');
            assert(s.len() == 2);
        } else {
            let r = q / 10;
            assert(r >= 1 && r < 10);
            let u = crate::number::decimal_spec(r);
            assert(u == seq![crate::number::digit_char(r)]);
            assert(t == u.push(crate::number::digit_char(q % 10)));
            assert(t[0] == u[0]);
            assert(s[0] != '0');
            assert(s.len() == 3);
        }
    }
}

/// Law: the dotted-decimal writing of every IPv4 address `a.b.c.d` is
/// taken as an address; the `init` prompt refuses none of them.
pub proof fn law_dotted_quad_is_ipv4(a: u8, b: u8, c: u8, d: u8)
    ensures
        ipv4_text(crate::http_server::dotted_quad(a as nat, b as nat, c as nat, d as nat)),
{
    crate::http_server::lemma_split_dotted_quad(a as nat, b as nat, c as nat, d as nat);
    lemma_octet_decimal(a as nat);
    lemma_octet_decimal(b as nat);
    lemma_octet_decimal(c as nat);
    lemma_octet_decimal(d as nat);
    let parts = crate::text::split_spec(
        crate::http_server::dotted_quad(a as nat, b as nat, c as nat, d as nat),
        '.',
    );
    assert(parts[0] == crate::number::decimal_spec(a as nat));
    assert(parts[1] == crate::number::decimal_spec(b as nat));
    assert(parts[2] == crate::number::decimal_spec(c as nat));
    assert(parts[3] == crate::number::decimal_spec(d as nat));
}

fn is_octet(p: &Vec<char>) -> (r: bool)
    ensures
        r == octet_text(p@),
{
    if p.len() < 1 || p.len() > 3 {
        return false;
    }
    if p.len() > 1 && p[0] == '0' {
        return false;
    }
    match crate::number::parse_unsigned_chars(p, 255) {
        Some(_) => {
            proof {
                if p@[0] == '+' {
                    assert(!crate::number::is_digit(p@[0]));
                }
                assert(crate::number::unsigned_digits(p@) == p@ || p@[0] == '+');
            }
            p[0] != '+'
        },
        None => {
            proof {
                if octet_text(p@) {
                    assert(!crate::number::is_digit('+'));
                    assert(p@[0] != '+');
                    assert(crate::number::unsigned_digits(p@) == p@);
                }
            }
            false
        },
    }
}

/// Whether `s` is an IPv4 address in dotted-quad form.
pub fn is_ipv4(s: &str) -> (r: bool)
    ensures
        r == ipv4_text(s@),
{
    let cs = crate::text::chars_of(s);
    let parts = crate::text::split_chars(&cs, '.');
    let ghost pv = crate::text::views(parts@);
    if parts.len() != 4 {
        return false;
    }
    let mut i: usize = 0;
    while i < 4
        invariant
            i <= 4,
            parts@.len() == 4,
            pv == crate::text::views(parts@),
            pv == crate::text::split_spec(s@, '.'),
            forall|j: int| 0 <= j < i ==> octet_text(#[trigger] pv[j]),
        decreases 4 - i,
    {
        assert(pv[i as int] == parts@[i as int]@);
        if !is_octet(&parts[i]) {
            return false;
        }
        i += 1;
    }
    true
}

/// The address answered at the `init` prompt, without surrounding white
/// space; `None` when it is not an IPv4 address, and `init` asks again.
pub fn parse_ip_input(input: &str) -> (r: Option<String>)
    ensures
        match r {
            Some(ip) => ip@ == crate::text::trim_spec(input@) && ipv4_text(ip@),
            None => !ipv4_text(crate::text::trim_spec(input@)),
        },
{
    let t = trim(input);
    if is_ipv4(t.as_str()) {
        Some(t)
    } else {
        None
    }
}

/// An answer of yes: `y` or `yes` in any case, around which white space is
/// ignored.
pub open spec fn is_yes_spec(answer: Seq<char>) -> bool {
    let t = crate::text::trim_spec(answer);
    ||| (t.len() == 1 && (t[0] == 'y' || t[0] == 'Y'))
    ||| (t.len() == 3 && (t[0] == 'y' || t[0] == 'Y') && (t[1] == 'e' || t[1] == 'E') && (t[2]
        == 's' || t[2] == 'S'))
}

/// Whether an answer to a yes/no question is yes.
pub fn is_yes(answer: &str) -> (r: bool)
    ensures
        r == is_yes_spec(answer@),
{
    let t = trim(answer);
    let cs = crate::text::chars_of(t.as_str());
    if cs.len() == 1 {
        cs[0] == 'y' || cs[0] == 'Y'
    } else if cs.len() == 3 {
        (cs[0] == 'y' || cs[0] == 'Y') && (cs[1] == 'e' || cs[1] == 'E') && (cs[2] == 's' || cs[2]
            == 'S')
    } else {
        false
    }
}

/// Whether `init` may write its configuration: always when none exists
/// yet; over an existing one only when the user answered yes to replacing
/// it.
pub fn may_write_config(config_exists: bool, answer: &str) -> (r: bool)
    ensures
        r == (!config_exists || is_yes_spec(answer@)),
{
    !config_exists || is_yes(answer)
}

/// The configuration that `init` writes: the phone's details over a fresh
/// configuration; refused when the address or the user is empty.
pub fn handle_init(ip: String, port: u16, user: String) -> (r: Result<Config, InitError>)
    ensures
        (ip@.len() == 0 || user@.len() == 0) ==> r matches Err(InitError::EmptyIpOrUser),
        (ip@.len() > 0 && user@.len() > 0) ==> (r matches Ok(c) && c.device.phone_ip@ == ip@
            && c.device.phone_user@ == user@ && c.device.phone_port == port && c.aliases@
            == Map::<Seq<char>, Seq<char>>::empty() && c.paths.receive_dir@ == default_receive_dir()
            && c.ssh.auto_start),
{
    if ip.as_str().unicode_len() == 0 || user.as_str().unicode_len() == 0 {
        return Err(InitError::EmptyIpOrUser);
    }
    let mut c = Config::default();
    c.device = DeviceConfig { phone_ip: ip, phone_user: user, phone_port: port };
    Ok(c)
}

} // verus!
