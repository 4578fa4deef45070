//! Decisions of the HTTP receiving service: which client addresses may
//! upload, which port to fall back to, and under which name an uploaded
//! file is stored.
use vstd::prelude::*;
use crate::text::{chars_of, string_of, split_chars, split_spec, views, lemma_split_append_plain,
    lemma_split_push_sep, push_text};
use crate::number::{parse_unsigned_chars, parse_unsigned_spec, decimal_spec, all_digits,
    lemma_decimal_digits, law_parse_decimal_roundtrip};

verus! {

/// The port the service listens on unless told otherwise.
pub const DEFAULT_PORT: u16 = 53317;

/// The port tried when the default port cannot be bound.
pub const BACKUP_PORT_1: u16 = 53318;

/// The port tried when the first backup port cannot be bound.
pub const BACKUP_PORT_2: u16 = 8080;

/// The value of an address component read as a byte; text that is not a
/// byte counts as 0.
pub open spec fn octet_or_zero(part: Seq<char>) -> nat {
    match parse_unsigned_spec(part, 255) {
        Some(v) => v,
        None => 0,
    }
}

/// The address ranges whose clients may upload, by the first two
/// components: 10.x (private), 192.168.x (private), 172.16-31.x (private),
/// 100.64-127.x (carrier-grade NAT, used by Tailscale) and 127.x (loopback).
pub open spec fn allowed_range(first: nat, second: nat) -> bool {
    ||| first == 10
    ||| (first == 192 && second == 168)
    ||| (first == 172 && 16 <= second && second <= 31)
    ||| (first == 100 && 64 <= second && second <= 127)
    ||| first == 127
}

/// An address text is allowed when it has exactly four dot-separated
/// components and its first two components lie in an allowed range.
pub open spec fn ip_allowed_spec(ip: Seq<char>) -> bool {
    let parts = split_spec(ip, '.');
    parts.len() == 4 && allowed_range(octet_or_zero(parts[0]), octet_or_zero(parts[1]))
}

/// Whether a client at address `ip` may upload files.
pub fn is_ip_allowed(ip: &str) -> (r: bool)
    ensures
        r == ip_allowed_spec(ip@),
{
    let cs = chars_of(ip);
    let parts = split_chars(&cs, '.');
    if parts.len() != 4 {
        return false;
    }
    let first: u64 = match parse_unsigned_chars(&parts[0], 255) {
        Some(v) => v,
        None => 0,
    };
    let second: u64 = match parse_unsigned_chars(&parts[1], 255) {
        Some(v) => v,
        None => 0,
    };
    proof {
        assert(views(parts@)[0] == parts@[0]@);
        assert(views(parts@)[1] == parts@[1]@);
    }
    if first == 10 {
        true
    } else if first == 192 {
        second == 168
    } else if first == 172 {
        16 <= second && second <= 31
    } else if first == 100 {
        64 <= second && second <= 127
    } else {
        first == 127
    }
}

/// The dotted-decimal text of an IPv4 address.
pub open spec fn dotted_quad(a: nat, b: nat, c: nat, d: nat) -> Seq<char> {
    decimal_spec(a) + seq!['.'] + decimal_spec(b) + seq!['.'] + decimal_spec(c) + seq!['.']
        + decimal_spec(d)
}

proof fn lemma_digits_no_dot(s: Seq<char>)
    requires
        all_digits(s),
    ensures
        !s.contains('.'),
{
    if s.contains('.') {
        let k = choose|k: int| 0 <= k < s.len() && s[k] == '.';
        assert(crate::number::is_digit(s[k]));
    }
}

/// The dotted-decimal text of `a.b.c.d` splits at its dots into the four
/// decimal writings.
pub proof fn lemma_split_dotted_quad(a: nat, b: nat, c: nat, d: nat)
    ensures
        split_spec(dotted_quad(a, b, c, d), '.') == seq![
            decimal_spec(a),
            decimal_spec(b),
            decimal_spec(c),
            decimal_spec(d),
        ],
{
    let da = decimal_spec(a);
    let db = decimal_spec(b);
    let dc = decimal_spec(c);
    let dd = decimal_spec(d);
    lemma_decimal_digits(a);
    lemma_decimal_digits(b);
    lemma_decimal_digits(c);
    lemma_decimal_digits(d);
    lemma_digits_no_dot(da);
    lemma_digits_no_dot(db);
    lemma_digits_no_dot(dc);
    lemma_digits_no_dot(dd);
    let e = Seq::<char>::empty();
    lemma_split_append_plain(e, da, '.');
    assert(e + da =~= da);
    assert(split_spec(e, '.') =~= seq![e]);
    assert(split_spec(da, '.') =~= seq![da]);
    let s1 = da.push('.');
    lemma_split_push_sep(da, '.');
    lemma_split_append_plain(s1, db, '.');
    let s2 = (s1 + db).push('.');
    lemma_split_push_sep(s1 + db, '.');
    lemma_split_append_plain(s2, dc, '.');
    let s3 = (s2 + dc).push('.');
    lemma_split_push_sep(s2 + dc, '.');
    lemma_split_append_plain(s3, dd, '.');
    assert(s3 + dd =~= dotted_quad(a, b, c, d));
    assert(split_spec(s1 + db, '.') =~= seq![da, db]);
    assert(split_spec(s2 + dc, '.') =~= seq![da, db, dc]);
    assert(split_spec(s3 + dd, '.') =~= seq![da, db, dc, dd]);
}

/// Law: a client whose IPv4 address is `a.b.c.d` may upload exactly when
/// `a.b` lies in one of the allowed ranges; the last two components play no
/// part.
pub proof fn law_dotted_quad_allowed(a: u8, b: u8, c: u8, d: u8)
    ensures
        ip_allowed_spec(dotted_quad(a as nat, b as nat, c as nat, d as nat)) == allowed_range(
            a as nat,
            b as nat,
        ),
{
    lemma_split_dotted_quad(a as nat, b as nat, c as nat, d as nat);
    law_parse_decimal_roundtrip(a as nat, 255);
    law_parse_decimal_roundtrip(b as nat, 255);
}

/// Law: the clients that may upload are exactly those of the private
/// ranges 10.0.0.0/8, 172.16.0.0/12 and 192.168.0.0/16, the carrier-grade
/// NAT range 100.64.0.0/10 that Tailscale uses, and the loopback range
/// 127.0.0.0/8; every other IPv4 address is refused.
pub proof fn law_allowed_clients(a: u8, b: u8, c: u8, d: u8)
    ensures
        ip_allowed_spec(dotted_quad(a as nat, b as nat, c as nat, d as nat)) <==> ({
            ||| a == 10
            ||| (a == 172 && 16 <= b && b <= 31)
            ||| (a == 192 && b == 168)
            ||| (a == 100 && 64 <= b && b <= 127)
            ||| a == 127
        }),
{
    law_dotted_quad_allowed(a, b, c, d);
}

/// Law: an address text without a dot (an IPv6 address such as `::1`, a
/// host name) is never allowed to upload.
pub proof fn law_dotless_address_refused(ip: Seq<char>)
    requires
        !ip.contains('.'),
    ensures
        !ip_allowed_spec(ip),
{
    let e = Seq::<char>::empty();
    lemma_split_append_plain(e, ip, '.');
    assert(e + ip =~= ip);
    assert(split_spec(e, '.') =~= seq![e]);
    assert(split_spec(ip, '.') =~= seq![ip]);
}

/// What the service answers an upload request.
pub enum UploadDecision {
    /// The request is refused with status 403 and this message.
    Forbidden { message: String },
    /// The request is served.
    Accepted,
}

/// Decides an upload request from a client at address `client_ip`: refused
/// with "IP <address> not allowed" unless the address is allowed.
pub fn admit_upload(client_ip: &str) -> (r: UploadDecision)
    ensures
        ip_allowed_spec(client_ip@) ==> r is Accepted,
        !ip_allowed_spec(client_ip@) ==> (r matches UploadDecision::Forbidden { message }
            && message@ == "IP "@ + client_ip@ + " not allowed"@),
{
    if is_ip_allowed(client_ip) {
        UploadDecision::Accepted
    } else {
        let mut message = String::from_str("IP ");
        push_text(&mut message, client_ip);
        push_text(&mut message, " not allowed");
        UploadDecision::Forbidden { message }
    }
}

/// An ASCII letter or digit.
pub open spec fn ascii_alphanumeric(c: char) -> bool {
    let u = c as u32;
    (48 <= u && u <= 57) || (65 <= u && u <= 90) || (97 <= u && u <= 122)
}

/// Whether a character beyond ASCII is alphabetic or numeric in Unicode.
pub uninterp spec fn non_ascii_alphanumeric(c: char) -> bool;

/// `char::is_alphanumeric` of std: Unicode `Alphabetic` or `Numeric`.
/// The contract states the ASCII part (letters and digits) and names the
/// answer for other characters, which the Unicode tables decide.
pub open spec fn alphanumeric(c: char) -> bool {
    if (c as u32) < 128 {
        ascii_alphanumeric(c)
    } else {
        non_ascii_alphanumeric(c)
    }
}

/// Calls `char::is_alphanumeric`. Claimed: on ASCII it is true exactly for
/// letters and digits; beyond ASCII its answer is named, not stated.
#[verifier::external_body]
pub(crate) fn char_is_alphanumeric(c: char) -> (r: bool)
    ensures
        (c as u32) < 128 ==> r == ascii_alphanumeric(c),
        (c as u32) >= 128 ==> r == non_ascii_alphanumeric(c),
{
    c.is_alphanumeric()
}

/// The character kept in a stored file name: letters, digits, `.` and `-`
/// stay, anything else becomes `_`.
pub open spec fn safe_char(c: char) -> char {
    if alphanumeric(c) || c == '.' || c == '-' {
        c
    } else {
        '_'
    }
}

/// A file name with every character made safe.
pub open spec fn sanitize_spec(name: Seq<char>) -> Seq<char> {
    name.map_values(|c: char| safe_char(c))
}

/// The name with every character other than a letter, a digit, `.` or `-`
/// replaced by `_`.
pub fn sanitize_file_name(name: &str) -> (r: String)
    ensures
        r@ == sanitize_spec(name@),
{
    let cs = chars_of(name);
    let mut out: Vec<char> = Vec::new();
    let mut i: usize = 0;
    while i < cs.len()
        invariant
            i <= cs@.len(),
            cs@ == name@,
            out@ == sanitize_spec(cs@.take(i as int)),
        decreases cs.len() - i,
    {
        let c = cs[i];
        let keep = char_is_alphanumeric(c) || c == '.' || c == '-';
        let k = if keep {
            c
        } else {
            '_'
        };
        assert(k == safe_char(c));
        out.push(k);
        i += 1;
        assert(out@ =~= sanitize_spec(cs@.take(i as int)));
    }
    assert(cs@.take(cs@.len() as int) =~= cs@);
    string_of(&out)
}

/// Law: sanitizing keeps the name's length and every character that
/// `char::is_alphanumeric` accepts (every ASCII letter and digit among
/// them), `.` and `-`, each in its place; every other character, ASCII
/// punctuation, white space and path separators included, becomes `_`.
pub proof fn law_sanitize_keeps_safe_characters(name: Seq<char>)
    ensures
        sanitize_spec(name).len() == name.len(),
        forall|i: int|
            0 <= i < name.len() && (alphanumeric(name[i]) || name[i] == '.' || name[i] == '-')
                ==> #[trigger] sanitize_spec(name)[i] == name[i],
        forall|i: int|
            0 <= i < name.len() && ({
                let u = name[i] as u32;
                ||| (48 <= u && u <= 57)
                ||| (65 <= u && u <= 90)
                ||| (97 <= u && u <= 122)
            }) ==> #[trigger] sanitize_spec(name)[i] == name[i],
        forall|i: int|
            0 <= i < name.len() && !(alphanumeric(name[i]) || name[i] == '.' || name[i] == '-')
                ==> #[trigger] sanitize_spec(name)[i] == '_',
        forall|i: int|
            0 <= i < name.len() && (name[i] == '/' || name[i] == '\\' || name[i] == ' ')
                ==> #[trigger] sanitize_spec(name)[i] == '_',
{
}

/// The name under which an uploaded file is stored: the time stamp, `_`,
/// and the sanitized name of the upload (`unknown` when it has none).
pub open spec fn stored_name_spec(timestamp: Seq<char>, field_name: Option<Seq<char>>) -> Seq<
    char,
> {
    let name = match field_name {
        Some(n) => n,
        None => "unknown"@,
    };
    timestamp + seq!['_'] + sanitize_spec(name)
}

/// The name under which an uploaded file is stored.
pub fn stored_file_name(timestamp: &str, field_name: Option<&str>) -> (r: String)
    ensures
        r@ == stored_name_spec(
            timestamp@,
            match field_name {
                Some(n) => Some(n@),
                None => None,
            },
        ),
{
    let safe = match field_name {
        Some(n) => sanitize_file_name(n),
        None => sanitize_file_name("unknown"),
    };
    let mut r = String::from_str(timestamp);
    r.push('_');
    push_text(&mut r, safe.as_str());
    r
}

/// Law: a stored file name never holds a path separator when the time stamp
/// holds none, begins with the time stamp and `_`, and keeps the length of
/// the upload's name.
pub proof fn law_stored_name_has_no_separator(timestamp: Seq<char>, field_name: Seq<char>)
    requires
        !timestamp.contains('/'),
        !timestamp.contains('\\'),
    ensures
        !stored_name_spec(timestamp, Some(field_name)).contains('/'),
        !stored_name_spec(timestamp, Some(field_name)).contains('\\'),
        stored_name_spec(timestamp, Some(field_name)).take(timestamp.len() + 1int) == timestamp.push(
            '_',
        ),
        stored_name_spec(timestamp, Some(field_name)).len() == timestamp.len() + 1
            + field_name.len(),
{
    let r = stored_name_spec(timestamp, Some(field_name));
    let t = timestamp.len() as int;
    assert forall|k: int| 0 <= k < r.len() implies r[k] != '/' && r[k] != '\\' by {
        if k < t {
            assert(r[k] == timestamp[k]);
        } else if k > t {
            assert(r[k] == safe_char(field_name[k - t - 1]));
        }
    }
    assert(r.take(t + 1int) =~= timestamp.push('_'));
}

/// The receiving service, listening on one port.
pub struct HttpServer {
    port: u16,
}

impl HttpServer {
    /// The port the service was made with.
    pub closed spec fn port_spec(&self) -> u16 {
        self.port
    }

    /// A service for `port`.
    pub fn with_port(port: u16) -> (s: Self)
        ensures
            s.port_spec() == port,
    {
        Self { port }
    }

    /// The port the service was made with.
    pub fn port(&self) -> (p: u16)
        ensures
            p == self.port_spec(),
    {
        self.port
    }

    /// The port to try when this service's port cannot be bound: the first
    /// backup for the default port, the second backup for the first backup,
    /// and none otherwise.
    pub fn fallback_port(&self) -> (r: Option<u16>)
        ensures
            self.port_spec() == DEFAULT_PORT ==> r == Some(BACKUP_PORT_1),
            self.port_spec() == BACKUP_PORT_1 ==> r == Some(BACKUP_PORT_2),
            self.port_spec() != DEFAULT_PORT && self.port_spec() != BACKUP_PORT_1 ==> r is None,
    {
        if self.port == DEFAULT_PORT {
            Some(BACKUP_PORT_1)
        } else if self.port == BACKUP_PORT_1 {
            Some(BACKUP_PORT_2)
        } else {
            None
        }
    }
}

} // verus!
