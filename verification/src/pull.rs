//! Pulling files from the phone: what `pull` is asked to do, the commands
//! it runs, and what it reads from the phone's directory listing.
use vstd::prelude::*;
use crate::text::{chars_of, contains, contains_spec, is_white_space, lines_of, lines_spec, tokens_of,
    tokens_spec, views, string_of};
use crate::number::{parse_unsigned_chars, parse_unsigned_spec};
use crate::config::Config;

verus! {

/// One file in the phone's Thru directory.
pub struct FileListItem {
    pub name: String,
    pub size: u64,
    pub modified: String,
}

/// The phone's Thru directory.
pub struct ListResult {
    pub files: Vec<FileListItem>,
    pub total: usize,
    pub total_size: u64,
}

/// The outcome of pulling one file.
pub struct PullResult {
    pub success: bool,
    pub file: Option<FileInfo>,
    pub error: Option<String>,
}

/// A pulled file.
pub struct FileInfo {
    pub name: String,
    pub local_path: String,
    pub size: u64,
}

impl PullResult {
    /// A successful pull of `file`.
    pub fn pulled(file: FileInfo) -> (r: Self)
        ensures
            r.success,
            r.file == Some(file),
            r.error is None,
    {
        PullResult { success: true, file: Some(file), error: None }
    }

    /// A failed pull, reported as `pull_failed`.
    pub fn failed() -> (r: Self)
        ensures
            !r.success,
            r.file is None,
            r.error matches Some(e) && e@ == "pull_failed"@,
    {
        PullResult { success: false, file: None, error: Some(String::from_str("pull_failed")) }
    }
}

/// What `pull` was asked to do.
#[derive(Debug, PartialEq, Eq)]
pub enum PullAction {
    /// List the phone's files.
    List,
    /// Pull every file.
    All,
    /// Pull one file.
    Single(String),
}

/// Why `pull` refuses.
#[derive(Debug, PartialEq, Eq)]
pub enum PullError {
    /// No phone is configured yet.
    NotConfigured,
    /// Neither a file nor `--list` nor `--all` was given.
    NothingToPull,
}

/// Decides what `pull` does: refused without a configured phone; otherwise
/// `--list` first, then `--all`, then the named file; refused when nothing
/// was asked.
pub fn handle_pull(config: &Config, file: Option<String>, list: bool, all: bool) -> (r: Result<
    PullAction,
    PullError,
>)
    ensures
        config.device.phone_ip@.len() == 0 ==> r == Err::<PullAction, PullError>(
            PullError::NotConfigured,
        ),
        config.device.phone_ip@.len() > 0 ==> {
            if list {
                r == Ok::<PullAction, PullError>(PullAction::List)
            } else if all {
                r == Ok::<PullAction, PullError>(PullAction::All)
            } else {
                match file {
                    Some(f) => r matches Ok(PullAction::Single(g)) && g@ == f@,
                    None => r == Err::<PullAction, PullError>(PullError::NothingToPull),
                }
            }
        },
{
    if config.device.phone_ip.as_str().unicode_len() == 0 {
        return Err(PullError::NotConfigured);
    }
    if list {
        return Ok(PullAction::List);
    }
    if all {
        return Ok(PullAction::All);
    }
    match file {
        Some(f) => Ok(PullAction::Single(f)),
        None => Err(PullError::NothingToPull),
    }
}

/// Where pulled files go: a path under the home directory (given relative
/// to it) or a path taken as it is.
#[derive(Debug, PartialEq, Eq)]
pub enum LocalDir {
    UnderHome(String),
    AsGiven(String),
}

/// The directory pulled files go to: `output` if given, else the receive
/// directory. A directory beginning with `~` is taken under the home
/// directory, without its first two characters.
pub fn get_local_dir(config: &Config, output: Option<&str>) -> (r: LocalDir)
    requires
        ({
            let d = match output {
                Some(o) => o@,
                None => config.paths.receive_dir@,
            };
            d.len() > 0 && d[0] == '~' ==> d.len() >= 2 && (d[1] as u32) < 128
        }),
    ensures
        ({
            let d = match output {
                Some(o) => o@,
                None => config.paths.receive_dir@,
            };
            if d.len() > 0 && d[0] == '~' {
                r matches LocalDir::UnderHome(rest) && rest@ == d.skip(2)
            } else {
                r matches LocalDir::AsGiven(p) && p@ == d
            }
        }),
{
    let dir: &str = match output {
        Some(o) => o,
        None => config.paths.receive_dir.as_str(),
    };
    let cs = chars_of(dir);
    if cs.len() > 0 && cs[0] == '~' {
        let rest = crate::text::string_of_range(&cs, 2, cs.len());
        LocalDir::UnderHome(rest)
    } else {
        LocalDir::AsGiven(String::from_str(dir))
    }
}

// ---------------------------------------------------------------- directory listing

/// The `.` and `..` entries of a listing.
pub open spec fn dot_entry(name: Seq<char>) -> bool {
    name == seq!['.'] || name == seq!['.', '.']
}

/// A size column read as a number; anything else counts as 0.
pub open spec fn size_or_zero(t: Seq<char>) -> nat {
    match parse_unsigned_spec(t, u64::MAX as nat) {
        Some(v) => v,
        None => 0,
    }
}

/// The first index from `i` on whose character is not white space (or the
/// end of `s`).
pub open spec fn skip_white(s: Seq<char>, i: int) -> int
    decreases s.len() - i,
{
    if 0 <= i < s.len() && is_white_space(s[i]) {
        skip_white(s, i + 1)
    } else {
        i
    }
}

/// The first index from `i` on whose character is white space (or the end
/// of `s`).
pub open spec fn skip_word(s: Seq<char>, i: int) -> int
    decreases s.len() - i,
{
    if 0 <= i < s.len() && !is_white_space(s[i]) {
        skip_word(s, i + 1)
    } else {
        i
    }
}

/// Where the text of `s` begins after `k` more white-space-separated
/// columns, starting from index `i`, and the white space after them.
pub open spec fn column_start(s: Seq<char>, i: int, k: nat) -> int
    decreases k,
{
    if k == 0 {
        skip_white(s, i)
    } else {
        column_start(s, skip_word(s, skip_white(s, i)), (k - 1) as nat)
    }
}

/// The text of a line after its first `k` columns, kept as it stands (so a
/// file name with spaces keeps them).
pub open spec fn after_columns(s: Seq<char>, k: nat) -> Seq<char> {
    s.skip(column_start(s, 0, k))
}

/// The file that a line of the listing describes, as (name, size,
/// modification time). The listing is `ls -la` with one time column
/// (an ISO-8601 time in UTC): lines of at least seven columns, other than
/// `.` and `..`; the size is the fifth column, the time the sixth, the name
/// the whole rest of the line after it.
pub open spec fn listing_entry(line: Seq<char>) -> Option<(Seq<char>, nat, Seq<char>)> {
    let t = tokens_spec(line);
    let name = after_columns(line, 6);
    if t.len() >= 7 && !dot_entry(name) {
        Some((name, size_or_zero(t[4]), t[5]))
    } else {
        None
    }
}

/// Law: a listing line describes a file exactly when it has at least
/// seven columns and its name (all after the sixth column) is not `.` or
/// `..`, whatever its first column says (a directory, a link or a plain
/// file); the file then has that name, the fifth column as its size and
/// the sixth as its time.
pub proof fn law_listing_line_is_listed(line: Seq<char>)
    ensures
        tokens_spec(line).len() >= 7 && !dot_entry(after_columns(line, 6)) ==> listing_entry(line)
            == Some((after_columns(line, 6), size_or_zero(tokens_spec(line)[4]), tokens_spec(line)[5])),
        tokens_spec(line).len() < 7 || dot_entry(after_columns(line, 6)) ==> listing_entry(line) is None,
{
}

/// The files that the lines describe, in order.
pub open spec fn listing_entries(lines: Seq<Seq<char>>) -> Seq<(Seq<char>, nat, Seq<char>)>
    decreases lines.len(),
{
    if lines.len() == 0 {
        Seq::empty()
    } else {
        let prev = listing_entries(lines.drop_last());
        match listing_entry(lines.last()) {
            Some(e) => prev.push(e),
            None => prev,
        }
    }
}

/// The sum of the sizes of the files that the lines describe.
pub open spec fn listing_total(lines: Seq<Seq<char>>) -> nat
    decreases lines.len(),
{
    if lines.len() == 0 {
        0
    } else {
        listing_total(lines.drop_last()) + match listing_entry(lines.last()) {
            Some(e) => e.1,
            None => 0,
        }
    }
}

/// The sum of the sizes of listed files.
pub open spec fn sizes_sum(entries: Seq<(Seq<char>, nat, Seq<char>)>) -> nat
    decreases entries.len(),
{
    if entries.len() == 0 {
        0
    } else {
        sizes_sum(entries.drop_last()) + entries.last().1
    }
}

/// Law: the total size of a listing is the sum of the sizes of the files
/// it lists, and it lists at most one file per line.
pub proof fn law_listing_total_is_sum(lines: Seq<Seq<char>>)
    ensures
        listing_total(lines) == sizes_sum(listing_entries(lines)),
        listing_entries(lines).len() <= lines.len(),
    decreases lines.len(),
{
    if lines.len() > 0 {
        law_listing_total_is_sum(lines.drop_last());
        match listing_entry(lines.last()) {
            Some(e) => {
                let prev = listing_entries(lines.drop_last());
                assert(prev.push(e).drop_last() =~= prev);
            },
            None => {},
        }
    }
}

/// The lines after the first (the `total` line of `ls -la`).
pub open spec fn after_header(lines: Seq<Seq<char>>) -> Seq<Seq<char>> {
    if lines.len() == 0 {
        lines
    } else {
        lines.drop_first()
    }
}

/// A listed file as (name, size, modification time).
pub open spec fn item_view(f: FileListItem) -> (Seq<char>, nat, Seq<char>) {
    (f.name@, f.size as nat, f.modified@)
}

/// The listing says the directory is empty or missing.
pub open spec fn listing_empty(output: Seq<char>, succeeded: bool) -> bool {
    contains_spec(output, "EMPTY"@) || !succeeded
}

proof fn lemma_total_monotone(lines: Seq<Seq<char>>, k: int)
    requires
        0 <= k <= lines.len(),
    ensures
        listing_total(lines.take(k)) <= listing_total(lines),
    decreases lines.len(),
{
    if k < lines.len() {
        assert(lines.drop_last().take(k) =~= lines.take(k));
        lemma_total_monotone(lines.drop_last(), k);
    } else {
        assert(lines.take(k) =~= lines);
    }
}

fn is_dot_entry(name: &Vec<char>) -> (r: bool)
    ensures
        r == dot_entry(name@),
{
    if name.len() == 1 {
        let r = name[0] == '.';
        assert(r ==> name@ =~= seq!['.']);
        r
    } else if name.len() == 2 {
        let r = name[0] == '.' && name[1] == '.';
        assert(r ==> name@ =~= seq!['.', '.']);
        r
    } else {
        false
    }
}

fn skip_white_at(cs: &Vec<char>, from: usize) -> (r: usize)
    requires
        from <= cs@.len(),
    ensures
        r == skip_white(cs@, from as int),
        from <= r <= cs@.len(),
{
    let mut i = from;
    while i < cs.len() && crate::text::char_is_whitespace(cs[i])
        invariant
            from <= i <= cs@.len(),
            skip_white(cs@, from as int) == skip_white(cs@, i as int),
        decreases cs.len() - i,
    {
        i += 1;
    }
    i
}

fn skip_word_at(cs: &Vec<char>, from: usize) -> (r: usize)
    requires
        from <= cs@.len(),
    ensures
        r == skip_word(cs@, from as int),
        from <= r <= cs@.len(),
{
    let mut i = from;
    while i < cs.len() && !crate::text::char_is_whitespace(cs[i])
        invariant
            from <= i <= cs@.len(),
            skip_word(cs@, from as int) == skip_word(cs@, i as int),
        decreases cs.len() - i,
    {
        i += 1;
    }
    i
}

fn chars_from(cs: &Vec<char>, from: usize) -> (r: Vec<char>)
    requires
        from <= cs@.len(),
    ensures
        r@ == cs@.skip(from as int),
{
    let mut r: Vec<char> = Vec::new();
    let mut i = from;
    while i < cs.len()
        invariant
            from <= i <= cs@.len(),
            r@ == cs@.subrange(from as int, i as int),
        decreases cs.len() - i,
    {
        r.push(cs[i]);
        i += 1;
        assert(r@ =~= cs@.subrange(from as int, i as int));
    }
    assert(cs@.subrange(from as int, cs@.len() as int) =~= cs@.skip(from as int));
    r
}

/// Where the text of `cs` begins after its first `k` columns.
fn column_start_of(cs: &Vec<char>, k: usize) -> (r: usize)
    ensures
        r == column_start(cs@, 0, k as nat),
        r <= cs@.len(),
{
    let mut i: usize = 0;
    let mut j: usize = 0;
    while j < k
        invariant
            j <= k,
            i <= cs@.len(),
            column_start(cs@, 0, k as nat) == column_start(cs@, i as int, (k - j) as nat),
        decreases k - j,
    {
        let w = skip_white_at(cs, i);
        i = skip_word_at(cs, w);
        j += 1;
    }
    skip_white_at(cs, i)
}

/// What the phone's directory listing says.
pub enum RemoteListing {
    /// The directory is missing or could not be listed.
    Unavailable,
    /// The files the listing describes.
    Files(ListResult),
}

/// What the phone's directory listing (see `list_command`, or `EMPTY` when
/// the directory is missing) says: unavailable when it says `EMPTY` or the
/// command failed; otherwise the files that its lines after the first
/// describe. `None` when their sizes add up to more than a `u64` holds.
pub fn parse_remote_listing(output: &str, succeeded: bool) -> (r: Option<RemoteListing>)
    ensures
        listing_empty(output@, succeeded) ==> r matches Some(RemoteListing::Unavailable),
        !listing_empty(output@, succeeded) ==> ({
            let rest = after_header(lines_spec(output@));
            &&& (r is Some <==> listing_total(rest) <= u64::MAX)
            &&& (r is Some ==> (r matches Some(RemoteListing::Files(l)) && l.files@.map_values(
                |f: FileListItem| item_view(f),
            ) == listing_entries(rest) && l.total == l.files@.len() && l.total_size
                == listing_total(rest)))
        }),
{
    if contains(output, "EMPTY") || !succeeded {
        return Some(RemoteListing::Unavailable);
    }
    let cs = chars_of(output);
    let lines = lines_of(&cs);
    let ghost all = views(lines@);
    let ghost rest = after_header(all);
    let mut files: Vec<FileListItem> = Vec::new();
    let mut total: u64 = 0;
    if lines.len() == 0 {
        return Some(RemoteListing::Files(ListResult { files, total: 0, total_size: 0 }));
    }
    let mut i: usize = 1;
    while i < lines.len()
        invariant
            1 <= i <= lines@.len(),
            !listing_empty(output@, succeeded),
            all == views(lines@),
            all == lines_spec(output@),
            rest == all.drop_first(),
            files@.map_values(|f: FileListItem| item_view(f)) == listing_entries(
                rest.take(i - 1),
            ),
            total as nat == listing_total(rest.take(i - 1)),
        decreases lines.len() - i,
    {
        let ghost k = (i - 1) as int;
        proof {
            assert(rest.take(k + 1).drop_last() =~= rest.take(k));
            assert(rest.take(k + 1).last() == lines@[i as int]@);
        }
        let toks = tokens_of(&lines[i]);
        let start = column_start_of(&lines[i], 6);
        let name_chars = chars_from(&lines[i], start);
        if toks.len() >= 7 && !is_dot_entry(&name_chars) {
            proof {
                assert(views(toks@)[4] == toks@[4]@);
                assert(views(toks@)[5] == toks@[5]@);
            }
            let size: u64 = match parse_unsigned_chars(&toks[4], u64::MAX) {
                Some(v) => v,
                None => 0,
            };
            if total > u64::MAX - size {
                proof {
                    lemma_total_monotone(rest, k + 1);
                }
                return None;
            }
            total = total + size;
            let name = string_of(&name_chars);
            let modified = string_of(&toks[5]);
            let ghost before = files@.map_values(|f: FileListItem| item_view(f));
            files.push(FileListItem { name, size, modified });
            assert(files@.map_values(|f: FileListItem| item_view(f)) =~= before.push(
                item_view(files@.last()),
            ));
        }
        i += 1;
    }
    assert(rest.take(lines@.len() - 1) =~= rest);
    let n = files.len();
    Some(RemoteListing::Files(ListResult { files, total: n, total_size: total }))
}

/// The non-empty lines, in order.
pub open spec fn nonempty_lines(lines: Seq<Seq<char>>) -> Seq<Seq<char>>
    decreases lines.len(),
{
    if lines.len() == 0 {
        Seq::empty()
    } else {
        let prev = nonempty_lines(lines.drop_last());
        if lines.last().len() > 0 {
            prev.push(lines.last())
        } else {
            prev
        }
    }
}

/// Law: the names are exactly the non-empty lines, in their order, whatever
/// characters (spaces among them) a line holds.
pub proof fn law_nonempty_lines_filter(lines: Seq<Seq<char>>)
    ensures
        nonempty_lines(lines) == lines.filter(|l: Seq<char>| l.len() > 0),
    decreases lines.len(),
{
    reveal(Seq::filter);
    if lines.len() > 0 {
        law_nonempty_lines_filter(lines.drop_last());
    }
}

/// Law: one non-empty line is one name, and an empty line none.
pub proof fn law_single_line_name(l: Seq<char>)
    ensures
        l.len() > 0 ==> nonempty_lines(seq![l]) == seq![l],
        l.len() == 0 ==> nonempty_lines(seq![l]) == Seq::<Seq<char>>::empty(),
{
    let e = Seq::<Seq<char>>::empty();
    assert(seq![l].drop_last() =~= e);
    assert(seq![l].last() == l);
    assert(nonempty_lines(e) == e);
    assert(e.push(l) =~= seq![l]);
}

/// The file names that a plain `ls` of the phone's directory printed: its
/// non-empty lines.
pub fn remote_file_names(output: &str) -> (r: Vec<String>)
    ensures
        r@.map_values(|s: String| s@) == nonempty_lines(lines_spec(output@)),
{
    let cs = chars_of(output);
    let lines = lines_of(&cs);
    let ghost all = views(lines@);
    let mut names: Vec<String> = Vec::new();
    let mut i: usize = 0;
    while i < lines.len()
        invariant
            i <= lines@.len(),
            all == views(lines@),
            all == lines_spec(output@),
            names@.map_values(|s: String| s@) == nonempty_lines(all.take(i as int)),
        decreases lines.len() - i,
    {
        proof {
            assert(all.take(i + 1).drop_last() =~= all.take(i as int));
            assert(all.take(i + 1).last() == lines@[i as int]@);
        }
        if lines[i].len() > 0 {
            let s = string_of(&lines[i]);
            let ghost before = names@.map_values(|s: String| s@);
            names.push(s);
            assert(names@.map_values(|s: String| s@) =~= before.push(s@));
        }
        i += 1;
    }
    assert(all.take(lines@.len() as int) =~= all);
    names
}

} // verus!
