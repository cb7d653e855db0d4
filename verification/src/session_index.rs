//! The session index: metadata rows derived from session files, and the
//! pure accounting behind them. The database itself is storage and lives
//! outside the library.

use vstd::prelude::*;
use crate::session::{SessionEntry, SessionHeader};

verus! {

/// One indexed session.
#[derive(Debug)]
pub struct SessionMeta {
    pub path: String,
    pub id: String,
    pub cwd: String,
    pub timestamp: String,
    pub message_count: u64,
    pub last_modified_ms: i64,
    pub size_bytes: u64,
    pub name: Option<String>,
}

/// Where the index database and its lock live.
#[derive(Debug)]
pub struct SessionIndex {
    /// Path of the index database file.
    pub db_path: String,
    /// Path of the advisory lock beside it.
    pub lock_path: String,
}

impl SessionIndex {
    /// An index rooted at an explicit directory.
    pub fn new_in(global_dir: &str) -> (r: Self)
        ensures
            r.db_path@ == global_dir@ + "/session-index.sqlite"@,
            r.lock_path@ == global_dir@ + "/session-index.lock"@,
    {
        let mut db_path = global_dir.to_owned();
        db_path.append("/session-index.sqlite");
        let mut lock_path = global_dir.to_owned();
        lock_path.append("/session-index.lock");
        SessionIndex { db_path, lock_path }
    }

    /// An index rooted at the user's configuration directory: the home
    /// directory with the agent's subpath under it, or that subpath alone
    /// when no home directory is known.
    pub fn new() -> (r: Self)
        ensures
            exists|base: Seq<char>|
                r.db_path@ == #[trigger] (base + "/session-index.sqlite"@) && r.lock_path@ == base
                    + "/session-index.lock"@,
    {
        let mut base = match home_dir_string() {
            Some(home) => {
                let mut b = home;
                b.append("/");
                b
            },
            None => String::new(),
        };
        base.append(".pi/agent");
        let r = SessionIndex::new_in(base.as_str());
        proof {
            assert(r.db_path@ == base@ + "/session-index.sqlite"@);
        }
        r
    }
}

/// Relies on `dirs::home_dir`: the user's home directory, rendered
/// lossily as a string. The value depends on the environment, so nothing
/// is assumed of it.
#[verifier::external_body]
fn home_dir_string() -> Option<String> {
    dirs::home_dir().map(|p| p.to_string_lossy().to_string())
}

/// How many message entries a list holds.
pub open spec fn spec_message_count(entries: Seq<SessionEntry>) -> int
    decreases entries.len(),
{
    if entries.len() == 0 {
        0
    } else {
        spec_message_count(entries.drop_last()) + if entries.last() is Message {
            1int
        } else {
            0int
        }
    }
}

/// The name the last naming entry gave, if any.
pub open spec fn spec_last_name(entries: Seq<SessionEntry>) -> Option<String>
    decreases entries.len(),
{
    if entries.len() == 0 {
        None
    } else {
        match entries.last() {
            SessionEntry::SessionInfo(info) => if info.name is Some {
                info.name
            } else {
                spec_last_name(entries.drop_last())
            },
            _ => spec_last_name(entries.drop_last()),
        }
    }
}

/// Count the messages and find the last recorded name.
pub fn session_stats(entries: &Vec<SessionEntry>) -> (r: (u64, Option<String>))
    requires
        entries@.len() <= u64::MAX,
    ensures
        r.0 == spec_message_count(entries@),
        match r.1 {
            Some(n) => (spec_last_name(entries@) matches Some(m) && m@ == n@),
            None => spec_last_name(entries@) is None,
        },
{
    let n = entries.len();
    let mut count: u64 = 0;
    let mut name: Option<String> = None;
    let mut i: usize = 0;
    proof {
        assert(entries@.subrange(0, 0) =~= Seq::<SessionEntry>::empty());
        lemma_message_count_bounds(entries@);
    }
    while i < n
        invariant
            n == entries@.len(),
            entries@.len() <= u64::MAX,
            i <= n,
            count == spec_message_count(entries@.subrange(0, i as int)),
            match name {
                Some(nm) => (spec_last_name(entries@.subrange(0, i as int)) matches Some(m) && m@
                    == nm@),
                None => spec_last_name(entries@.subrange(0, i as int)) is None,
            },
        decreases n - i,
    {
        proof {
            let pre = entries@.subrange(0, i as int);
            let post = entries@.subrange(0, i + 1);
            assert(post.drop_last() =~= pre);
            assert(post.last() == entries@[i as int]);
            lemma_message_count_bounds(post);
        }
        match &entries[i] {
            SessionEntry::Message(_) => {
                count = count + 1;
            },
            SessionEntry::SessionInfo(info) => {
                match &info.name {
                    Some(nm) => {
                        name = Some(nm.clone());
                    },
                    None => {},
                }
            },
            _ => {},
        }
        i = i + 1;
    }
    proof {
        assert(entries@.subrange(0, n as int) =~= entries@);
    }
    (count, name)
}

/// The message count is between zero and the entry count.
proof fn lemma_message_count_bounds(entries: Seq<SessionEntry>)
    ensures
        0 <= spec_message_count(entries) <= entries.len(),
    decreases entries.len(),
{
    if entries.len() > 0 {
        lemma_message_count_bounds(entries.drop_last());
    }
}

/// Build a metadata row from what is known of a session: its path, its
/// header, its entries, and the file facts the storage layer read.
pub fn build_meta(
    path: &str,
    header: &SessionHeader,
    entries: &Vec<SessionEntry>,
    last_modified_ms: i64,
    size_bytes: u64,
) -> (r: SessionMeta)
    requires
        entries@.len() <= u64::MAX,
    ensures
        r.path@ == path@,
        r.id@ == header.id@,
        r.cwd@ == header.cwd@,
        r.timestamp@ == header.timestamp@,
        r.message_count == spec_message_count(entries@),
        r.last_modified_ms == last_modified_ms,
        r.size_bytes == size_bytes,
        match r.name {
            Some(n) => (spec_last_name(entries@) matches Some(m) && m@ == n@),
            None => spec_last_name(entries@) is None,
        },
{
    let stats = session_stats(entries);
    SessionMeta {
        path: path.to_owned(),
        id: crate::policy::copy_string(&header.id),
        cwd: crate::policy::copy_string(&header.cwd),
        timestamp: crate::policy::copy_string(&header.timestamp),
        message_count: stats.0,
        last_modified_ms,
        size_bytes,
        name: stats.1,
    }
}

/// One line of the session picker.
#[derive(Debug)]
pub struct SessionPickEntry {
    pub path: String,
    pub id: String,
    pub timestamp: String,
    pub message_count: u64,
    pub name: Option<String>,
    pub last_modified_ms: i64,
}

impl SessionPickEntry {
    /// A picker line from an indexed row; rows whose file is gone are
    /// dropped, so the caller reports whether the path still exists.
    pub fn from_meta(meta: SessionMeta, path_exists: bool) -> (r: Option<Self>)
        ensures
            match r {
                Some(e) => path_exists && e.path == meta.path && e.id == meta.id && e.timestamp
                    == meta.timestamp && e.message_count == meta.message_count && e.name
                    == meta.name && e.last_modified_ms == meta.last_modified_ms,
                None => !path_exists,
            },
    {
        if !path_exists {
            return None;
        }
        Some(
            SessionPickEntry {
                path: meta.path,
                id: meta.id,
                timestamp: meta.timestamp,
                message_count: meta.message_count,
                name: meta.name,
                last_modified_ms: meta.last_modified_ms,
            },
        )
    }
}

/// What a picker selection input means.
#[derive(Debug, PartialEq, Eq, Structural)]
pub enum PickChoice {
    /// Blank input: start a new session.
    StartNew,
    /// A valid one-based index into the list.
    Pick(usize),
    /// Anything else.
    Invalid,
}

/// Read a picker selection: blank starts a new session, a number between
/// one and the list length picks, and anything else is invalid.
pub fn parse_pick_selection(input: &str, len: usize) -> (r: PickChoice)
    ensures
        ({
            let t = crate::text::spec_trim(input@);
            t.len() == 0 ==> r == PickChoice::StartNew
        }),
        (r matches PickChoice::Pick(i) ==> 1 <= i <= len),
{
    let t = crate::text::normalize_str(input);
    if t.len() == 0 {
        return PickChoice::StartNew;
    }
    proof {
        assert(crate::text::normalize_token(input@).len() == crate::text::spec_trim(
            input@,
        ).len());
    }
    let mut value: usize = 0;
    let mut i: usize = 0;
    let n = t.len();
    while i < n
        invariant
            n == t@.len(),
            n == crate::text::spec_trim(input@).len(),
            n > 0,
            i <= n,
            value <= len,
        decreases n - i,
    {
        let c = t[i];
        if c < '0' || c > '9' {
            return PickChoice::Invalid;
        }
        let d = ((c as u8) - 48) as usize;
        if value > len / 10 || (value == len / 10 && d > len % 10) {
            return PickChoice::Invalid;
        }
        value = value * 10 + d;
        i = i + 1;
    }
    if value >= 1 && value <= len {
        PickChoice::Pick(value)
    } else {
        PickChoice::Invalid
    }
}


/// Newest first: each entry was modified no earlier than the ones after
/// it.
pub open spec fn sorted_newest_first(s: Seq<SessionPickEntry>) -> bool {
    forall|i: int, j: int|
        0 <= i < j < s.len() ==> s[i].last_modified_ms >= s[j].last_modified_ms
}

/// The position of a most recently modified entry.
fn newest_idx(v: &Vec<SessionPickEntry>) -> (r: usize)
    requires
        v@.len() > 0,
    ensures
        r < v@.len(),
        forall|j: int| 0 <= j < v@.len() ==> v@[j].last_modified_ms <= v@[r as int].last_modified_ms,
{
    let n = v.len();
    let mut best: usize = 0;
    let mut i: usize = 1;
    while i < n
        invariant
            n == v@.len(),
            best < i <= n,
            forall|j: int| 0 <= j < i ==> v@[j].last_modified_ms <= v@[best as int].last_modified_ms,
        decreases n - i,
    {
        if v[i].last_modified_ms > v[best].last_modified_ms {
            best = i;
        }
        i = i + 1;
    }
    best
}

/// Order the picker lines for display: entries drawn from the given ones,
/// most recently modified first, keeping at most `max_entries` of them
/// from the top.
pub fn prepare_pick_entries(entries: Vec<SessionPickEntry>, max_entries: usize) -> (r: Vec<
    SessionPickEntry,
>)
    ensures
        sorted_newest_first(r@),
        r@.len() == if entries@.len() <= max_entries {
            entries@.len() as int
        } else {
            max_entries as int
        },
        forall|i: int| 0 <= i < r@.len() ==> entries@.contains(#[trigger] r@[i]),
{
    let mut work = entries;
    let ghost orig = work@;
    let mut out: Vec<SessionPickEntry> = Vec::new();
    proof {
        assert(forall|j: int| 0 <= j < orig.len() ==> orig.contains(#[trigger] orig[j]));
    }
    while work.len() > 0 && out.len() < max_entries
        invariant
            out@.len() + work@.len() == orig.len(),
            out@.len() <= max_entries,
            sorted_newest_first(out@),
            forall|i: int, j: int|
                0 <= i < out@.len() && 0 <= j < work@.len() ==> out@[i].last_modified_ms
                    >= work@[j].last_modified_ms,
            forall|i: int| 0 <= i < out@.len() ==> orig.contains(#[trigger] out@[i]),
            forall|j: int| 0 <= j < work@.len() ==> orig.contains(#[trigger] work@[j]),
        decreases work@.len(),
    {
        let idx = newest_idx(&work);
        let ghost w_pre = work@;
        let picked = work.remove(idx);
        proof {
            assert(orig.contains(picked));
            assert forall|j: int| 0 <= j < work@.len() implies orig.contains(
                #[trigger] work@[j],
            ) by {
                if j < idx {
                    assert(work@[j] == w_pre[j]);
                } else {
                    assert(work@[j] == w_pre[j + 1]);
                }
            }
        }
        let ghost o_pre = out@;
        out.push(picked);
        proof {
            assert(out@.drop_last() =~= o_pre);
        }
    }
    out
}

} // verus!
