//! Session state: the entry tree a conversation is stored as, the append
//! operations that grow it, and the helpers around entry identity.
//!
//! Reading and writing session files is I/O and lives outside the library;
//! it hands parsed headers and entries in and takes them back out.

use vstd::prelude::*;
use crate::model::{Message, ToolResultMessage, UserMessage};
use crate::hostcall::JsonValue;
use crate::text::str_eq;

verus! {

/// Current session file format version.
pub const SESSION_VERSION: u8 = 3;

/// Relies on `uuid::Uuid::new_v4` and its hyphenated rendering: 36 ASCII
/// characters. The value is random; nothing further is assumed of it.
#[verifier::external_body]
pub fn uuid_v4_string() -> (r: String)
    ensures
        r@.len() == 36,
        r.is_ascii(),
{
    uuid::Uuid::new_v4().to_string()
}

/// Relies on `uuid::Uuid::new_v4` and its simple rendering: 32 ASCII hex
/// digits. The value is random; nothing further is assumed of it.
#[verifier::external_body]
fn uuid_v4_simple() -> (r: String)
    ensures
        r@.len() == 32,
        r.is_ascii(),
{
    uuid::Uuid::new_v4().simple().to_string()
}

/// Relies on `chrono::Utc::now` and its RFC 3339 rendering with
/// millisecond precision. The value is the wall clock's; nothing further
/// is assumed of it.
#[verifier::external_body]
pub fn now_rfc3339_millis() -> String {
    chrono::Utc::now().to_rfc3339_opts(chrono::SecondsFormat::Millis, true)
}

/// Relies on `chrono::Utc::now`: the milliseconds since the Unix epoch.
/// The value is the wall clock's; nothing further is assumed of it.
#[verifier::external_body]
pub fn now_timestamp_millis() -> i64 {
    chrono::Utc::now().timestamp_millis()
}

/// Session file header: the first record of a session file.
#[derive(Debug)]
pub struct SessionHeader {
    /// The record's type tag; always `session`.
    pub kind: String,
    pub version: Option<u8>,
    pub id: String,
    pub timestamp: String,
    /// The working directory the session belongs to; the shell that knows
    /// the process's directory fills it.
    pub cwd: String,
    pub provider: Option<String>,
    pub model_id: Option<String>,
    pub thinking_level: Option<String>,
    pub parent_session: Option<String>,
}

impl SessionHeader {
    /// A fresh header: a new random id, the current timestamp, the current
    /// format version, and an empty working directory.
    pub fn new() -> (r: Self)
        ensures
            r.kind@ == "session"@,
            r.version == Some(SESSION_VERSION),
            r.id@.len() == 36,
            r.cwd@.len() == 0,
            r.provider is None,
            r.model_id is None,
            r.thinking_level is None,
            r.parent_session is None,
    {
        SessionHeader {
            kind: "session".to_owned(),
            version: Some(SESSION_VERSION),
            id: uuid_v4_string(),
            timestamp: now_rfc3339_millis(),
            cwd: String::new(),
            provider: None,
            model_id: None,
            thinking_level: None,
            parent_session: None,
        }
    }
}

/// Base fields every entry carries.
#[derive(Debug)]
pub struct EntryBase {
    pub id: Option<String>,
    pub parent_id: Option<String>,
    pub timestamp: String,
}

impl EntryBase {
    /// A base with the given identity and parent, stamped now.
    pub fn new(parent_id: Option<String>, id: String) -> (r: Self)
        ensures
            r.id == Some(id),
            r.parent_id == parent_id,
    {
        EntryBase { id: Some(id), parent_id, timestamp: now_rfc3339_millis() }
    }
}

/// A message payload inside a session entry.
#[derive(Debug)]
pub enum SessionMessage {
    User { content: crate::model::UserContent, timestamp: Option<i64> },
    Assistant { message: crate::model::AssistantMessage },
    ToolResult {
        tool_call_id: String,
        tool_name: String,
        content: Vec<crate::model::ContentBlock>,
        details: Option<JsonValue>,
        is_error: bool,
        timestamp: Option<i64>,
    },
    Custom { custom_type: String, content: String, display: bool, details: Option<JsonValue> },
    BashExecution {
        command: String,
        output: String,
        exit_code: i32,
        cancelled: Option<bool>,
        truncated: Option<bool>,
        full_output_path: Option<String>,
        timestamp: Option<i64>,
    },
    BranchSummary { summary: String, from_id: String },
    CompactionSummary { summary: String, tokens_before: u64 },
}

/// A message entry.
#[derive(Debug)]
pub struct MessageEntry {
    pub base: EntryBase,
    pub message: SessionMessage,
}

/// A model change entry.
#[derive(Debug)]
pub struct ModelChangeEntry {
    pub base: EntryBase,
    pub provider: String,
    pub model_id: String,
}

/// A thinking level change entry.
#[derive(Debug)]
pub struct ThinkingLevelChangeEntry {
    pub base: EntryBase,
    pub thinking_level: String,
}

/// A compaction entry.
#[derive(Debug)]
pub struct CompactionEntry {
    pub base: EntryBase,
    pub summary: String,
    pub first_kept_entry_id: String,
    pub tokens_before: u64,
    pub details: Option<JsonValue>,
    pub from_hook: Option<bool>,
}

/// A branch summary entry.
#[derive(Debug)]
pub struct BranchSummaryEntry {
    pub base: EntryBase,
    pub from_id: String,
    pub summary: String,
    pub details: Option<JsonValue>,
    pub from_hook: Option<bool>,
}

/// A label entry.
#[derive(Debug)]
pub struct LabelEntry {
    pub base: EntryBase,
    pub target_id: String,
    pub label: Option<String>,
}

/// A session info entry.
#[derive(Debug)]
pub struct SessionInfoEntry {
    pub base: EntryBase,
    pub name: Option<String>,
}

/// A custom entry.
#[derive(Debug)]
pub struct CustomEntry {
    pub base: EntryBase,
    pub custom_type: String,
    pub data: Option<JsonValue>,
}

/// One record of a session file after the header.
#[derive(Debug)]
pub enum SessionEntry {
    Message(MessageEntry),
    ModelChange(ModelChangeEntry),
    ThinkingLevelChange(ThinkingLevelChangeEntry),
    Compaction(CompactionEntry),
    BranchSummary(BranchSummaryEntry),
    Label(LabelEntry),
    SessionInfo(SessionInfoEntry),
    Custom(CustomEntry),
}

impl SessionEntry {
    /// The entry's base fields.
    pub open spec fn spec_base(&self) -> &EntryBase {
        match self {
            SessionEntry::Message(e) => &e.base,
            SessionEntry::ModelChange(e) => &e.base,
            SessionEntry::ThinkingLevelChange(e) => &e.base,
            SessionEntry::Compaction(e) => &e.base,
            SessionEntry::BranchSummary(e) => &e.base,
            SessionEntry::Label(e) => &e.base,
            SessionEntry::SessionInfo(e) => &e.base,
            SessionEntry::Custom(e) => &e.base,
        }
    }

    /// The entry's base fields.
    pub fn base(&self) -> (r: &EntryBase)
        ensures
            r == self.spec_base(),
    {
        match self {
            SessionEntry::Message(e) => &e.base,
            SessionEntry::ModelChange(e) => &e.base,
            SessionEntry::ThinkingLevelChange(e) => &e.base,
            SessionEntry::Compaction(e) => &e.base,
            SessionEntry::BranchSummary(e) => &e.base,
            SessionEntry::Label(e) => &e.base,
            SessionEntry::SessionInfo(e) => &e.base,
            SessionEntry::Custom(e) => &e.base,
        }
    }

    /// The entry's id, if it has one.
    pub fn base_id(&self) -> (r: Option<&String>)
        ensures
            match r {
                Some(id) => self.spec_base().id == Some(*id),
                None => self.spec_base().id is None,
            },
    {
        match self.base().id.as_ref() {
            Some(id) => Some(id),
            None => None,
        }
    }
}

/// A session: its header and the entries appended so far.
#[derive(Debug)]
pub struct Session {
    /// Session header.
    pub header: SessionHeader,
    /// Session entries: messages, changes, and the rest.
    pub entries: Vec<SessionEntry>,
    /// Path of the session file; `None` for an in-memory session.
    pub path: Option<String>,
    /// Current leaf entry id.
    pub leaf_id: Option<String>,
    /// Base directory override for session storage.
    pub session_dir: Option<String>,
}

/// Whether any of the strings equals the given one.
fn ids_contain(ids: &Vec<String>, id: &str) -> (r: bool)
    ensures
        r == exists|i: int| 0 <= i < ids@.len() && #[trigger] ids@[i]@ == id@,
{
    let n = ids.len();
    let mut i: usize = 0;
    while i < n
        invariant
            n == ids@.len(),
            i <= n,
            forall|k: int| 0 <= k < i ==> #[trigger] ids@[k]@ != id@,
        decreases n - i,
    {
        if str_eq(ids[i].as_str(), id) {
            return true;
        }
        i = i + 1;
    }
    false
}

/// Generate an entry id: eight hex characters not already in use, falling
/// back to a full random id if a hundred draws all collide.
pub fn generate_entry_id(existing: &Vec<String>) -> (r: String)
    ensures
        r@.len() == 8 || r@.len() == 36,
        r@.len() == 8 ==> forall|i: int| 0 <= i < existing@.len() ==> #[trigger] existing@[i]@
            != r@,
{
    let mut tries: u32 = 0;
    while tries < 100
        invariant
            tries <= 100,
        decreases 100 - tries,
    {
        let full = uuid_v4_simple();
        let id = full.as_str().substring_ascii(0, 8);
        if !ids_contain(existing, id) {
            return id.to_owned();
        }
        tries = tries + 1;
    }
    uuid_v4_string()
}

/// The ids present among the entries.
pub fn entry_id_set(entries: &Vec<SessionEntry>) -> (r: Vec<String>)
    ensures
        forall|i: int|
            0 <= i < entries@.len() ==> ((#[trigger] entries@[i].spec_base().id) matches Some(id)
                ==> exists|j: int| 0 <= j < r@.len() && #[trigger] r@[j]@ == id@),
{
    let n = entries.len();
    let mut r: Vec<String> = Vec::new();
    let mut i: usize = 0;
    while i < n
        invariant
            n == entries@.len(),
            i <= n,
            forall|k: int|
                0 <= k < i ==> ((#[trigger] entries@[k].spec_base().id) matches Some(id)
                    ==> exists|j: int| 0 <= j < r@.len() && #[trigger] r@[j]@ == id@),
        decreases n - i,
    {
        let ghost before = r@;
        match entries[i].base_id() {
            Some(id) => {
                r.push(id.clone());
                proof {
                    assert(forall|j: int| 0 <= j < before.len() ==> #[trigger] r@[j] == before[
                        j
                    ]);
                    assert(r@[r@.len() - 1]@ == entries@[i as int].spec_base().id->0@);
                }
            },
            None => {},
        }
        proof {
            assert forall|k: int|
                0 <= k < i + 1 implies ((#[trigger] entries@[k].spec_base().id) matches Some(id2)
                ==> exists|j: int| 0 <= j < r@.len() && #[trigger] r@[j]@ == id2@) by {
                if k < i {
                    if entries@[k].spec_base().id is Some {
                        let id2 = entries@[k].spec_base().id->0;
                        let j = choose|j: int| 0 <= j < before.len() && #[trigger] before[j]@
                            == id2@;
                        assert(r@[j]@ == id2@);
                    }
                }
            }
        }
        i = i + 1;
    }
    r
}

impl Session {
    /// An ephemeral session with nothing stored.
    pub fn in_memory() -> (r: Self)
        ensures
            r.entries@.len() == 0,
            r.path is None,
            r.leaf_id is None,
            r.session_dir is None,
    {
        Session {
            header: SessionHeader::new(),
            entries: Vec::new(),
            path: None,
            leaf_id: None,
            session_dir: None,
        }
    }

    /// A new session stored under the default directory.
    pub fn create() -> (r: Self)
        ensures
            r.entries@.len() == 0,
            r.path is None,
            r.leaf_id is None,
            r.session_dir is None,
    {
        Session::create_with_dir(None)
    }

    /// A new session with an optional base directory override.
    pub fn create_with_dir(session_dir: Option<String>) -> (r: Self)
        ensures
            r.entries@.len() == 0,
            r.path is None,
            r.leaf_id is None,
            r.session_dir == session_dir,
    {
        Session {
            header: SessionHeader::new(),
            entries: Vec::new(),
            path: None,
            leaf_id: None,
            session_dir,
        }
    }

    /// A fresh id not colliding with the present entries.
    fn next_entry_id(&self) -> (r: String)
        ensures
            r@.len() == 8 || r@.len() == 36,
    {
        let existing = entry_id_set(&self.entries);
        generate_entry_id(&existing)
    }

    /// Append a message entry: it becomes the new leaf, with the prior
    /// leaf as its parent, and its id is returned.
    pub fn append_message(&mut self, message: SessionMessage) -> (r: String)
        ensures
            final(self).entries@.len() == old(self).entries@.len() + 1,
            final(self).entries@.drop_last() == old(self).entries@,
            (final(self).entries@.last() matches SessionEntry::Message(e) && (e.base.id
                matches Some(id) && id@ == r@) && e.base.parent_id == old(self).leaf_id),
            (final(self).leaf_id matches Some(l) && l@ == r@),
            final(self).header == old(self).header,
            final(self).path == old(self).path,
    {
        let id = self.next_entry_id();
        let id_copy = id.clone();
        let leaf_copy = id.clone();
        let parent = match &self.leaf_id {
            Some(l) => Some(l.clone()),
            None => None,
        };
        let base = EntryBase::new(parent, id_copy);
        let entry = SessionEntry::Message(MessageEntry { base, message });
        self.leaf_id = Some(leaf_copy);
        self.entries.push(entry);
        proof {
            assert(self.entries@.drop_last() =~= old(self).entries@);
        }
        id
    }

    /// Append a model change entry; it becomes the new leaf.
    pub fn append_model_change(&mut self, provider: String, model_id: String) -> (r: String)
        ensures
            final(self).entries@.len() == old(self).entries@.len() + 1,
            final(self).entries@.drop_last() == old(self).entries@,
            (final(self).entries@.last() matches SessionEntry::ModelChange(e) && e.provider
                == provider && e.model_id == model_id && (e.base.id matches Some(id) && id@
                == r@) && e.base.parent_id == old(self).leaf_id),
            (final(self).leaf_id matches Some(l) && l@ == r@),
    {
        let id = self.next_entry_id();
        let id_copy = id.clone();
        let leaf_copy = id.clone();
        let parent = match &self.leaf_id {
            Some(l) => Some(l.clone()),
            None => None,
        };
        let base = EntryBase::new(parent, id_copy);
        let entry = SessionEntry::ModelChange(ModelChangeEntry { base, provider, model_id });
        self.leaf_id = Some(leaf_copy);
        self.entries.push(entry);
        proof {
            assert(self.entries@.drop_last() =~= old(self).entries@);
        }
        id
    }

    /// Append a thinking level change entry; it becomes the new leaf.
    pub fn append_thinking_level_change(&mut self, thinking_level: String) -> (r: String)
        ensures
            final(self).entries@.len() == old(self).entries@.len() + 1,
            final(self).entries@.drop_last() == old(self).entries@,
            (final(self).entries@.last() matches SessionEntry::ThinkingLevelChange(e)
                && e.thinking_level == thinking_level && (e.base.id matches Some(id) && id@
                == r@) && e.base.parent_id == old(self).leaf_id),
            (final(self).leaf_id matches Some(l) && l@ == r@),
    {
        let id = self.next_entry_id();
        let id_copy = id.clone();
        let leaf_copy = id.clone();
        let parent = match &self.leaf_id {
            Some(l) => Some(l.clone()),
            None => None,
        };
        let base = EntryBase::new(parent, id_copy);
        let entry = SessionEntry::ThinkingLevelChange(
            ThinkingLevelChangeEntry { base, thinking_level },
        );
        self.leaf_id = Some(leaf_copy);
        self.entries.push(entry);
        proof {
            assert(self.entries@.drop_last() =~= old(self).entries@);
        }
        id
    }

    /// Append a session info entry; it becomes the new leaf.
    pub fn append_session_info(&mut self, name: Option<String>) -> (r: String)
        ensures
            final(self).entries@.len() == old(self).entries@.len() + 1,
            final(self).entries@.drop_last() == old(self).entries@,
            (final(self).entries@.last() matches SessionEntry::SessionInfo(e) && e.name == name
                && (e.base.id matches Some(id) && id@ == r@) && e.base.parent_id == old(
                self,
            ).leaf_id),
            (final(self).leaf_id matches Some(l) && l@ == r@),
    {
        let id = self.next_entry_id();
        let id_copy = id.clone();
        let leaf_copy = id.clone();
        let parent = match &self.leaf_id {
            Some(l) => Some(l.clone()),
            None => None,
        };
        let base = EntryBase::new(parent, id_copy);
        let entry = SessionEntry::SessionInfo(SessionInfoEntry { base, name });
        self.leaf_id = Some(leaf_copy);
        self.entries.push(entry);
        proof {
            assert(self.entries@.drop_last() =~= old(self).entries@);
        }
        id
    }

    /// Append a message from the model message types; it becomes the new
    /// leaf.
    pub fn append_model_message(&mut self, message: Message) -> (r: String)
        ensures
            final(self).entries@.len() == old(self).entries@.len() + 1,
            (final(self).leaf_id matches Some(l) && l@ == r@),
    {
        let session_message = session_message_from(message);
        self.append_message(session_message)
    }

    /// Update the header's model fields; fields not given keep their
    /// values.
    pub fn set_model_header(
        &mut self,
        provider: Option<String>,
        model_id: Option<String>,
        thinking_level: Option<String>,
    )
        ensures
            final(self).header.provider == if provider is Some {
                provider
            } else {
                old(self).header.provider
            },
            final(self).header.model_id == if model_id is Some {
                model_id
            } else {
                old(self).header.model_id
            },
            final(self).header.thinking_level == if thinking_level is Some {
                thinking_level
            } else {
                old(self).header.thinking_level
            },
            final(self).entries == old(self).entries,
            final(self).leaf_id == old(self).leaf_id,
    {
        if provider.is_some() {
            self.header.provider = provider;
        }
        if model_id.is_some() {
            self.header.model_id = model_id;
        }
        if thinking_level.is_some() {
            self.header.thinking_level = thinking_level;
        }
    }

    /// Record which session this one was branched from.
    pub fn set_branched_from(&mut self, path: Option<String>)
        ensures
            final(self).header.parent_session == path,
            final(self).entries == old(self).entries,
    {
        self.header.parent_session = path;
    }
}

/// Turn a model message into its session payload.
pub fn session_message_from(message: Message) -> (r: SessionMessage)
    ensures
        match message {
            Message::User(_) => r is User,
            Message::Assistant(_) => r is Assistant,
            Message::ToolResult(_) => r is ToolResult,
        },
{
    match message {
        Message::User(user) => SessionMessage::User {
            content: user.content,
            timestamp: Some(user.timestamp),
        },
        Message::Assistant(assistant) => SessionMessage::Assistant { message: assistant },
        Message::ToolResult(result) => SessionMessage::ToolResult {
            tool_call_id: result.tool_call_id,
            tool_name: result.tool_name,
            content: result.content,
            details: result.details,
            is_error: result.is_error,
            timestamp: Some(result.timestamp),
        },
    }
}

/// Turn a session payload back into a model message when it is one;
/// missing timestamps are stamped with the given time.
pub fn session_message_to_model(message: SessionMessage, now_ms: i64) -> (r: Option<Message>)
    ensures
        match message {
            SessionMessage::User { .. } => r matches Some(Message::User(_)),
            SessionMessage::Assistant { .. } => r matches Some(Message::Assistant(_)),
            SessionMessage::ToolResult { .. } => r matches Some(Message::ToolResult(_)),
            _ => r is None,
        },
{
    match message {
        SessionMessage::User { content, timestamp } => Some(
            Message::User(
                UserMessage {
                    content,
                    timestamp: match timestamp {
                        Some(t) => t,
                        None => now_ms,
                    },
                },
            ),
        ),
        SessionMessage::Assistant { message } => Some(Message::Assistant(message)),
        SessionMessage::ToolResult {
            tool_call_id,
            tool_name,
            content,
            details,
            is_error,
            timestamp,
        } => Some(
            Message::ToolResult(
                ToolResultMessage {
                    tool_call_id,
                    tool_name,
                    content,
                    details,
                    is_error,
                    timestamp: match timestamp {
                        Some(t) => t,
                        None => now_ms,
                    },
                },
            ),
        ),
        _ => None,
    }
}

/// Characters needing HTML escaping, and their replacements.
pub open spec fn html_entity(c: char) -> Seq<char> {
    if c == '&' {
        "&amp;"@
    } else if c == '<' {
        "&lt;"@
    } else if c == '>' {
        "&gt;"@
    } else if c == '"' {
        "&quot;"@
    } else if c == '\'' {
        "&#39;"@
    } else {
        seq![c]
    }
}

/// The HTML-escaped form of a text.
pub open spec fn spec_escape_html(s: Seq<char>) -> Seq<char>
    decreases s.len(),
{
    if s.len() == 0 {
        Seq::empty()
    } else {
        html_entity(s[0]) + spec_escape_html(s.drop_first())
    }
}

/// Escaping one more character appends its entity.
proof fn lemma_escape_snoc(s: Seq<char>, c: char)
    ensures
        spec_escape_html(s.push(c)) == spec_escape_html(s) + html_entity(c),
    decreases s.len(),
{
    let p = s.push(c);
    if s.len() == 0 {
        assert(p.drop_first() =~= Seq::<char>::empty());
        assert(p[0] == c);
        assert(spec_escape_html(p) == html_entity(p[0]) + spec_escape_html(p.drop_first()));
        assert(spec_escape_html(p.drop_first()) == Seq::<char>::empty());
        assert(spec_escape_html(s) == Seq::<char>::empty());
        assert(spec_escape_html(p) =~= spec_escape_html(s) + html_entity(c));
    } else {
        assert(p.drop_first() =~= s.drop_first().push(c));
        assert(p[0] == s[0]);
        assert(spec_escape_html(p) == html_entity(p[0]) + spec_escape_html(p.drop_first()));
        lemma_escape_snoc(s.drop_first(), c);
        assert(spec_escape_html(s) == html_entity(s[0]) + spec_escape_html(s.drop_first()));
        assert(spec_escape_html(p) =~= spec_escape_html(s) + html_entity(c));
    }
}

/// Escape text for HTML: ampersands, angle brackets and quotes become
/// entities.
pub fn escape_html(input: &str) -> (r: String)
    ensures
        r@ == spec_escape_html(input@),
{
    let v = crate::text::str_to_chars(input);
    let n = v.len();
    let mut out = String::new();
    let mut i: usize = 0;
    proof {
        assert(v@.take(0) =~= Seq::<char>::empty());
    }
    while i < n
        invariant
            n == v@.len(),
            i <= n,
            out@ == spec_escape_html(v@.take(i as int)),
        decreases n - i,
    {
        proof {
            assert(v@.take(i + 1) =~= v@.take(i as int).push(v@[i as int]));
            lemma_escape_snoc(v@.take(i as int), v@[i as int]);
        }
        let c = v[i];
        if c == '&' {
            out.append("&amp;");
        } else if c == '<' {
            out.append("&lt;");
        } else if c == '>' {
            out.append("&gt;");
        } else if c == '"' {
            out.append("&quot;");
        } else if c == '\'' {
            out.append("&#39;");
        } else {
            let one = single_char_string(c);
            out.append(one.as_str());
        }
        i = i + 1;
    }
    proof {
        assert(v@.take(n as int) =~= v@);
    }
    out
}

/// A string of one character.
pub fn single_char_string(c: char) -> (r: String)
    ensures
        r@ == seq![c],
{
    let mut v: Vec<char> = Vec::new();
    v.push(c);
    proof {
        assert(v@ =~= seq![c]);
    }
    crate::text::chars_to_string(&v)
}

/// A leading path separator is dropped when a working directory is
/// encoded.
pub open spec fn is_sep(c: char) -> bool {
    c == '/' || c == '\\'
}

/// The path with its leading separators dropped.
pub open spec fn spec_drop_leading_seps(s: Seq<char>) -> Seq<char>
    decreases s.len(),
{
    if s.len() > 0 && is_sep(s[0]) {
        spec_drop_leading_seps(s.drop_first())
    } else {
        s
    }
}

proof fn lemma_drop_leading_seps(s: Seq<char>, a: int)
    requires
        0 <= a <= s.len(),
        forall|k: int| 0 <= k < a ==> is_sep(s[k]),
        a == s.len() || !is_sep(s[a]),
    ensures
        spec_drop_leading_seps(s) == s.subrange(a, s.len() as int),
    decreases a,
{
    if a == 0 {
        assert(s.subrange(0, s.len() as int) =~= s);
    } else {
        assert(is_sep(s[0]));
        let t = s.drop_first();
        assert(t =~= s.subrange(1, s.len() as int));
        lemma_drop_leading_seps(t, a - 1);
        assert(t.subrange(a - 1, t.len() as int) =~= s.subrange(a, s.len() as int));
    }
}

/// The working directory's encoded form: leading separators dropped,
/// separators and colons replaced by dashes, wrapped in double dashes.
pub open spec fn spec_encode_cwd(s: Seq<char>) -> Seq<char> {
    let t = spec_drop_leading_seps(s);
    "--"@ + Seq::new(t.len(), |i: int| if is_sep(t[i]) || t[i] == ':' { '-' } else { t[i] })
        + "--"@
}

/// Encode a working directory path for use in session directory names.
pub fn encode_cwd(path: &str) -> (r: String)
    ensures
        r@ == spec_encode_cwd(path@),
{
    let v = crate::text::str_to_chars(path);
    let n = v.len();
    let mut a: usize = 0;
    while a < n && (v[a] == '/' || v[a] == '\\')
        invariant
            n == v@.len(),
            a <= n,
            forall|k: int| 0 <= k < a ==> is_sep(v@[k]),
        decreases n - a,
    {
        a = a + 1;
    }
    proof {
        lemma_drop_leading_seps(v@, a as int);
    }
    let mut mapped: Vec<char> = Vec::new();
    let mut i: usize = a;
    while i < n
        invariant
            a <= i <= n,
            n == v@.len(),
            mapped@.len() == i - a,
            forall|k: int|
                0 <= k < i - a ==> mapped@[k] == (if is_sep(v@[a + k]) || v@[a + k] == ':' {
                    '-'
                } else {
                    v@[a + k]
                }),
        decreases n - i,
    {
        let c = v[i];
        if c == '/' || c == '\\' || c == ':' {
            mapped.push('-');
        } else {
            mapped.push(c);
        }
        i = i + 1;
    }
    let mut out = String::new();
    out.append("--");
    let mid = crate::text::chars_to_string(&mapped);
    out.append(mid.as_str());
    out.append("--");
    proof {
        let t = spec_drop_leading_seps(path@);
        assert(t =~= v@.subrange(a as int, n as int));
        assert(mapped@ =~= Seq::new(t.len(), |k: int| if is_sep(t[k]) || t[k] == ':' {
            '-'
        } else {
            t[k]
        }));
    }
    out
}


/// The HTML for one content block: text and thinking in `pre` blocks, an
/// image as a data URL, a tool call as a note with its arguments rendered
/// as compact JSON.
pub open spec fn spec_render_block(b: &crate::model::ContentBlock) -> Seq<char> {
    match b {
        crate::model::ContentBlock::Text(t) => "<pre>"@ + spec_escape_html(t.text@) + "</pre>"@,
        crate::model::ContentBlock::Thinking(t) => "<details class=\"thinking\"><summary>Thinking</summary><pre>"@
            + spec_escape_html(t.thinking@) + "</pre></details>"@,
        crate::model::ContentBlock::Image(i) => "<img src=\"data:"@ + spec_escape_html(
            i.mime_type@,
        ) + ";base64,"@ + spec_escape_html(i.data@) + "\" alt=\"image\"/>"@,
        crate::model::ContentBlock::ToolCall(tc) => "<div class=\"note\">Tool call: "@
            + spec_escape_html(tc.name@) + "</div><pre>"@ + spec_escape_html(
            crate::hostcall::spec_json_text(tc.arguments),
        ) + "</pre>"@,
    }
}

/// The HTML for a run of content blocks, from position `i` on.
pub open spec fn spec_render_blocks(blocks: Seq<crate::model::ContentBlock>, i: int) -> Seq<char>
    decreases blocks.len() - i,
{
    if i < 0 || i >= blocks.len() {
        Seq::empty()
    } else {
        spec_render_block(&blocks[i]) + spec_render_blocks(blocks, i + 1)
    }
}

/// Render one content block as HTML.
fn render_block(b: &crate::model::ContentBlock) -> (r: String)
    ensures
        r@ == spec_render_block(b),
{
    let mut out = String::new();
    match b {
        crate::model::ContentBlock::Text(t) => {
            out.append("<pre>");
            let e = escape_html(t.text.as_str());
            out.append(e.as_str());
            out.append("</pre>");
        },
        crate::model::ContentBlock::Thinking(t) => {
            out.append("<details class=\"thinking\"><summary>Thinking</summary><pre>");
            let e = escape_html(t.thinking.as_str());
            out.append(e.as_str());
            out.append("</pre></details>");
        },
        crate::model::ContentBlock::Image(i) => {
            out.append("<img src=\"data:");
            let m = escape_html(i.mime_type.as_str());
            out.append(m.as_str());
            out.append(";base64,");
            let d = escape_html(i.data.as_str());
            out.append(d.as_str());
            out.append("\" alt=\"image\"/>");
        },
        crate::model::ContentBlock::ToolCall(tc) => {
            out.append("<div class=\"note\">Tool call: ");
            let n = escape_html(tc.name.as_str());
            out.append(n.as_str());
            out.append("</div><pre>");
            let args = crate::hostcall::json_text(&tc.arguments);
            let e = escape_html(args.as_str());
            out.append(e.as_str());
            out.append("</pre>");
        },
    }
    out
}

/// Render a run of content blocks as HTML.
pub fn render_blocks(blocks: &Vec<crate::model::ContentBlock>) -> (r: String)
    ensures
        r@ == spec_render_blocks(blocks@, 0),
{
    let n = blocks.len();
    let mut out = String::new();
    let mut k: usize = 0;
    while k < n
        invariant
            n == blocks@.len(),
            k <= n,
            out@ + spec_render_blocks(blocks@, k as int) == spec_render_blocks(blocks@, 0),
        decreases n - k,
    {
        let piece = render_block(&blocks[k]);
        out.append(piece.as_str());
        k = k + 1;
    }
    out
}

/// The HTML for a user message's content.
pub open spec fn spec_render_user_content(content: &crate::model::UserContent) -> Seq<char> {
    match content {
        crate::model::UserContent::Text(text) => "<pre>"@ + spec_escape_html(text@) + "</pre>"@,
        crate::model::UserContent::Blocks(blocks) => spec_render_blocks(blocks@, 0),
    }
}

/// Render a user message's content as HTML.
pub fn render_user_content(content: &crate::model::UserContent) -> (r: String)
    ensures
        r@ == spec_render_user_content(content),
{
    match content {
        crate::model::UserContent::Text(text) => {
            let mut out = String::new();
            out.append("<pre>");
            let e = escape_html(text.as_str());
            out.append(e.as_str());
            out.append("</pre>");
            out
        },
        crate::model::UserContent::Blocks(blocks) => render_blocks(blocks),
    }
}

/// The HTML for one session message; tool details and arguments appear as
/// compact JSON inside escaped `pre` blocks.
pub open spec fn spec_render_message(message: &SessionMessage) -> Seq<char> {
    match message {
        SessionMessage::User { content, .. } => "<div class=\"msg user\"><div class=\"role\">User</div>"@
            + spec_render_user_content(content) + "</div>"@,
        SessionMessage::Assistant { message } => "<div class=\"msg assistant\"><div class=\"role\">Assistant</div>"@
            + spec_render_blocks(message.content@, 0) + "</div>"@,
        SessionMessage::ToolResult { tool_name, content, details, is_error, .. } => "<div class=\"msg tool\"><div class=\"role\">"@
            + (if *is_error {
            "Tool Error"@
        } else {
            "Tool"@
        }) + ": "@ + spec_escape_html(tool_name@) + "</div>"@ + spec_render_blocks(content@, 0)
            + (match details {
            Some(d) => "<pre>"@ + spec_escape_html(crate::hostcall::spec_json_text(*d))
                + "</pre>"@,
            None => Seq::empty(),
        }) + "</div>"@,
        SessionMessage::Custom { custom_type, content, .. } => "<div class=\"msg system\"><div class=\"role\">"@
            + spec_escape_html(custom_type@) + "</div><pre>"@ + spec_escape_html(content@)
            + "</pre></div>"@,
        SessionMessage::BashExecution { command, output, exit_code, .. } => "<div class=\"msg tool\"><div class=\"role\">Bash (exit "@
            + crate::hostcall::spec_int_text(*exit_code as int) + ")</div><pre>"@
            + spec_escape_html(command@) + "</pre><pre>"@ + spec_escape_html(output@)
            + "</pre></div>"@,
        SessionMessage::BranchSummary { summary, .. } => "<div class=\"msg system\"><div class=\"role\">Branch Summary</div><pre>"@
            + spec_escape_html(summary@) + "</pre></div>"@,
        SessionMessage::CompactionSummary { summary, .. } => "<div class=\"msg system\"><div class=\"role\">Compaction</div><pre>"@
            + spec_escape_html(summary@) + "</pre></div>"@,
    }
}

/// Render one session message as HTML.
pub fn render_session_message(message: &SessionMessage) -> (r: String)
    ensures
        r@ == spec_render_message(message),
{
    let mut out = String::new();
    match message {
        SessionMessage::User { content, .. } => {
            out.append("<div class=\"msg user\"><div class=\"role\">User</div>");
            let c = render_user_content(content);
            out.append(c.as_str());
            out.append("</div>");
        },
        SessionMessage::Assistant { message } => {
            out.append("<div class=\"msg assistant\"><div class=\"role\">Assistant</div>");
            let c = render_blocks(&message.content);
            out.append(c.as_str());
            out.append("</div>");
        },
        SessionMessage::ToolResult { tool_name, content, details, is_error, .. } => {
            out.append("<div class=\"msg tool\"><div class=\"role\">");
            if *is_error {
                out.append("Tool Error");
            } else {
                out.append("Tool");
            }
            out.append(": ");
            let n = escape_html(tool_name.as_str());
            out.append(n.as_str());
            out.append("</div>");
            let c = render_blocks(content);
            out.append(c.as_str());
            match details {
                Some(d) => {
                    out.append("<pre>");
                    let text = crate::hostcall::json_text(d);
                    let e = escape_html(text.as_str());
                    out.append(e.as_str());
                    out.append("</pre>");
                },
                None => {},
            }
            out.append("</div>");
        },
        SessionMessage::Custom { custom_type, content, .. } => {
            out.append("<div class=\"msg system\"><div class=\"role\">");
            let t = escape_html(custom_type.as_str());
            out.append(t.as_str());
            out.append("</div><pre>");
            let c = escape_html(content.as_str());
            out.append(c.as_str());
            out.append("</pre></div>");
        },
        SessionMessage::BashExecution { command, output, exit_code, .. } => {
            out.append("<div class=\"msg tool\"><div class=\"role\">Bash (exit ");
            let code = crate::hostcall::int_text(*exit_code as i64);
            out.append(code.as_str());
            out.append(")</div><pre>");
            let c = escape_html(command.as_str());
            out.append(c.as_str());
            out.append("</pre><pre>");
            let o = escape_html(output.as_str());
            out.append(o.as_str());
            out.append("</pre></div>");
        },
        SessionMessage::BranchSummary { summary, .. } => {
            out.append("<div class=\"msg system\"><div class=\"role\">Branch Summary</div><pre>");
            let s = escape_html(summary.as_str());
            out.append(s.as_str());
            out.append("</pre></div>");
        },
        SessionMessage::CompactionSummary { summary, .. } => {
            out.append("<div class=\"msg system\"><div class=\"role\">Compaction</div><pre>");
            let s = escape_html(summary.as_str());
            out.append(s.as_str());
            out.append("</pre></div>");
        },
    }
    out
}

/// The HTML for one session entry in the exported document.
pub open spec fn spec_entry_html(e: &SessionEntry) -> Seq<char> {
    match e {
        SessionEntry::Message(m) => spec_render_message(&m.message),
        SessionEntry::ModelChange(c) => "<div class=\"msg system\"><div class=\"role\">Model</div><div class=\"note\">"@
            + spec_escape_html(c.provider@) + " / "@ + spec_escape_html(c.model_id@)
            + "</div></div>"@,
        SessionEntry::ThinkingLevelChange(c) => "<div class=\"msg system\"><div class=\"role\">Thinking</div><div class=\"note\">"@
            + spec_escape_html(c.thinking_level@) + "</div></div>"@,
        SessionEntry::Compaction(c) => "<div class=\"msg system\"><div class=\"role\">Compaction</div><pre>"@
            + spec_escape_html(c.summary@) + "</pre></div>"@,
        SessionEntry::BranchSummary(c) => "<div class=\"msg system\"><div class=\"role\">Branch Summary</div><pre>"@
            + spec_escape_html(c.summary@) + "</pre></div>"@,
        SessionEntry::SessionInfo(info) => match info.name {
            Some(name) => "<div class=\"msg system\"><div class=\"role\">Session Name</div><div class=\"note\">"@
                + spec_escape_html(name@) + "</div></div>"@,
            None => Seq::empty(),
        },
        SessionEntry::Custom(c) => "<div class=\"msg system\"><div class=\"role\">"@
            + spec_escape_html(c.custom_type@) + "</div></div>"@,
        SessionEntry::Label(_) => Seq::empty(),
    }
}

/// The HTML for a run of session entries, from position `i` on.
pub open spec fn spec_entries_html(entries: Seq<SessionEntry>, i: int) -> Seq<char>
    decreases entries.len() - i,
{
    if i < 0 || i >= entries.len() {
        Seq::empty()
    } else {
        spec_entry_html(&entries[i]) + spec_entries_html(entries, i + 1)
    }
}

/// The fixed document head of the session export.
pub open spec fn spec_html_head() -> Seq<char> {
    "<!doctype html><html><head><meta charset=\"utf-8\"><title>Pi Session</title><style>"@
        + "body{font-family:system-ui,-apple-system,Segoe UI,Roboto,Helvetica,Arial,sans-serif;margin:24px;background:#0b0c10;color:#e6e6e6;}"@
        + "h1{margin:0 0 8px 0;}"@
        + ".meta{color:#9aa0a6;margin-bottom:24px;font-size:14px;}"@
        + ".msg{padding:16px 18px;margin:12px 0;border-radius:8px;background:#14161b;}"@
        + ".msg.user{border-left:4px solid #4fc3f7;}"@
        + ".msg.assistant{border-left:4px solid #81c784;}"@
        + ".msg.tool{border-left:4px solid #ffb74d;}"@
        + ".msg.system{border-left:4px solid #ef9a9a;}"@
        + ".role{font-weight:600;margin-bottom:8px;}"@
        + "pre{white-space:pre-wrap;background:#0f1115;padding:12px;border-radius:6px;overflow:auto;}"@
        + ".thinking summary{cursor:pointer;}"@
        + "img{max-width:100%;height:auto;border-radius:6px;margin-top:8px;}"@
        + ".note{color:#9aa0a6;font-size:13px;margin:6px 0;}"@ + "</style></head><body>"@
}

/// The whole exported document: the head, the session line, every entry,
/// and the closing tags.
pub open spec fn spec_session_html(s: &Session) -> Seq<char> {
    spec_html_head() + "<h1>Pi Session</h1><div class=\"meta\">Session "@ + spec_escape_html(
        s.header.id@,
    ) + " \u{2022} "@ + spec_escape_html(s.header.timestamp@) + " \u{2022} cwd: "@
        + spec_escape_html(s.header.cwd@) + "</div>"@ + spec_entries_html(s.entries@, 0)
        + "</body></html>"@
}

impl Session {
    /// Render the session as a standalone HTML document.
    pub fn to_html(&self) -> (r: String)
        ensures
            r@ == spec_session_html(self),
    {
        let mut out = String::new();
        out.append(
            "<!doctype html><html><head><meta charset=\"utf-8\"><title>Pi Session</title><style>",
        );
        out.append(
            "body{font-family:system-ui,-apple-system,Segoe UI,Roboto,Helvetica,Arial,sans-serif;margin:24px;background:#0b0c10;color:#e6e6e6;}",
        );
        out.append("h1{margin:0 0 8px 0;}");
        out.append(".meta{color:#9aa0a6;margin-bottom:24px;font-size:14px;}");
        out.append(".msg{padding:16px 18px;margin:12px 0;border-radius:8px;background:#14161b;}");
        out.append(".msg.user{border-left:4px solid #4fc3f7;}");
        out.append(".msg.assistant{border-left:4px solid #81c784;}");
        out.append(".msg.tool{border-left:4px solid #ffb74d;}");
        out.append(".msg.system{border-left:4px solid #ef9a9a;}");
        out.append(".role{font-weight:600;margin-bottom:8px;}");
        out.append(
            "pre{white-space:pre-wrap;background:#0f1115;padding:12px;border-radius:6px;overflow:auto;}",
        );
        out.append(".thinking summary{cursor:pointer;}");
        out.append("img{max-width:100%;height:auto;border-radius:6px;margin-top:8px;}");
        out.append(".note{color:#9aa0a6;font-size:13px;margin:6px 0;}");
        out.append("</style></head><body>");
        out.append("<h1>Pi Session</h1><div class=\"meta\">Session ");
        let id = escape_html(self.header.id.as_str());
        out.append(id.as_str());
        out.append(" \u{2022} ");
        let ts = escape_html(self.header.timestamp.as_str());
        out.append(ts.as_str());
        out.append(" \u{2022} cwd: ");
        let cwd = escape_html(self.header.cwd.as_str());
        out.append(cwd.as_str());
        out.append("</div>");
        let n = self.entries.len();
        let mut k: usize = 0;
        let ghost before_entries = out@;
        while k < n
            invariant
                n == self.entries@.len(),
                k <= n,
                out@ + spec_entries_html(self.entries@, k as int) == before_entries
                    + spec_entries_html(self.entries@, 0),
            decreases n - k,
        {
            let piece = entry_html(&self.entries[k]);
            out.append(piece.as_str());
            k = k + 1;
        }
        out.append("</body></html>");
        out
    }
}

/// Render one session entry as HTML.
fn entry_html(e: &SessionEntry) -> (r: String)
    ensures
        r@ == spec_entry_html(e),
{
    let mut out = String::new();
    match e {
        SessionEntry::Message(m) => {
            let piece = render_session_message(&m.message);
            out.append(piece.as_str());
        },
        SessionEntry::ModelChange(c) => {
            out.append("<div class=\"msg system\"><div class=\"role\">Model</div><div class=\"note\">");
            let p = escape_html(c.provider.as_str());
            out.append(p.as_str());
            out.append(" / ");
            let m = escape_html(c.model_id.as_str());
            out.append(m.as_str());
            out.append("</div></div>");
        },
        SessionEntry::ThinkingLevelChange(c) => {
            out.append("<div class=\"msg system\"><div class=\"role\">Thinking</div><div class=\"note\">");
            let t = escape_html(c.thinking_level.as_str());
            out.append(t.as_str());
            out.append("</div></div>");
        },
        SessionEntry::Compaction(c) => {
            out.append("<div class=\"msg system\"><div class=\"role\">Compaction</div><pre>");
            let s = escape_html(c.summary.as_str());
            out.append(s.as_str());
            out.append("</pre></div>");
        },
        SessionEntry::BranchSummary(c) => {
            out.append("<div class=\"msg system\"><div class=\"role\">Branch Summary</div><pre>");
            let s = escape_html(c.summary.as_str());
            out.append(s.as_str());
            out.append("</pre></div>");
        },
        SessionEntry::SessionInfo(info) => {
            match &info.name {
                Some(name) => {
                    out.append(
                        "<div class=\"msg system\"><div class=\"role\">Session Name</div><div class=\"note\">",
                    );
                    let nm = escape_html(name.as_str());
                    out.append(nm.as_str());
                    out.append("</div></div>");
                },
                None => {},
            }
        },
        SessionEntry::Custom(c) => {
            out.append("<div class=\"msg system\"><div class=\"role\">");
            let t = escape_html(c.custom_type.as_str());
            out.append(t.as_str());
            out.append("</div></div>");
        },
        SessionEntry::Label(_) => {},
    }
    out
}

} // verus!
