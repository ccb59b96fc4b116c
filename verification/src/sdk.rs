//! Sandboxes for embedders: sessions that are started, listed, spoken to and forgotten.

pub mod conduct;
pub mod configuration;
pub mod execution;

use vstd::prelude::*;
use vstd::string::*;

use crate::backend::Signal;
use crate::lifecycle::SessionState;
use crate::session::finish::{IoFailureView, SessionStatus, StatusView};
use crate::session::handle::{SessionError, SessionErrorView};
use crate::session::MAX_SESSION_OUTPUT_READ_BYTES;
use crate::output::OutputChunk;
use crate::table::{Table, TableKey};
use crate::text::{decimal, join, join3, not_after, same_text};
use crate::time::Duration;

verus! {

pub const DEFAULT_MAX_ACTIVE_SESSIONS: usize = 32;

/// In seconds.
pub const DEFAULT_COMPLETED_SESSION_TTL: u64 = 5 * 60;

pub const MAX_IO_OUTPUT_READ_BYTES: usize = MAX_SESSION_OUTPUT_READ_BYTES;

#[derive(Debug, Clone, Copy, PartialEq, Eq, Structural)]
pub struct SessionRegistryConfig {
    /// Never zero.
    pub max_active_sessions: usize,
    pub completed_session_ttl: Duration,
}

impl SessionRegistryConfig {
    pub fn new(max_active_sessions: usize, completed_session_ttl: Duration) -> (config:
        SessionRegistryConfig)
        requires
            max_active_sessions > 0,
        ensures
            config.max_active_sessions == max_active_sessions,
            config.completed_session_ttl == completed_session_ttl,
    {
        SessionRegistryConfig { max_active_sessions, completed_session_ttl }
    }
}

impl Default for SessionRegistryConfig {
    fn default() -> (config: SessionRegistryConfig)
        ensures
            config.max_active_sessions == 32,
            config.completed_session_ttl@ == 300 * crate::time::NANOS_PER_SEC,
    {
        SessionRegistryConfig::new(
            DEFAULT_MAX_ACTIVE_SESSIONS,
            Duration::from_secs(DEFAULT_COMPLETED_SESSION_TTL),
        )
    }
}

#[derive(Debug)]
pub struct ExecutionResult {
    pub status: SessionStatus,
    pub output: Vec<OutputChunk>,
    pub next_cursor: u64,
    pub truncated: bool,
}

#[derive(Debug)]
pub struct ExecutionPageResult {
    pub status: SessionStatus,
    pub output: Vec<OutputChunk>,
    pub next_cursor: u64,
    pub output_next_cursor: u64,
    pub truncated: bool,
}

#[derive(Debug)]
pub struct IoRequest {
    pub cursor: u64,
    pub max_bytes: usize,
    pub stdin: Option<Vec<u8>>,
    pub close_stdin: bool,
    pub resize: Option<(u16, u16)>,
    pub signal: Option<Signal>,
    pub wait_timeout: Option<Duration>,
}

impl Default for IoRequest {
    fn default() -> (request: IoRequest)
        ensures
            request == (IoRequest {
                cursor: 0,
                max_bytes: 1_048_576,
                stdin: None,
                close_stdin: false,
                resize: None,
                signal: None,
                wait_timeout: None,
            }),
    {
        IoRequest {
            cursor: 0,
            max_bytes: 1024 * 1024,
            stdin: None,
            close_stdin: false,
            resize: None,
            signal: None,
            wait_timeout: None,
        }
    }
}

#[derive(Debug)]
pub struct IoResult {
    pub status: SessionStatus,
    pub output: Vec<OutputChunk>,
    pub next_cursor: u64,
    pub truncated: bool,
    pub wait_timed_out: bool,
}

#[derive(Debug)]
pub enum SdkError {
    Session(SessionError),
    UnknownSession(String),
    SessionLimitExceeded { maximum: usize },
    OutputReadTooLarge { requested: usize, maximum: usize },
    OutputReadEmpty,
    RequestCancelled,
    SessionTask(String),
    BoxStoreNotConfigured,
    BoxTask(String),
    BoxStore(String),
}

pub enum SdkErrorView {
    Session(SessionErrorView),
    UnknownSession(Seq<char>),
    SessionLimitExceeded { maximum: usize },
    OutputReadTooLarge { requested: usize, maximum: usize },
    OutputReadEmpty,
    RequestCancelled,
    SessionTask(Seq<char>),
    BoxStoreNotConfigured,
    BoxTask(Seq<char>),
    BoxStore(Seq<char>),
}

impl View for SdkError {
    type V = SdkErrorView;

    open spec fn view(&self) -> SdkErrorView {
        match *self {
            SdkError::Session(error) => SdkErrorView::Session(error@),
            SdkError::UnknownSession(id) => SdkErrorView::UnknownSession(id@),
            SdkError::SessionLimitExceeded { maximum } => SdkErrorView::SessionLimitExceeded {
                maximum,
            },
            SdkError::OutputReadTooLarge { requested, maximum } => {
                SdkErrorView::OutputReadTooLarge { requested, maximum }
            },
            SdkError::OutputReadEmpty => SdkErrorView::OutputReadEmpty,
            SdkError::RequestCancelled => SdkErrorView::RequestCancelled,
            SdkError::SessionTask(text) => SdkErrorView::SessionTask(text@),
            SdkError::BoxStoreNotConfigured => SdkErrorView::BoxStoreNotConfigured,
            SdkError::BoxTask(text) => SdkErrorView::BoxTask(text@),
            SdkError::BoxStore(text) => SdkErrorView::BoxStore(text@),
        }
    }
}

impl SdkErrorView {
    pub open spec fn text(self) -> Seq<char> {
        match self {
            SdkErrorView::Session(error) => error.text(),
            SdkErrorView::UnknownSession(id) => "unknown sandbox session "@ + id,
            SdkErrorView::SessionLimitExceeded { maximum } => {
                "active sandbox session limit reached (maximum "@ + crate::text::decimal_text(
                    maximum as nat,
                ) + ")"@
            },
            SdkErrorView::OutputReadTooLarge { requested, maximum } => {
                "output read is "@ + crate::text::decimal_text(requested as nat) + (
                " bytes, exceeding the "@ + crate::text::decimal_text(maximum as nat)
                    + "-byte SDK limit"@)
            },
            SdkErrorView::OutputReadEmpty => "output read must request at least one byte"@,
            SdkErrorView::RequestCancelled => "sandbox request was cancelled"@,
            SdkErrorView::SessionTask(text) => "session cleanup task failed: "@ + text,
            SdkErrorView::BoxStoreNotConfigured => {
                "Box store is not configured for this SDK instance"@
            },
            SdkErrorView::BoxTask(text) => "Box background task failed: "@ + text,
            SdkErrorView::BoxStore(text) => text,
        }
    }
}

impl SdkError {
    pub fn message(&self) -> (text: String)
        ensures
            text@ == self@.text(),
    {
        match self {
            SdkError::Session(error) => error.message(),
            SdkError::UnknownSession(id) => join("unknown sandbox session ", id.as_str()),
            SdkError::SessionLimitExceeded { maximum } => join3(
                "active sandbox session limit reached (maximum ",
                decimal(*maximum as u64).as_str(),
                ")",
            ),
            SdkError::OutputReadTooLarge { requested, maximum } => join3(
                "output read is ",
                decimal(*requested as u64).as_str(),
                join3(
                    " bytes, exceeding the ",
                    decimal(*maximum as u64).as_str(),
                    "-byte SDK limit",
                ).as_str(),
            ),
            SdkError::OutputReadEmpty => "output read must request at least one byte".to_owned(),
            SdkError::RequestCancelled => "sandbox request was cancelled".to_owned(),
            SdkError::SessionTask(text) => join("session cleanup task failed: ", text.as_str()),
            SdkError::BoxStoreNotConfigured => {
                "Box store is not configured for this SDK instance".to_owned()
            },
            SdkError::BoxTask(text) => join("Box background task failed: ", text.as_str()),
            SdkError::BoxStore(text) => text.as_str().to_owned(),
        }
    }
}

/// The name of a session.
#[derive(Debug)]
pub struct SessionKey {
    pub text: String,
}

impl View for SessionKey {
    type V = Seq<char>;

    open spec fn view(&self) -> Seq<char> {
        self.text@
    }
}

impl TableKey for SessionKey {
    fn same(&self, other: &SessionKey) -> (same: bool) {
        same_text(self.text.as_str(), other.text.as_str())
    }
}

/// A session in the registry.
#[derive(Debug, Clone, Copy, PartialEq, Eq, Structural)]
pub struct SessionEntry {
    /// Tells this session from an earlier one of the same name.
    pub generation: u64,
    /// Whether it counts as active.
    pub holds_slot: bool,
}

impl View for SessionEntry {
    type V = SessionEntry;

    open spec fn view(&self) -> SessionEntry {
        *self
    }
}

/// The sessions that hold a slot.
pub open spec fn slots_of(entries: Map<Seq<char>, SessionEntry>) -> Set<Seq<char>> {
    entries.dom().filter(|id: Seq<char>| entries[id].holds_slot)
}

/// The sessions of an embedder: those that are known by name, and the slots that are taken by
/// sessions that are not, because they are being started or stopped.
#[verifier::ext_equal]
pub struct RegistryView {
    pub maximum: usize,
    /// How long a completed session is kept.
    pub completed_ttl: Duration,
    pub unlisted: nat,
    pub entries: Map<Seq<char>, SessionEntry>,
    pub next_generation: u64,
}

impl RegistryView {
    /// How many sessions are active.
    pub open spec fn active(self) -> nat {
        self.unlisted + slots_of(self.entries).len()
    }

    pub open spec fn wf(self) -> bool {
        &&& self.entries.dom().finite()
        &&& self.active() <= self.maximum
        &&& forall|id: Seq<char>| #[trigger]
            self.entries.contains_key(id) ==> self.entries[id].generation < self.next_generation
    }

    /// The registry with one more slot taken; none where all are.
    pub open spec fn acquired(self) -> Option<RegistryView> {
        if self.active() < self.maximum {
            Some(self.with_unlisted((self.unlisted + 1) as nat))
        } else {
            None
        }
    }

    pub open spec fn with_unlisted(self, unlisted: nat) -> RegistryView {
        RegistryView { unlisted, ..self }
    }

    /// A session is listed; it brings its slot along.
    pub open spec fn registered(self, id: Seq<char>) -> RegistryView {
        RegistryView {
            unlisted: (self.unlisted - 1) as nat,
            entries: self.entries.insert(
                id,
                SessionEntry { generation: self.next_generation, holds_slot: true },
            ),
            next_generation: (self.next_generation + 1) as u64,
            ..self
        }
    }

    pub open spec fn is_current(self, id: Seq<char>, generation: u64) -> bool {
        self.entries.contains_key(id) && self.entries[id].generation == generation
    }

    /// A listed session gives up its slot.
    pub open spec fn released(self, id: Seq<char>) -> RegistryView {
        RegistryView {
            entries: self.entries.insert(
                id,
                SessionEntry { holds_slot: false, ..self.entries[id] },
            ),
            ..self
        }
    }

    /// A session is no longer listed; its slot, if it has one, stays taken.
    pub open spec fn delisted(self, id: Seq<char>) -> RegistryView {
        RegistryView {
            unlisted: if self.entries[id].holds_slot {
                self.unlisted + 1
            } else {
                self.unlisted
            },
            entries: self.entries.remove(id),
            ..self
        }
    }

    /// A session that was taken off the list is over: it gives up the slot that it had.
    pub open spec fn given_up(self, entry: SessionEntry) -> RegistryView {
        if entry.holds_slot {
            self.with_unlisted((self.unlisted - 1) as nat)
        } else {
            self
        }
    }

    /// What someone who names a session is told.
    pub open spec fn found(self, id: Seq<char>) -> Result<(), SdkErrorView> {
        if self.entries.contains_key(id) {
            Ok(())
        } else {
            Err(SdkErrorView::UnknownSession(id))
        }
    }

    /// A session is forgotten together with its slot.
    pub open spec fn forgotten(self, id: Seq<char>) -> RegistryView {
        RegistryView { entries: self.entries.remove(id), ..self }
    }
}

pub struct SessionRegistry {
    config: SessionRegistryConfig,
    unlisted: usize,
    held: usize,
    entries: Table<SessionKey, SessionEntry>,
    next_generation: u64,
}

impl View for SessionRegistry {
    type V = RegistryView;

    closed spec fn view(&self) -> RegistryView {
        RegistryView {
            maximum: self.config.max_active_sessions,
            completed_ttl: self.config.completed_session_ttl,
            unlisted: self.unlisted as nat,
            entries: self.entries@,
            next_generation: self.next_generation,
        }
    }
}

proof fn lemma_slots_insert(entries: Map<Seq<char>, SessionEntry>, id: Seq<char>, entry: SessionEntry)
    requires
        entries.dom().finite(),
    ensures
        slots_of(entries.insert(id, entry)) == (if entry.holds_slot {
            slots_of(entries).insert(id)
        } else {
            slots_of(entries).remove(id)
        }),
        slots_of(entries).finite(),
        slots_of(entries).contains(id) == (entries.contains_key(id) && entries[id].holds_slot),
{
    let after = entries.insert(id, entry);
    if entry.holds_slot {
        assert(slots_of(after) =~= slots_of(entries).insert(id));
    } else {
        assert(slots_of(after) =~= slots_of(entries).remove(id));
    }
}

proof fn lemma_slots_remove(entries: Map<Seq<char>, SessionEntry>, id: Seq<char>)
    requires
        entries.dom().finite(),
    ensures
        slots_of(entries.remove(id)) == slots_of(entries).remove(id),
        slots_of(entries).finite(),
        slots_of(entries).contains(id) == (entries.contains_key(id) && entries[id].holds_slot),
{
    assert(slots_of(entries.remove(id)) =~= slots_of(entries).remove(id));
}

impl SessionRegistry {
    pub closed spec fn wf(&self) -> bool {
        &&& self.entries.wf()
        &&& self@.wf()
        &&& self.held == slots_of(self.entries@).len()
    }

    pub fn new(config: SessionRegistryConfig) -> (registry: SessionRegistry)
        ensures
            registry.wf(),
            registry@ == (RegistryView {
                maximum: config.max_active_sessions,
                completed_ttl: config.completed_session_ttl,
                unlisted: 0,
                entries: Map::empty(),
                next_generation: 0,
            }),
    {
        let entries: Table<SessionKey, SessionEntry> = Table::new();
        assert(slots_of(Map::<Seq<char>, SessionEntry>::empty()) =~= Set::empty());
        SessionRegistry { config, unlisted: 0, held: 0, entries, next_generation: 0 }
    }

    /// How long a completed session is kept.
    pub fn completed_session_ttl(&self) -> (ttl: Duration)
        ensures
            ttl == self@.completed_ttl,
    {
        self.config.completed_session_ttl
    }

    /// Takes a slot for a session that is about to be started.
    pub fn acquire_active_slot(&mut self) -> (acquired: Result<(), SdkError>)
        requires
            old(self).wf(),
        ensures
            final(self).wf(),
            match old(self)@.acquired() {
                Some(after) => acquired is Ok && final(self)@ == after,
                None => acquired is Err && final(self)@ == old(self)@,
            },
            match acquired {
                Ok(()) => old(self)@.active() < old(self)@.maximum && final(self)@ == old(
                    self,
                )@.with_unlisted((old(self)@.unlisted + 1) as nat),
                Err(error) => old(self)@.active() == old(self)@.maximum && final(self)@ == old(
                    self,
                )@ && error@ == (SdkErrorView::SessionLimitExceeded {
                    maximum: old(self)@.maximum,
                }),
            },
    {
        if self.held + self.unlisted >= self.config.max_active_sessions {
            return Err(
                SdkError::SessionLimitExceeded { maximum: self.config.max_active_sessions },
            );
        }
        self.unlisted = self.unlisted + 1;
        Ok(())
    }

    /// Gives up the slot of a session that is not listed: it could not be started, or it is over.
    pub fn release_unlisted_slot(&mut self)
        requires
            old(self).wf(),
            old(self)@.unlisted > 0,
        ensures
            final(self).wf(),
            final(self)@ == old(self)@.with_unlisted((old(self)@.unlisted - 1) as nat),
    {
        self.unlisted = self.unlisted - 1;
    }

    /// Lists a session that was started with a slot; an earlier one of the same name is forgotten.
    pub fn register_session(&mut self, session_id: String) -> (generation: u64)
        requires
            old(self).wf(),
            old(self)@.unlisted > 0,
            old(self)@.next_generation < u64::MAX,
        ensures
            final(self).wf(),
            generation == old(self)@.next_generation,
            final(self)@ == old(self)@.registered(session_id@),
    {
        let generation: u64 = self.next_generation;
        let ghost before = self.entries@;
        let ghost id = session_id@;
        let key = SessionKey { text: session_id };
        let held_before: bool = match self.entries.get(&key) {
            Some(entry) => entry.holds_slot,
            None => false,
        };
        proof {
            lemma_slots_insert(before, id, SessionEntry { generation, holds_slot: true });
        }
        self.entries.insert(key, SessionEntry { generation, holds_slot: true });
        self.unlisted = self.unlisted - 1;
        if !held_before {
            self.held = self.held + 1;
        }
        self.next_generation = generation + 1;
        assert(self@ =~= old(self)@.registered(id));
        generation
    }

    /// A session has completed: it gives up its slot.  Whether it is still the session of that
    /// name is told, for only then it is to be forgotten later.
    pub fn complete(&mut self, session_id: &str, generation: u64) -> (current: bool)
        requires
            old(self).wf(),
        ensures
            final(self).wf(),
            current == old(self)@.is_current(session_id@, generation),
            final(self)@ == (if current {
                old(self)@.released(session_id@)
            } else {
                old(self)@
            }),
    {
        let key = SessionKey { text: session_id.to_owned() };
        let found: Option<SessionEntry> = match self.entries.get(&key) {
            Some(entry) => Some(*entry),
            None => None,
        };
        match found {
            Some(entry) => {
                if entry.generation != generation {
                    return false;
                }
                self.drop_slot(key, entry);
                true
            },
            None => false,
        }
    }

    fn drop_slot(&mut self, key: SessionKey, entry: SessionEntry)
        requires
            old(self).wf(),
            old(self)@.entries.contains_key(key@),
            old(self)@.entries[key@] == entry,
        ensures
            final(self).wf(),
            final(self)@ == old(self)@.released(key@),
    {
        let ghost id = key@;
        let quiet = SessionEntry { generation: entry.generation, holds_slot: false };
        proof {
            lemma_slots_insert(self.entries@, id, quiet);
        }
        self.entries.insert(key, quiet);
        if entry.holds_slot {
            self.held = self.held - 1;
        }
        assert(self@ =~= old(self)@.released(id));
    }

    /// The time of a completed session has run out: it is forgotten, if it is still the session of
    /// that name and dead.
    pub fn expire(&mut self, session_id: &str, generation: u64, dead: bool) -> (forgotten: bool)
        requires
            old(self).wf(),
        ensures
            final(self).wf(),
            forgotten == (dead && old(self)@.is_current(session_id@, generation)),
            final(self)@ == (if forgotten {
                old(self)@.forgotten(session_id@)
            } else {
                old(self)@
            }),
    {
        let key = SessionKey { text: session_id.to_owned() };
        let found: Option<SessionEntry> = match self.entries.get(&key) {
            Some(entry) => Some(*entry),
            None => None,
        };
        match found {
            Some(entry) => {
                if !dead || entry.generation != generation {
                    return false;
                }
                self.forget(&key);
                true
            },
            None => false,
        }
    }

    /// Forgets a session together with its slot.
    fn forget(&mut self, key: &SessionKey) -> (found: bool)
        requires
            old(self).wf(),
        ensures
            final(self).wf(),
            found == old(self)@.entries.contains_key(key@),
            final(self)@ == old(self)@.forgotten(key@),
    {
        proof {
            lemma_slots_remove(self.entries@, key@);
        }
        match self.entries.remove(key) {
            Some(entry) => {
                if entry.holds_slot {
                    self.held = self.held - 1;
                }
                assert(self@ =~= old(self)@.forgotten(key@));
                true
            },
            None => {
                assert(slots_of(old(self)@.entries).remove(key@) =~= slots_of(old(self)@.entries));
                assert(self@ =~= old(self)@.forgotten(key@));
                false
            },
        }
    }

    /// Forgets a session whose wait failed, together with its slot.
    pub fn forget_session(&mut self, session_id: &str) -> (found: bool)
        requires
            old(self).wf(),
        ensures
            final(self).wf(),
            found == old(self)@.entries.contains_key(session_id@),
            final(self)@ == old(self)@.forgotten(session_id@),
    {
        let key = SessionKey { text: session_id.to_owned() };
        self.forget(&key)
    }

    /// Gives up the slot of a session that is dead.
    pub fn release_active_slot(&mut self, session_id: &str, dead: bool)
        requires
            old(self).wf(),
        ensures
            final(self).wf(),
            final(self)@ == (if dead && old(self)@.entries.contains_key(session_id@) {
                old(self)@.released(session_id@)
            } else {
                old(self)@
            }),
    {
        if !dead {
            return ;
        }
        let key = SessionKey { text: session_id.to_owned() };
        let found: Option<SessionEntry> = match self.entries.get(&key) {
            Some(entry) => Some(*entry),
            None => None,
        };
        match found {
            Some(entry) => {
                self.drop_slot(key, entry);
            },
            None => {},
        }
    }

    /// Takes a session off the list, so that it can be stopped.  Its slot, if it has one, is to be
    /// given up when it is.
    pub fn remove(&mut self, session_id: &str) -> (removed: Option<SessionEntry>)
        requires
            old(self).wf(),
        ensures
            final(self).wf(),
            match removed {
                Some(entry) => old(self)@.entries.contains_key(session_id@) && entry == old(
                    self,
                )@.entries[session_id@] && final(self)@ == old(self)@.delisted(session_id@),
                None => !old(self)@.entries.contains_key(session_id@) && final(self)@ == old(
                    self,
                )@,
            },
    {
        let key = SessionKey { text: session_id.to_owned() };
        proof {
            lemma_slots_remove(self.entries@, session_id@);
        }
        match self.entries.remove(&key) {
            Some(entry) => {
                if entry.holds_slot {
                    self.held = self.held - 1;
                    self.unlisted = self.unlisted + 1;
                }
                assert(self@ =~= old(self)@.delisted(session_id@));
                Some(entry)
            },
            None => {
                assert(self.entries@ =~= old(self)@.entries);
                assert(self@ =~= old(self)@);
                None
            },
        }
    }

    /// Gives up the slot of a session that was taken off the list and is over, if it had one.
    pub fn finish_removal(&mut self, entry: SessionEntry)
        requires
            old(self).wf(),
            entry.holds_slot ==> old(self)@.unlisted > 0,
        ensures
            final(self).wf(),
            final(self)@ == old(self)@.given_up(entry),
    {
        if entry.holds_slot {
            self.release_unlisted_slot();
        }
    }

    /// Whether a session is listed.
    pub fn session(&self, session_id: &str) -> (found: Result<(), SdkError>)
        requires
            self.wf(),
        ensures
            match (found, self@.found(session_id@)) {
                (Ok(()), Ok(())) => true,
                (Err(error), Err(expected)) => error@ == expected,
                _ => false,
            },
            match found {
                Ok(()) => self@.entries.contains_key(session_id@),
                Err(error) => !self@.entries.contains_key(session_id@) && error@
                    == SdkErrorView::UnknownSession(session_id@),
            },
    {
        let key = SessionKey { text: session_id.to_owned() };
        if self.entries.contains(&key) {
            Ok(())
        } else {
            Err(SdkError::UnknownSession(session_id.to_owned()))
        }
    }
}

/// A registry that is well formed is so in what callers see of it: its sessions are finite in
/// number, and no more of them are active than may be.
pub proof fn law_registry_is_sound(registry: SessionRegistry)
    requires
        registry.wf(),
    ensures
        registry@.wf(),
        registry@.active() <= registry@.maximum,
{
}

/// A registry never has more active sessions than it may: neither the events of its sessions nor
/// the requests of its callers raise them above the limit.
pub proof fn law_limit_is_kept(registry: RegistryView, id: Seq<char>)
    requires
        registry.wf(),
    ensures
        registry.active() < registry.maximum ==> registry.with_unlisted(
            (registry.unlisted + 1) as nat,
        ).active() <= registry.maximum,
        registry.unlisted > 0 ==> registry.registered(id).active() <= registry.maximum,
        registry.released(id).active() <= registry.active(),
        registry.forgotten(id).active() <= registry.active(),
        registry.entries.contains_key(id) ==> registry.delisted(id).active() == registry.active(),
{
    lemma_slots_insert(
        registry.entries,
        id,
        SessionEntry { generation: registry.next_generation, holds_slot: true },
    );
    lemma_slots_insert(
        registry.entries,
        id,
        SessionEntry { holds_slot: false, ..registry.entries[id] },
    );
    lemma_slots_remove(registry.entries, id);
}

/// Once a session that holds a slot has given it up, another can be started.
pub proof fn law_released_slot_can_be_taken(registry: RegistryView, id: Seq<char>)
    requires
        registry.wf(),
        registry.entries.contains_key(id),
        registry.entries[id].holds_slot,
    ensures
        registry.released(id).active() < registry.maximum,
        registry.forgotten(id).active() < registry.maximum,
{
    lemma_slots_insert(
        registry.entries,
        id,
        SessionEntry { holds_slot: false, ..registry.entries[id] },
    );
    lemma_slots_remove(registry.entries, id);
}

/// A session that takes the name of an earlier one is not touched by what was to happen to the
/// earlier one.
pub proof fn law_stale_generation_is_not_current(
    registry: RegistryView,
    id: Seq<char>,
    generation: u64,
)
    requires
        registry.wf(),
        registry.is_current(id, generation),
        registry.next_generation < u64::MAX,
    ensures
        !registry.registered(id).is_current(id, generation),
{
}

/// A session is removed once: where its removal succeeds it is dead, whoever names it from then on
/// is told that it is unknown, and its slot, if it had one, can be taken again.  `status`,
/// `first_failure` and `closed` are what the wait for its end ended with, and `stop_error` is what
/// was wrong with stopping it.
pub proof fn law_removed_session_is_dead_and_gives_up_its_slot(
    registry: RegistryView,
    id: Seq<char>,
    status: StatusView,
    first_failure: Option<IoFailureView>,
    closed: bool,
    stop_error: Option<SessionErrorView>,
)
    requires
        registry.wf(),
        registry.entries.contains_key(id),
        crate::session::handle::waited_of(status, first_failure, closed) is Some,
    ensures
        ({
            let waited = crate::session::handle::waited_of(status, first_failure, closed)->0;
            let settled = crate::sdk::execution::settled_of(stop_error, waited);
            let entry = registry.entries[id];
            let removed = registry.delisted(id);
            let after = removed.given_up(entry);
            &&& settled matches Ok(last) ==> last.state == SessionState::Dead && last == status
            &&& removed.found(id) == Err::<(), SdkErrorView>(SdkErrorView::UnknownSession(id))
            &&& after.found(id) == Err::<(), SdkErrorView>(SdkErrorView::UnknownSession(id))
            &&& entry.holds_slot ==> removed.unlisted > 0
            &&& removed.active() == registry.active()
            &&& after == registry.forgotten(id)
            &&& after.wf()
            &&& after.active() == registry.active() - (if entry.holds_slot {
                1int
            } else {
                0
            })
            &&& entry.holds_slot ==> after.active() < after.maximum
        }),
{
    lemma_slots_remove(registry.entries, id);
    let entry = registry.entries[id];
    assert(registry.delisted(id).given_up(entry) =~= registry.forgotten(id));
    assert(registry.entries.remove(id).dom() =~= registry.entries.dom().remove(id));
}

/// A session that was removed is unknown, and removing it again changes nothing.
pub proof fn law_removed_session_is_unknown(registry: RegistryView, id: Seq<char>)
    ensures
        !registry.delisted(id).entries.contains_key(id),
        !registry.forgotten(id).entries.contains_key(id),
        registry.forgotten(id).forgotten(id) == registry.forgotten(id),
{
    assert(registry.forgotten(id).forgotten(id) =~= registry.forgotten(id));
}

/// Whether sessions are in the order of their names.
pub open spec fn in_name_order(statuses: Seq<SessionStatus>) -> bool {
    forall|i: int, j: int|
        0 <= i < j < statuses.len() ==> crate::text::text_le(
            (#[trigger] statuses[i]).session_id@,
            (#[trigger] statuses[j]).session_id@,
        )
}

fn insert_by_name(statuses: &mut Vec<SessionStatus>, status: SessionStatus)
    requires
        in_name_order(old(statuses)@),
    ensures
        in_name_order(final(statuses)@),
        final(statuses)@.to_multiset() == old(statuses)@.to_multiset().insert(status),
        final(statuses)@.len() == old(statuses)@.len() + 1,
{
    let ghost before = statuses@;
    let mut place: usize = statuses.len();
    while place > 0 && !not_after(
        statuses[place - 1].session_id.as_str(),
        status.session_id.as_str(),
    )
        invariant
            place <= statuses@.len(),
            statuses@ == before,
            in_name_order(before),
            forall|i: int|
                place <= i < before.len() ==> crate::text::text_le(
                    status.session_id@,
                    (#[trigger] before[i]).session_id@,
                ),
        decreases place,
    {
        proof {
            crate::text::lemma_text_le_total(before[place - 1].session_id@, status.session_id@);
        }
        place -= 1;
    }
    let ghost given = status;
    statuses.insert(place, status);
    proof {
        before.to_multiset_ensures();
        let after = before.insert(place as int, given);
        assert(statuses@ == after);
        crate::text::lemma_insert_multiset(before, place as int, given);
        assert forall|i: int, j: int| 0 <= i < j < after.len() implies crate::text::text_le(
            (#[trigger] after[i]).session_id@,
            (#[trigger] after[j]).session_id@,
        ) by {
            if i < place && j == place {
                if i < place - 1 {
                    assert(crate::text::text_le(before[i].session_id@, before[place - 1].session_id@));
                    crate::text::lemma_text_le_transitive(
                        before[i].session_id@,
                        before[place - 1].session_id@,
                        given.session_id@,
                    );
                }
            } else if i < place && j > place {
                assert(after[i] == before[i] && after[j] == before[j - 1]);
                assert(crate::text::text_le(before[i].session_id@, before[j - 1].session_id@));
            } else if i == place {
                assert(after[j] == before[j - 1]);
            } else if i > place {
                assert(after[i] == before[i - 1] && after[j] == before[j - 1]);
            } else {
                assert(after[i] == before[i] && after[j] == before[j]);
            }
        }
    }
}

/// Lists sessions in the order of their names.
pub fn list_sessions(statuses: Vec<SessionStatus>) -> (listed: Vec<SessionStatus>)
    ensures
        in_name_order(listed@),
        listed@.to_multiset() == statuses@.to_multiset(),
        listed@.len() == statuses@.len(),
{
    let ghost given = statuses@;
    let mut rest = statuses;
    let mut listed: Vec<SessionStatus> = Vec::new();
    proof {
        listed@.to_multiset_ensures();
        given.to_multiset_ensures();
        assert(listed@.to_multiset().add(rest@.to_multiset()) =~= given.to_multiset());
    }
    while rest.len() > 0
        invariant
            in_name_order(listed@),
            listed@.len() + rest@.len() == given.len(),
            listed@.to_multiset().add(rest@.to_multiset()) == given.to_multiset(),
        decreases rest@.len(),
    {
        let ghost before = rest@;
        let ghost listed_before = listed@;
        match rest.pop() {
            Some(status) => {
                let ghost popped = status;
                proof {
                    assert(before =~= before.drop_last().push(popped));
                    before.drop_last().to_multiset_ensures();
                }
                insert_by_name(&mut listed, status);
                assert(listed_before.to_multiset().insert(popped).add(rest@.to_multiset())
                    =~= listed_before.to_multiset().add(rest@.to_multiset().insert(popped)));
            },
            None => {},
        }
    }
    proof {
        rest@.to_multiset_ensures();
        assert(rest@ =~= Seq::empty());
        assert(rest@.to_multiset() =~= vstd::multiset::Multiset::empty());
        assert(listed@.to_multiset().add(rest@.to_multiset()) =~= listed@.to_multiset());
    }
    listed
}

/// Whether an output page may be asked for.
pub open spec fn page_complaint(max_bytes: usize) -> Option<SdkErrorView> {
    if max_bytes == 0 {
        Some(SdkErrorView::OutputReadEmpty)
    } else if max_bytes > MAX_IO_OUTPUT_READ_BYTES {
        Some(
            SdkErrorView::OutputReadTooLarge {
                requested: max_bytes,
                maximum: MAX_IO_OUTPUT_READ_BYTES,
            },
        )
    } else {
        None
    }
}

/// Checks the size of an output page.
pub fn validate_output_page_size(max_bytes: usize) -> (checked: Result<(), SdkError>)
    ensures
        match checked {
            Ok(()) => page_complaint(max_bytes) is None,
            Err(error) => page_complaint(max_bytes) == Some(error@),
        },
{
    if max_bytes == 0 {
        return Err(SdkError::OutputReadEmpty);
    }
    if max_bytes > MAX_IO_OUTPUT_READ_BYTES {
        return Err(
            SdkError::OutputReadTooLarge {
                requested: max_bytes,
                maximum: MAX_IO_OUTPUT_READ_BYTES,
            },
        );
    }
    Ok(())
}

/// Whether there is a store for boxes.
pub fn require_box_store(configured: bool) -> (checked: Result<(), SdkError>)
    ensures
        match checked {
            Ok(()) => configured,
            Err(error) => !configured && error@ == SdkErrorView::BoxStoreNotConfigured,
        },
{
    if configured {
        Ok(())
    } else {
        Err(SdkError::BoxStoreNotConfigured)
    }
}

/// What a removed session is waited for with: one that is not dead is stopped first.
pub fn removal_needs_stop(state: SessionState) -> (stop: bool)
    ensures
        stop == (state != SessionState::Dead),
{
    state != SessionState::Dead
}

} // verus!
