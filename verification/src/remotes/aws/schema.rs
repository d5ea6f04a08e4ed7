//! The state database: its tables, and the statement behind each action.

use super::protocol::ActionView;
use super::session::Action;
use vstd::prelude::*;

verus! {

/// The table that remembers the objects.
pub const CREATE_OBJECT_STATE: &'static str = "CREATE TABLE IF NOT EXISTS object_state (key TEXT PRIMARY KEY, etag TEXT NOT NULL, size INTEGER NOT NULL, last_modified INTEGER NOT NULL)";

/// The table that remembers when the objects were last compared.
pub const CREATE_METADATA: &'static str = "CREATE TABLE IF NOT EXISTS metadata (key TEXT PRIMARY KEY, value TEXT NOT NULL)";

/// The index of the objects by entity tag.
pub const CREATE_ETAG_INDEX: &'static str = "CREATE INDEX IF NOT EXISTS idx_etag ON object_state(etag)";

pub const ADD_SEEN_COLUMN: &'static str = "ALTER TABLE object_state ADD COLUMN temp_seen INTEGER DEFAULT 0";

pub const RESET_SEEN: &'static str = "UPDATE object_state SET temp_seen = 0";

/// Takes a key; yields the entity tag, the size and the time of the last change.
pub const LOOKUP: &'static str = "SELECT etag, size, last_modified FROM object_state WHERE key = ?1";

/// Takes a key, an entity tag, a size and the time of the last change.
pub const UPSERT: &'static str = "INSERT OR REPLACE INTO object_state (key, etag, size, last_modified, temp_seen) VALUES (?1, ?2, ?3, ?4, 1)";

/// Takes a key.
pub const MARK_SEEN: &'static str = "UPDATE object_state SET temp_seen = 1 WHERE key = ?1";

/// Yields the key, the entity tag, the size and the time of the last change.
pub const SELECT_UNSEEN: &'static str = "SELECT key, etag, size, last_modified FROM object_state WHERE temp_seen = 0";

/// Takes a key.
pub const DELETE: &'static str = "DELETE FROM object_state WHERE key = ?1";

/// Needs SQLite 3.35.0 or later.
pub const DROP_SEEN_COLUMN: &'static str = "ALTER TABLE object_state DROP COLUMN temp_seen";

/// The key of the metadata row that holds the time of the last update.
pub const LAST_UPDATED: &'static str = "last_updated";

/// Takes a Unix time in seconds, and writes it to the row that has [`LAST_UPDATED`] for its key.
pub const RECORD_UPDATE: &'static str = "INSERT OR REPLACE INTO metadata (key, value) VALUES ('last_updated', ?1)";

/// The statement that an action prepares or runs, if it is one on the state database.
pub open spec fn statement_of(action: ActionView) -> Option<Seq<char>> {
    match action {
        ActionView::AddSeenColumn => Some(ADD_SEEN_COLUMN@),
        ActionView::ResetSeen => Some(RESET_SEEN@),
        ActionView::PrepareLookup | ActionView::Lookup(_) => Some(LOOKUP@),
        ActionView::PrepareUpsert | ActionView::Upsert(_) => Some(UPSERT@),
        ActionView::PrepareMarkSeen | ActionView::MarkSeen(_) => Some(MARK_SEEN@),
        ActionView::PrepareUnseen | ActionView::SelectUnseen => Some(SELECT_UNSEEN@),
        ActionView::PrepareDelete | ActionView::Delete(_) => Some(DELETE@),
        ActionView::DropSeenColumn => Some(DROP_SEEN_COLUMN@),
        ActionView::RecordUpdate(_) => Some(RECORD_UPDATE@),
        ActionView::Connect
        | ActionView::ListObjects(_)
        | ActionView::Notify(_)
        | ActionView::ReadClock
        | ActionView::Commit
        | ActionView::Finish(_)
        | ActionView::Abort => None,
    }
}

/// The statements that set the state database up, in the order in which they are to be run. Each
/// leaves what is there already as it is.
pub fn setup_statements() -> (statements: Vec<&'static str>)
    ensures
        statements@ == seq![CREATE_OBJECT_STATE, CREATE_METADATA, CREATE_ETAG_INDEX],
{
    vec![CREATE_OBJECT_STATE, CREATE_METADATA, CREATE_ETAG_INDEX]
}

impl Action {
    /// The statement that the action prepares or runs, if it is one on the state database.
    pub fn statement(&self) -> (statement: Option<&'static str>)
        ensures
            statement is Some <==> statement_of(self@) is Some,
            statement matches Some(sql) ==> Some(sql@) == statement_of(self@),
    {
        match self {
            Action::AddSeenColumn => Some(ADD_SEEN_COLUMN),
            Action::ResetSeen => Some(RESET_SEEN),
            Action::PrepareLookup | Action::Lookup { .. } => Some(LOOKUP),
            Action::PrepareUpsert | Action::Upsert(_) => Some(UPSERT),
            Action::PrepareMarkSeen | Action::MarkSeen { .. } => Some(MARK_SEEN),
            Action::PrepareUnseen | Action::SelectUnseen => Some(SELECT_UNSEEN),
            Action::PrepareDelete | Action::Delete { .. } => Some(DELETE),
            Action::DropSeenColumn => Some(DROP_SEEN_COLUMN),
            Action::RecordUpdate { .. } => Some(RECORD_UPDATE),
            Action::Connect
            | Action::ListObjects(_)
            | Action::Notify(_)
            | Action::ReadClock
            | Action::Commit
            | Action::Finish(_)
            | Action::Abort => None,
        }
    }
}

/// The statements behind the actions, word by word. Rows are looked up, marked and removed under the key
/// that is bound, and written under the key, the entity tag, the size and the time that are bound and
/// marked as seen. The rows that are read as not seen are all of those that are not marked. A statement
/// is run as it was prepared, whatever is bound to it.
pub proof fn law_statements(action: ActionView)
    ensures
        action is AddSeenColumn ==> statement_of(action) == Some(
            "ALTER TABLE object_state ADD COLUMN temp_seen INTEGER DEFAULT 0"@,
        ),
        action is ResetSeen ==> statement_of(action) == Some(
            "UPDATE object_state SET temp_seen = 0"@,
        ),
        action is PrepareLookup || action is Lookup ==> statement_of(action) == Some(
            "SELECT etag, size, last_modified FROM object_state WHERE key = ?1"@,
        ),
        action is PrepareUpsert || action is Upsert ==> statement_of(action) == Some(
            "INSERT OR REPLACE INTO object_state (key, etag, size, last_modified, temp_seen) VALUES (?1, ?2, ?3, ?4, 1)"@,
        ),
        action is PrepareMarkSeen || action is MarkSeen ==> statement_of(action) == Some(
            "UPDATE object_state SET temp_seen = 1 WHERE key = ?1"@,
        ),
        action is PrepareUnseen || action is SelectUnseen ==> statement_of(action) == Some(
            "SELECT key, etag, size, last_modified FROM object_state WHERE temp_seen = 0"@,
        ),
        action is PrepareDelete || action is Delete ==> statement_of(action) == Some(
            "DELETE FROM object_state WHERE key = ?1"@,
        ),
        action is DropSeenColumn ==> statement_of(action) == Some(
            "ALTER TABLE object_state DROP COLUMN temp_seen"@,
        ),
        action is RecordUpdate ==> statement_of(action) == Some(
            "INSERT OR REPLACE INTO metadata (key, value) VALUES ('last_updated', ?1)"@,
        ),
        action is Connect || action is ListObjects || action is Notify || action is ReadClock
            || action is Commit || action is Finish || action is Abort <==> statement_of(action)
            is None,
        LAST_UPDATED@ == "last_updated"@,
{
}

/// The statements that set the state database up, word by word.
pub proof fn law_setup_statements()
    ensures
        CREATE_OBJECT_STATE@
            == "CREATE TABLE IF NOT EXISTS object_state (key TEXT PRIMARY KEY, etag TEXT NOT NULL, size INTEGER NOT NULL, last_modified INTEGER NOT NULL)"@,
        CREATE_METADATA@
            == "CREATE TABLE IF NOT EXISTS metadata (key TEXT PRIMARY KEY, value TEXT NOT NULL)"@,
        CREATE_ETAG_INDEX@ == "CREATE INDEX IF NOT EXISTS idx_etag ON object_state(etag)"@,
{
}

} // verus!
