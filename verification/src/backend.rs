//! The backend: what each request asks for and is answered, and what the
//! backend keeps between requests.
use vstd::prelude::*;

use crate::context::order;
use crate::fault::Fault;
use crate::index::{
    items_json, list_statement, listed, outcome_view, script1, script2, Index, IndexV, Next, NextV,
    OpenNext, OpenNextV, OpenStep, OpenStepV, Outcome, Step, StepV,
};
use crate::json::{
    list_of, object_of, parse, put, str_json, text, texts_json, Field, Json, JsonV,
};
use crate::media::{
    MediaAsk, MediaAskV, MediaEvent, MediaEventV, MediaNext, MediaNextV, MediaStep, MediaStepV,
};
use crate::primitives::hex_decode;
use crate::query::{parse_items, text_or_null_json};
use crate::source::{
    Approved, IndexColumns, Search, SearchV, SourceMessageV, WechatDb, WechatDbV,
};
use crate::sql::{
    bind, copy_values, Answer, AnswerV, ConversationRow, ConversationRowV, Form, SqlV, SqlValue,
    Statement, StatementV,
};
use crate::sync::{
    sync, syncing, SyncAsk, SyncAskV, SyncEvent, SyncEventV, SyncNext, SyncNextV, SyncStep,
    SyncStepV,
};
use crate::text::{decimal_text, only_digits, same, starts_with};

verus! {

/// What was asked for when the archive was set up.
pub struct Setup {
    pub data_root: String,
    pub key: Vec<u8>,
    pub account: String,
}

/// The mathematical view of that.
pub struct SetupV {
    pub data_root: Seq<char>,
    pub key: Seq<u8>,
    pub account: Seq<char>,
}

impl View for Setup {
    type V = SetupV;

    open spec fn view(&self) -> SetupV {
        SetupV { data_root: self.data_root@, key: self.key@, account: self.account@ }
    }
}

/// An entry of a directory.
pub struct Entry {
    pub name: String,
    /// Whether it is an ordinary file.
    pub file: bool,
}

/// The mathematical view of an entry.
pub struct EntryV {
    pub name: Seq<char>,
    pub file: bool,
}

impl View for Entry {
    type V = EntryV;

    open spec fn view(&self) -> EntryV {
        EntryV { name: self.name@, file: self.file }
    }
}

/// The views of entries.
pub open spec fn entries_view(v: Seq<Entry>) -> Seq<EntryV> {
    Seq::new(v.len(), |i: int| v[i]@)
}

/// A contact of the account.
pub struct Contact {
    pub user_name: String,
    pub remark: String,
    pub nick_name: String,
}

/// The mathematical view of a contact.
pub struct ContactV {
    pub user_name: Seq<char>,
    pub remark: Seq<char>,
    pub nick_name: Seq<char>,
}

impl View for Contact {
    type V = ContactV;

    open spec fn view(&self) -> ContactV {
        ContactV {
            user_name: self.user_name@,
            remark: self.remark@,
            nick_name: self.nick_name@,
        }
    }
}

/// The views of contacts.
pub open spec fn contacts_view(v: Seq<Contact>) -> Seq<ContactV> {
    Seq::new(v.len(), |i: int| v[i]@)
}

/// A member of a group.
pub struct RoomMember {
    pub user_name: String,
    pub display_name: Option<String>,
}

/// The mathematical view of a member of a group.
pub struct RoomMemberV {
    pub user_name: Seq<char>,
    pub display_name: Option<Seq<char>>,
}

impl View for RoomMember {
    type V = RoomMemberV;

    open spec fn view(&self) -> RoomMemberV {
        RoomMemberV {
            user_name: self.user_name@,
            display_name: match self.display_name {
                Some(s) => Some(s@),
                None => None,
            },
        }
    }
}

/// The views of the members of a group.
pub open spec fn room_view(v: Seq<RoomMember>) -> Seq<RoomMemberV> {
    Seq::new(v.len(), |i: int| v[i]@)
}

/// The views of the members of groups.
pub open spec fn rooms_view(v: Seq<Vec<RoomMember>>) -> Seq<Seq<RoomMemberV>> {
    Seq::new(v.len(), |i: int| room_view(v[i]@))
}

/// What is known of the session table.
pub struct SessionTable {
    pub indexes: Vec<IndexColumns>,
    pub plan: Vec<String>,
}

/// The mathematical view of that: one line for each index, and the plan.
pub struct SessionTableV {
    pub lines: Seq<Seq<char>>,
    pub plan: Seq<Seq<char>>,
}

impl View for SessionTable {
    type V = SessionTableV;

    open spec fn view(&self) -> SessionTableV {
        SessionTableV {
            lines: crate::source::index_lines(self.indexes@),
            plan: crate::text::texts_view(self.plan@),
        }
    }
}

/// What to do outside.
pub enum Ask {
    /// Run statements on the archive, all of them or none where that is asked.
    Statements { script: Vec<Statement>, atomic: bool },
    /// Derive the key of images.
    DeriveImageKey { uin: String, account: String },
    /// List the directory of kept media beside the archive.
    ListAssets { archive: String },
    /// Remove those entries of the list.
    RemoveAssets { which: Vec<usize> },
    /// Open the archive, with the directories that lead to it.
    OpenArchive { archive: String },
    /// Let nobody but the owner read the archive.
    ProtectArchive,
    /// See whether the data directory holds the databases in a directory of their own.
    FindStorage { data_root: String },
    /// Open the source databases.
    OpenSource { data_root: String, nested: bool, key: Vec<u8> },
    /// Describe the indexes of the session table.
    DescribeSessions,
    /// Explain a read of the session table.
    ExplainSessions { sql: String, values: Vec<SqlValue> },
    /// Run an approved read of the session table.
    ReadSessions { read: Approved },
    /// Measure the archive and its log.
    MeasureArchive,
    /// Find the contacts that answer to a word.
    FindContacts { keyword: String, limit: usize },
    /// Find the members of the group of that name.
    FindRooms { username: String },
    /// Look for media.
    Media { ask: MediaAsk },
    /// Take, read or drop snapshots of the source.
    Sync { ask: SyncAsk },
}

/// The mathematical view of that.
pub enum AskV {
    Statements { script: Seq<StatementV>, atomic: bool },
    DeriveImageKey { uin: Seq<char>, account: Seq<char> },
    ListAssets { archive: Seq<char> },
    RemoveAssets { which: Seq<usize> },
    OpenArchive { archive: Seq<char> },
    ProtectArchive,
    FindStorage { data_root: Seq<char> },
    OpenSource { data_root: Seq<char>, nested: bool, key: Seq<u8> },
    DescribeSessions,
    ExplainSessions { sql: Seq<char>, values: Seq<SqlV> },
    ReadSessions { read: SearchV },
    MeasureArchive,
    FindContacts { keyword: Seq<char>, limit: usize },
    FindRooms { username: Seq<char> },
    Media { ask: MediaAskV },
    Sync { ask: SyncAskV },
}

impl View for Ask {
    type V = AskV;

    open spec fn view(&self) -> AskV {
        match self {
            Ask::Statements { script, atomic } => AskV::Statements {
                script: crate::sql::script_view(script@),
                atomic: *atomic,
            },
            Ask::DeriveImageKey { uin, account } => AskV::DeriveImageKey {
                uin: uin@,
                account: account@,
            },
            Ask::ListAssets { archive } => AskV::ListAssets { archive: archive@ },
            Ask::RemoveAssets { which } => AskV::RemoveAssets { which: which@ },
            Ask::OpenArchive { archive } => AskV::OpenArchive { archive: archive@ },
            Ask::ProtectArchive => AskV::ProtectArchive,
            Ask::FindStorage { data_root } => AskV::FindStorage { data_root: data_root@ },
            Ask::OpenSource { data_root, nested, key } => AskV::OpenSource {
                data_root: data_root@,
                nested: *nested,
                key: key@,
            },
            Ask::DescribeSessions => AskV::DescribeSessions,
            Ask::ExplainSessions { sql, values } => AskV::ExplainSessions {
                sql: sql@,
                values: crate::sql::values_view(values@),
            },
            Ask::ReadSessions { read } => AskV::ReadSessions { read: read@ },
            Ask::MeasureArchive => AskV::MeasureArchive,
            Ask::FindContacts { keyword, limit } => AskV::FindContacts {
                keyword: keyword@,
                limit: *limit,
            },
            Ask::FindRooms { username } => AskV::FindRooms { username: username@ },
            Ask::Media { ask } => AskV::Media { ask: ask@ },
            Ask::Sync { ask } => AskV::Sync { ask: ask@ },
        }
    }
}

/// What came of it.
pub enum Event {
    /// What each statement gave back.
    Answers { answers: Vec<Answer> },
    /// The key of images.
    ImageKey { key: Vec<u8> },
    /// What lies in the directory of kept media.
    Assets { entries: Vec<Entry> },
    /// It is done.
    Done,
    /// Whether the databases have a directory of their own.
    Storage { nested: bool },
    /// The source, where it could be opened.
    Source { db: Option<WechatDb> },
    /// The session table, where it could be described.
    Sessions { table: Option<SessionTable> },
    /// The plan of the read, where it could be had.
    SessionPlan { plan: Option<Vec<String>> },
    /// Whether the sessions could be read.
    SessionsRead { ok: bool },
    /// The sizes of the archive and of its log.
    Sizes { archive: u64, log: u64 },
    /// The contacts found.
    Contacts { contacts: Vec<Contact> },
    /// The members of each group found, where groups could be read.
    Rooms { rooms: Option<Vec<Vec<RoomMember>>> },
    /// What the search for media came to.
    Media { event: MediaEvent },
    /// What came of what was asked of the snapshots.
    Sync { event: SyncEvent },
}

/// The mathematical view of that.
pub enum EventV {
    Answers { answers: Seq<AnswerV> },
    ImageKey { key: Seq<u8> },
    Assets { entries: Seq<EntryV> },
    Done,
    Storage { nested: bool },
    Source { db: Option<WechatDbV> },
    Sessions { table: Option<SessionTableV> },
    SessionPlan { plan: Option<Seq<Seq<char>>> },
    SessionsRead { ok: bool },
    Sizes { archive: u64, log: u64 },
    Contacts { contacts: Seq<ContactV> },
    Rooms { rooms: Option<Seq<Seq<RoomMemberV>>> },
    Media { event: MediaEventV },
    Sync { event: SyncEventV },
}

impl View for Event {
    type V = EventV;

    open spec fn view(&self) -> EventV {
        match self {
            Event::Answers { answers } => EventV::Answers {
                answers: crate::sql::answers_view(answers@),
            },
            Event::ImageKey { key } => EventV::ImageKey { key: key@ },
            Event::Assets { entries } => EventV::Assets { entries: entries_view(entries@) },
            Event::Done => EventV::Done,
            Event::Storage { nested } => EventV::Storage { nested: *nested },
            Event::Source { db } => EventV::Source {
                db: match db {
                    Some(db) => Some(db@),
                    None => None,
                },
            },
            Event::Sessions { table } => EventV::Sessions {
                table: match table {
                    Some(t) => Some(t@),
                    None => None,
                },
            },
            Event::SessionPlan { plan } => EventV::SessionPlan {
                plan: match plan {
                    Some(v) => Some(crate::text::texts_view(v@)),
                    None => None,
                },
            },
            Event::SessionsRead { ok } => EventV::SessionsRead { ok: *ok },
            Event::Sizes { archive, log } => EventV::Sizes { archive: *archive, log: *log },
            Event::Contacts { contacts } => EventV::Contacts { contacts: contacts_view(contacts@) },
            Event::Rooms { rooms } => EventV::Rooms {
                rooms: match rooms {
                    Some(v) => Some(rooms_view(v@)),
                    None => None,
                },
            },
            Event::Media { event } => EventV::Media { event: event@ },
            Event::Sync { event } => EventV::Sync { event: event@ },
        }
    }
}

/// Where a request stands.
pub enum Stage {
    /// The key of images is being derived.
    ImageKey { setup: Setup, archive: String },
    /// The media that were kept are being listed.
    Assets { setup: Setup },
    /// Those of an earlier session are being removed.
    Cleaned { setup: Setup },
    /// The archive is being opened.
    Connected { setup: Setup },
    /// Its tables, account and secret are being read or made.
    Opening { setup: Setup, next: OpenNext },
    /// It is being closed to others.
    Protected { setup: Setup, index: Index },
    /// Whether half-finished imports were restarted is being asked.
    Migrated { setup: Setup },
    /// They are being restarted.
    Restarted { setup: Setup },
    /// Imports that stopped at the type of a column are being taken up.
    Retried { setup: Setup },
    /// The databases of the source are being sought.
    Storage { setup: Setup },
    /// They are being opened.
    Source,
    /// The session table is being described.
    Sessions { db: WechatDb },
    /// The read of sessions is being explained.
    SessionPlan { db: WechatDb, search: Search },
    /// Sessions are being read.
    SessionsRead { db: WechatDb },
    /// The archive is being measured.
    Measured,
    /// The quota and the conversations are being read.
    Status { bytes: u64 },
    /// An operation on the archive is going on.
    Archive { next: Next },
    /// Contacts are being sought.
    Contacts,
    /// A conversation is being enabled.
    Granted { id: String },
    /// Its import is being begun.
    Positions { id: String },
    /// Its members are being sought.
    Rooms { id: String },
    /// Its members are being noted.
    Members { id: String },
    /// Something is being set.
    Acknowledged,
    /// The conversation of a message is being sought.
    Home { id: String, count: i64 },
    /// The messages around it are being read.
    Context,
    /// A message is being read.
    Message { media: bool },
    /// Its media are being sought.
    Media { msg: Json, next: MediaNext },
    /// A sync is going on.
    Sync { next: SyncNext },
}

/// The mathematical view of that.
pub enum StageV {
    ImageKey { setup: SetupV, archive: Seq<char> },
    Assets { setup: SetupV },
    Cleaned { setup: SetupV },
    Connected { setup: SetupV },
    Opening { setup: SetupV, next: OpenNextV },
    Protected { setup: SetupV, index: IndexV },
    Migrated { setup: SetupV },
    Restarted { setup: SetupV },
    Retried { setup: SetupV },
    Storage { setup: SetupV },
    Source,
    Sessions { db: WechatDbV },
    SessionPlan { db: WechatDbV, search: SearchV },
    SessionsRead { db: WechatDbV },
    Measured,
    Status { bytes: u64 },
    Archive { next: NextV },
    Contacts,
    Granted { id: Seq<char> },
    Positions { id: Seq<char> },
    Rooms { id: Seq<char> },
    Members { id: Seq<char> },
    Acknowledged,
    Home { id: Seq<char>, count: i64 },
    Context,
    Message { media: bool },
    Media { msg: JsonV, next: MediaNextV },
    Sync { next: SyncNextV },
}

impl View for Stage {
    type V = StageV;

    open spec fn view(&self) -> StageV {
        match self {
            Stage::ImageKey { setup, archive } => StageV::ImageKey {
                setup: setup@,
                archive: archive@,
            },
            Stage::Assets { setup } => StageV::Assets { setup: setup@ },
            Stage::Cleaned { setup } => StageV::Cleaned { setup: setup@ },
            Stage::Connected { setup } => StageV::Connected { setup: setup@ },
            Stage::Opening { setup, next } => StageV::Opening { setup: setup@, next: next@ },
            Stage::Protected { setup, index } => StageV::Protected { setup: setup@, index: index@ },
            Stage::Migrated { setup } => StageV::Migrated { setup: setup@ },
            Stage::Restarted { setup } => StageV::Restarted { setup: setup@ },
            Stage::Retried { setup } => StageV::Retried { setup: setup@ },
            Stage::Storage { setup } => StageV::Storage { setup: setup@ },
            Stage::Source => StageV::Source,
            Stage::Sessions { db } => StageV::Sessions { db: db@ },
            Stage::SessionPlan { db, search } => StageV::SessionPlan { db: db@, search: search@ },
            Stage::SessionsRead { db } => StageV::SessionsRead { db: db@ },
            Stage::Measured => StageV::Measured,
            Stage::Status { bytes } => StageV::Status { bytes: *bytes },
            Stage::Archive { next } => StageV::Archive { next: next@ },
            Stage::Contacts => StageV::Contacts,
            Stage::Granted { id } => StageV::Granted { id: id@ },
            Stage::Positions { id } => StageV::Positions { id: id@ },
            Stage::Rooms { id } => StageV::Rooms { id: id@ },
            Stage::Members { id } => StageV::Members { id: id@ },
            Stage::Acknowledged => StageV::Acknowledged,
            Stage::Home { id, count } => StageV::Home { id: id@, count: *count },
            Stage::Context => StageV::Context,
            Stage::Message { media } => StageV::Message { media: *media },
            Stage::Media { msg, next } => StageV::Media { msg: msg@, next: next@ },
            Stage::Sync { next } => StageV::Sync { next: next@ },
        }
    }
}

/// What to do next for a request.
pub enum BackendStep {
    Ask { ask: Ask, stage: Stage },
    Done(Result<Json, Fault>),
}

/// The mathematical view of that.
pub enum BackendStepV {
    Ask { ask: AskV, stage: StageV },
    Done(Outcome),
}

impl View for BackendStep {
    type V = BackendStepV;

    open spec fn view(&self) -> BackendStepV {
        match self {
            BackendStep::Ask { ask, stage } => BackendStepV::Ask { ask: ask@, stage: stage@ },
            BackendStep::Done(r) => BackendStepV::Done(outcome_view(*r)),
        }
    }
}

/// What the backend keeps between requests.
pub struct Backend {
    pub index: Option<Index>,
    pub source: Option<WechatDb>,
    pub error: Option<String>,
    pub archive_path: String,
    pub has_import_work: bool,
    pub image_key: Option<Vec<u8>>,
    pub image_config_unavailable: bool,
    pub session_diagnostics: Vec<String>,
}

/// The mathematical view of the backend.
pub struct BackendV {
    pub index: Option<IndexV>,
    pub source: Option<WechatDbV>,
    pub error: Option<Seq<char>>,
    pub archive_path: Seq<char>,
    pub has_import_work: bool,
    pub image_key: Option<Seq<u8>>,
    pub image_config_unavailable: bool,
    pub session_diagnostics: Seq<Seq<char>>,
}

impl View for Backend {
    type V = BackendV;

    open spec fn view(&self) -> BackendV {
        BackendV {
            index: match self.index {
                Some(index) => Some(index@),
                None => None,
            },
            source: match self.source {
                Some(db) => Some(db@),
                None => None,
            },
            error: match self.error {
                Some(e) => Some(e@),
                None => None,
            },
            archive_path: self.archive_path@,
            has_import_work: self.has_import_work,
            image_key: crate::source::bytes_view(self.image_key),
            image_config_unavailable: self.image_config_unavailable,
            session_diagnostics: crate::text::texts_view(self.session_diagnostics@),
        }
    }
}

/// The backend and what to do next.
pub struct Turn {
    pub backend: BackendV,
    pub step: BackendStepV,
}

/// A refusal that leaves the backend as it is.
pub open spec fn refuse(b: BackendV, text: Seq<char>) -> Turn {
    Turn { backend: b, step: BackendStepV::Done(Outcome::Err(text)) }
}

/// An answer that leaves the backend as it is.
pub open spec fn reply(b: BackendV, answer: JsonV) -> Turn {
    Turn { backend: b, step: BackendStepV::Done(Outcome::Ok(answer)) }
}

/// A question that leaves the backend as it is.
pub open spec fn ask(b: BackendV, ask: AskV, stage: StageV) -> Turn {
    Turn { backend: b, step: BackendStepV::Ask { ask, stage } }
}

/// Statements to run one by one.
pub open spec fn run(script: Seq<StatementV>) -> AskV {
    AskV::Statements { script, atomic: false }
}

/// Statements to run all together or not at all.
pub open spec fn commit(script: Seq<StatementV>) -> AskV {
    AskV::Statements { script, atomic: true }
}

// ------------------------------------------------------------------- set-up

/// What setting up keeps of a request, once it has been found sound.
pub open spec fn setup_of(p: JsonV) -> SetupV {
    SetupV {
        data_root: p.text_at("data_root"@),
        key: crate::primitives::hex_bytes(p.text_at("key"@)),
        account: p.text_at("account"@),
    }
}

/// Goes on to the media that were kept for an earlier session.
pub open spec fn list_assets(b: BackendV, setup: SetupV, archive: Seq<char>) -> Turn {
    ask(
        BackendV { archive_path: archive, ..b },
        AskV::ListAssets { archive },
        StageV::Assets { setup },
    )
}

/// What a request to set up asks for first, or why it is refused.
pub open spec fn initialize(b: BackendV, p: JsonV) -> Turn {
    let uin = p.text_at("image_uin"@);
    let told = BackendV {
        image_config_unavailable: p.at("image_config_unavailable"@).as_flag() == Some(true),
        ..b
    };
    if !crate::primitives::is_hex(p.text_at("key"@)) {
        refuse(b, "invalid_key"@)
    } else if setup_of(p).key.len() != 32 {
        refuse(b, "invalid_key_length"@)
    } else if setup_of(p).account.len() == 0 {
        refuse(b, "account_required"@)
    } else if uin.len() == 0 {
        list_assets(
            BackendV { image_key: None, ..told },
            setup_of(p),
            p.text_at("index_path"@),
        )
    } else if uin.len() > 32 || !crate::text::all_digits(uin) {
        refuse(told, "invalid_image_config"@)
    } else {
        ask(
            told,
            AskV::DeriveImageKey { uin, account: setup_of(p).account },
            StageV::ImageKey { setup: setup_of(p), archive: p.text_at("index_path"@) },
        )
    }
}

/// Whether an entry is a file that was kept for an earlier session.
pub open spec fn is_stale(e: EntryV) -> bool {
    e.file && "asset-"@.is_prefix_of(e.name)
}

/// The places of the entries that were kept for an earlier session.
pub open spec fn stale(entries: Seq<EntryV>) -> Seq<usize>
    decreases entries.len(),
{
    if entries.len() == 0 {
        Seq::empty()
    } else if is_stale(entries.last()) {
        stale(entries.drop_last()).push((entries.len() - 1) as usize)
    } else {
        stale(entries.drop_last())
    }
}

/// Goes on as the opening of the archive says.
pub open spec fn after_open(b: BackendV, setup: SetupV, step: OpenStepV) -> Turn {
    match step {
        OpenStepV::Ask { script, next } => ask(b, run(script), StageV::Opening { setup, next }),
        OpenStepV::Done(Ok(index)) => ask(
            b,
            AskV::ProtectArchive,
            StageV::Protected { setup, index },
        ),
        OpenStepV::Done(Err(e)) => refuse(b, e),
    }
}

/// Restarts the imports that are half done, once.
pub open spec fn migration() -> Seq<StatementV> {
    seq![
        crate::sql::st0(Form::RestartImports),
        crate::sql::st0(Form::ReopenIncompatible),
        crate::sql::st0(Form::MarkMigrated),
    ]
}

/// Takes up again the imports that stopped at the type of a column.
pub open spec fn retry_imports(b: BackendV, setup: SetupV) -> Turn {
    ask(b, run(seq![crate::sql::st0(Form::RetryColumnErrors)]), StageV::Retried { setup })
}

/// The read that shows whether sessions can be read in order.
pub open spec fn session_probe() -> SearchV {
    SearchV {
        sql: "SELECT username,sort_timestamp FROM SessionTable WHERE (sort_timestamp,username) > (?1,?2) ORDER BY sort_timestamp,username LIMIT ?3"@,
        values: seq![SqlV::Int(0), SqlV::Text(Seq::empty()), SqlV::Int(1)],
    }
}

/// Takes the source up, with what is known of it.
pub open spec fn with_source(b: BackendV, db: WechatDbV, error: Seq<char>) -> BackendV {
    BackendV { source: Some(db), error: Some(error), ..b }
}

// ------------------------------------------------------------------- status

/// Goes on to the state of the backend.
pub open spec fn measure(b: BackendV) -> Turn {
    ask(b, AskV::MeasureArchive, StageV::Measured)
}

/// A number of 64 bits with a sign, read without one.
pub open spec fn unsigned(n: i64) -> int {
    if n >= 0 {
        n as int
    } else {
        n + 18446744073709551616
    }
}

/// The state of the backend.
pub open spec fn status_answer(
    b: BackendV,
    bytes: u64,
    quota: i64,
    conversations: Seq<ConversationRowV>,
) -> JsonV {
    crate::json::object(
        seq![
            crate::json::field_v("source_available", JsonV::Bool(b.source is Some)),
            crate::json::field_v(
                "session_index_diagnostics",
                crate::json::text_list(b.session_diagnostics),
            ),
            crate::json::field_v("image_key_configured", JsonV::Bool(b.image_key is Some)),
            crate::json::field_v(
                "image_config_unavailable",
                JsonV::Bool(b.image_config_unavailable),
            ),
            crate::json::field_v("live_sync_ready", JsonV::Bool(false)),
            crate::json::field_v("compatibility", crate::json::text_or_null(b.error)),
            crate::json::field_v("index_bytes", JsonV::Num(bytes as int)),
            crate::json::field_v("quota_bytes", JsonV::Num(quota as int)),
            crate::json::field_v("quota_warning", JsonV::Bool(bytes > unsigned(quota))),
            crate::json::field_v(
                "conversations",
                JsonV::Arr(crate::index::listed_items(conversations)),
            ),
            crate::json::field_v("archive_semantics", JsonV::Str("first_observed"@)),
        ],
    )
}

// -------------------------------------------------------------- permissions

/// The contacts found, each under the name that the owner gave or, where there
/// is none, its own.
pub open spec fn contact_answer(contacts: Seq<ContactV>) -> JsonV {
    crate::index::items_answer(
        Seq::new(
            contacts.len(),
            |i: int|
                crate::json::object(
                    seq![
                        crate::json::field_v("conversation_id", JsonV::Str(contacts[i].user_name)),
                        crate::json::field_v(
                            "name",
                            JsonV::Str(
                                if contacts[i].remark.len() > 0 {
                                    contacts[i].remark
                                } else {
                                    contacts[i].nick_name
                                },
                            ),
                        ),
                    ],
                ),
        ),
    )
}

/// The text of the row number before all rows.
pub open spec fn first_position() -> Seq<char> {
    crate::text::decimal(i64::MIN as int)
}

/// Begins the import of a conversation from every shard, where it has not
/// begun.
pub open spec fn position_script(id: Seq<char>, shards: Seq<Seq<char>>) -> Seq<StatementV> {
    Seq::new(
        shards.len(),
        |i: int|
            crate::sql::st3(
                Form::InsertPosition,
                SqlV::Text(id),
                SqlV::Text(shards[i]),
                SqlV::Text(first_position()),
            ),
    )
}

/// Notes the members of one group.
pub open spec fn room_script(id: Seq<char>, members: Seq<RoomMemberV>) -> Seq<StatementV> {
    Seq::new(
        members.len(),
        |i: int|
            crate::sql::st3(
                Form::InsertNamedMember,
                SqlV::Text(id),
                SqlV::Text(members[i].user_name),
                SqlV::Text(
                    match members[i].display_name {
                        Some(name) => name,
                        None => members[i].user_name,
                    },
                ),
            ),
    )
}

/// Notes the members of every group.
pub open spec fn rooms_script(id: Seq<char>, rooms: Seq<Seq<RoomMemberV>>) -> Seq<StatementV>
    decreases rooms.len(),
{
    if rooms.len() == 0 {
        Seq::empty()
    } else {
        rooms_script(id, rooms.drop_last()) + room_script(id, rooms.last())
    }
}

/// What allowing a conversation is answered.
pub open spec fn granted_answer(id: Seq<char>) -> JsonV {
    crate::json::object(
        seq![
            crate::json::field_v("approved", JsonV::Bool(true)),
            crate::json::field_v("conversation_id", JsonV::Str(id)),
            crate::json::field_v("state", JsonV::Str("indexing"@)),
        ],
    )
}

/// An answer that says only that something holds.
pub open spec fn flag_answer(name: &str) -> JsonV {
    crate::json::object(seq![crate::json::field_v(name, JsonV::Bool(true))])
}

/// The smallest quota that may be set.
pub const MIN_QUOTA: i64 = 1048576;

/// How many messages are shown on either side.
pub open spec fn context_count(p: JsonV) -> i64 {
    match p.at("context"@).as_signed() {
        None => 20,
        Some(n) => if n < 1 {
            1
        } else if n > 100 {
            100
        } else {
            n as i64
        },
    }
}

// ----------------------------------------------------------------- requests

/// Goes on as an operation on the archive says.
pub open spec fn after_archive(b: BackendV, step: StepV) -> Turn {
    match step {
        StepV::Ask { script, next } => ask(b, run(script), StageV::Archive { next }),
        StepV::Done(r) => Turn { backend: b, step: BackendStepV::Done(r) },
    }
}

/// Goes on as the search for media says.
pub open spec fn after_media(b: BackendV, msg: JsonV, step: MediaStepV) -> Turn {
    match step {
        MediaStepV::Ask { ask: a, next } => ask(
            b,
            AskV::Media { ask: a },
            StageV::Media { msg, next },
        ),
        MediaStepV::Done(r) => Turn { backend: b, step: BackendStepV::Done(r) },
    }
}

/// Goes on as a sync says.
pub open spec fn after_sync(b: BackendV, step: SyncStepV) -> Turn {
    match step {
        SyncStepV::Ask { ask: SyncAskV::Statements { script, atomic }, next } => ask(
            b,
            AskV::Statements { script, atomic },
            StageV::Sync { next },
        ),
        SyncStepV::Ask { ask: a, next } => ask(b, AskV::Sync { ask: a }, StageV::Sync { next }),
        SyncStepV::Done(Ok(())) => reply(b, flag_answer("ok")),
        SyncStepV::Done(Err(e)) => refuse(b, e),
    }
}

/// What a request to allow a conversation asks for first, or why it is refused.
pub open spec fn grant_begin(b: BackendV, p: JsonV) -> Turn {
    let id = p.text_at("conversation_id"@);
    if b.source is None {
        refuse(b, "source_unavailable"@)
    } else if id.len() == 0 {
        refuse(b, "conversation_required"@)
    } else {
        ask(
            b,
            commit(crate::index::grant_script(id, p.text_at("name"@))),
            StageV::Granted { id },
        )
    }
}

/// What a request for another quota asks for, or why it is refused.
pub open spec fn quota_begin(b: BackendV, p: JsonV) -> Turn {
    match p.at("bytes"@).as_signed() {
        Some(n) if n >= MIN_QUOTA => ask(
            b,
            run(
                seq![crate::sql::st1(Form::SetQuota, SqlV::Text(crate::text::decimal(n)))],
            ),
            StageV::Acknowledged,
        ),
        _ => refuse(b, "invalid_quota"@),
    }
}

/// What a request to an archive that is open asks for first, or is answered.
pub open spec fn serve(b: BackendV, method: Seq<char>, p: JsonV) -> Turn {
    if method == "status"@ {
        measure(b)
    } else if method == "find_conversations"@ {
        after_archive(b, crate::index::list_begin(p.text_at("query"@), false))
    } else if method == "local_list"@ {
        after_archive(b, crate::index::list_begin(Seq::empty(), true))
    } else if method == "local_discover"@ {
        if b.source is None {
            refuse(b, "source_unavailable"@)
        } else {
            ask(
                b,
                AskV::FindContacts { keyword: p.text_at("query"@), limit: 200 },
                StageV::Contacts,
            )
        }
    } else if method == "local_grant"@ {
        grant_begin(b, p)
    } else if method == "local_revoke"@ {
        ask(
            b,
            commit(
                crate::index::revoke_script(
                    p.text_at("conversation_id"@),
                    p.at("delete"@).as_flag() == Some(true),
                ),
            ),
            StageV::Acknowledged,
        )
    } else if method == "local_quota"@ {
        quota_begin(b, p)
    } else if method == "sync"@ {
        match b.source {
            None => refuse(b, "source_unavailable"@),
            Some(db) => after_sync(b, crate::sync::sync_begin(db)),
        }
    } else if method == "get_messages"@ || method == "search_messages"@ {
        after_archive(b, crate::index::query_begin(p, false))
    } else if method == "get_updates"@ {
        after_archive(b, crate::index::query_begin(p, true))
    } else if method == "list_members"@ {
        after_archive(b, crate::index::members_begin(p))
    } else if method == "get_message_context"@ {
        let id = p.text_at("message_id"@);
        ask(
            b,
            run(seq![crate::sql::st1(Form::MessageHome, SqlV::Text(id))]),
            StageV::Home { id, count: context_count(p) },
        )
    } else if method == "authorize_message"@ || method == "get_media"@ {
        ask(
            b,
            run(
                seq![crate::sql::st1(Form::MessageData, SqlV::Text(p.text_at("message_id"@)))],
            ),
            StageV::Message { media: method == "get_media"@ },
        )
    } else {
        refuse(b, "unknown_method"@)
    }
}

/// What a request asks for first, or is answered.
pub open spec fn requested(b: BackendV, method: Seq<char>, p: JsonV) -> Turn {
    if method == "initialize"@ {
        initialize(b, p)
    } else if b.index is None {
        refuse(b, "setup_required"@)
    } else {
        serve(b, method, p)
    }
}

/// What an archived message leads to, once its text has been found.
pub open spec fn after_message(b: BackendV, media: bool, data: Seq<char>) -> Turn {
    match crate::json::json_value(vstd::utf8::encode_utf8(data)) {
        Err(e) => refuse(b, e),
        Ok(msg) => if !media {
            reply(b, flag_answer("authorized"))
        } else {
            match b.source {
                None => refuse(b, "source_unavailable"@),
                Some(db) => after_media(
                    b,
                    msg,
                    crate::media::media_begin(db.has_account_dir, msg),
                ),
            }
        },
    }
}

/// What comes after each stage of setting up, but for the opening itself.
pub open spec fn setup_step(b: BackendV, stage: StageV, event: EventV) -> Turn {
    match (stage, event) {
        (StageV::ImageKey { setup, archive }, EventV::ImageKey { key }) => list_assets(
            BackendV { image_key: Some(key), ..b },
            setup,
            archive,
        ),
        (StageV::Assets { setup }, EventV::Assets { entries }) => ask(
            b,
            AskV::RemoveAssets { which: stale(entries) },
            StageV::Cleaned { setup },
        ),
        (StageV::Cleaned { setup }, EventV::Done) => ask(
            b,
            AskV::OpenArchive { archive: b.archive_path },
            StageV::Connected { setup },
        ),
        (StageV::Connected { setup }, EventV::Done) => after_open(
            b,
            setup,
            crate::index::open_begin(setup.account),
        ),
        (StageV::Protected { setup, index }, EventV::Done) => ask(
            BackendV { index: Some(index), ..b },
            run(seq![crate::sql::st0(Form::Migrated)]),
            StageV::Migrated { setup },
        ),
        (StageV::Migrated { setup }, EventV::Answers { answers }) => if answers.len() == 1
            && answers[0] is Number {
            if answers[0]->Number_0 != 0 {
                retry_imports(b, setup)
            } else {
                ask(b, commit(migration()), StageV::Restarted { setup })
            }
        } else {
            refuse(b, "unexpected_answer"@)
        },
        (StageV::Restarted { setup }, EventV::Answers { .. }) => retry_imports(b, setup),
        (StageV::Retried { setup }, EventV::Answers { .. }) => ask(
            BackendV { has_import_work: true, ..b },
            AskV::FindStorage { data_root: setup.data_root },
            StageV::Storage { setup },
        ),
        (StageV::Storage { setup }, EventV::Storage { nested }) => ask(
            b,
            AskV::OpenSource { data_root: setup.data_root, nested, key: setup.key },
            StageV::Source,
        ),
        (StageV::Source, EventV::Source { db }) => match db {
            None => measure(
                BackendV {
                    source: None,
                    has_import_work: false,
                    error: Some("source_unavailable_or_invalid_key"@),
                    ..b
                },
            ),
            Some(db) => ask(b, AskV::DescribeSessions, StageV::Sessions { db }),
        },
        (StageV::Sessions { db }, EventV::Sessions { table }) => ask(
            BackendV {
                session_diagnostics: match table {
                    Some(t) => t.lines + t.plan,
                    None => seq!["schema_diagnostic_failed"@],
                },
                ..b
            },
            AskV::ExplainSessions {
                sql: "EXPLAIN QUERY PLAN "@ + session_probe().sql,
                values: session_probe().values,
            },
            StageV::SessionPlan { db, search: session_probe() },
        ),
        (StageV::SessionPlan { db, search }, EventV::SessionPlan { plan }) => match plan {
            Some(plan) if crate::source::is_range_search(plan) => ask(
                b,
                AskV::ReadSessions { read: search },
                StageV::SessionsRead { db },
            ),
            _ => measure(with_source(b, db, "incompatible_session_range_index"@)),
        },
        (StageV::SessionsRead { db }, EventV::SessionsRead { ok }) => measure(
            with_source(
                b,
                db,
                if ok {
                    "live_sync_unverified: session timestamp and shard routing are not a durable change log"@
                } else {
                    "incompatible_session_range_index"@
                },
            ),
        ),
        _ => refuse(b, "unexpected_answer"@),
    }
}

/// What comes after each stage of a request to an archive that is open.
pub open spec fn serve_step(b: BackendV, stage: StageV, event: EventV) -> Turn {
    match (stage, event) {
        (StageV::Measured, EventV::Sizes { archive, log }) => ask(
            b,
            run(
                seq![
                    crate::sql::st0(Form::Quota),
                    crate::index::list_query(Seq::empty(), false),
                ],
            ),
            StageV::Status { bytes: (archive + log) as u64 },
        ),
        (StageV::Status { bytes }, EventV::Answers { answers }) => if answers.len() == 2
            && answers[0] is Number && answers[1] is Conversations {
            reply(
                b,
                status_answer(b, bytes, answers[0]->Number_0, answers[1]->Conversations_0),
            )
        } else {
            refuse(b, "unexpected_answer"@)
        },
        (StageV::Archive { next }, EventV::Answers { answers }) => match b.index {
            Some(index) => after_archive(b, crate::index::index_step(index, next, answers)),
            None => refuse(b, "setup_required"@),
        },
        (StageV::Contacts, EventV::Contacts { contacts }) => reply(b, contact_answer(contacts)),
        (StageV::Granted { id }, EventV::Answers { .. }) => match b.source {
            Some(db) => ask(
                BackendV { has_import_work: true, ..b },
                run(position_script(id, db.shards)),
                StageV::Positions { id },
            ),
            None => refuse(b, "source_unavailable"@),
        },
        (StageV::Positions { id }, EventV::Answers { .. }) => ask(
            b,
            AskV::FindRooms { username: id },
            StageV::Rooms { id },
        ),
        (StageV::Rooms { id }, EventV::Rooms { rooms }) => match rooms {
            Some(rooms) => ask(b, run(rooms_script(id, rooms)), StageV::Members { id }),
            None => reply(b, granted_answer(id)),
        },
        (StageV::Members { id }, EventV::Answers { .. }) => reply(b, granted_answer(id)),
        (StageV::Acknowledged, EventV::Answers { .. }) => reply(b, flag_answer("ok")),
        (StageV::Sync { next }, EventV::Answers { answers }) => match b.index {
            Some(_) => after_sync(
                b,
                crate::sync::sync_step(next, SyncEventV::Answers { answers }),
            ),
            None => refuse(b, "setup_required"@),
        },
        (StageV::Sync { next }, EventV::Sync { event }) => match b.index {
            Some(_) => after_sync(b, crate::sync::sync_step(next, event)),
            None => refuse(b, "setup_required"@),
        },
        (StageV::Home { id, count }, EventV::Answers { answers }) => if answers.len() == 1
            && answers[0] is Home {
            match answers[0]->Home_0 {
                None => refuse(b, "message_unavailable"@),
                Some((conversation, time)) => ask(
                    b,
                    run(
                        seq![
                            crate::sql::st4(
                                Form::Context,
                                SqlV::Text(conversation),
                                SqlV::Int(time),
                                SqlV::Text(id),
                                SqlV::Int(count),
                            ),
                        ],
                    ),
                    StageV::Context,
                ),
            }
        } else {
            refuse(b, "unexpected_answer"@)
        },
        (StageV::Context, EventV::Answers { answers }) => if answers.len() == 1
            && answers[0] is Texts {
            match crate::query::parsed_items(answers[0]->Texts_0) {
                Err(e) => refuse(b, e),
                Ok(items) => reply(
                    b,
                    crate::index::items_answer(crate::context::ordered(items)),
                ),
            }
        } else {
            refuse(b, "unexpected_answer"@)
        },
        (StageV::Message { media }, EventV::Answers { answers }) => if answers.len() == 1
            && answers[0] is MaybeText {
            match answers[0]->MaybeText_0 {
                None => refuse(b, "message_unavailable"@),
                Some(data) => after_message(b, media, data),
            }
        } else {
            refuse(b, "unexpected_answer"@)
        },
        (StageV::Media { msg, next }, EventV::Media { event }) => after_media(
            b,
            msg,
            crate::media::media_step(msg, b.image_key, next, event),
        ),
        _ => refuse(b, "unexpected_answer"@),
    }
}

/// Whether a stage belongs to setting up.
pub open spec fn is_setup(stage: StageV) -> bool {
    stage is ImageKey || stage is Assets || stage is Cleaned || stage is Connected || stage
        is Opening || stage is Protected || stage is Migrated || stage is Restarted || stage
        is Retried || stage is Storage || stage is Source || stage is Sessions || stage
        is SessionPlan || stage is SessionsRead
}

/// Whether the backend and the step may come after a stage of a request. All
/// is fixed but the secret of a new archive.
pub open spec fn may_follow(b: BackendV, stage: StageV, event: EventV, turn: Turn) -> bool {
    match (stage, event) {
        (StageV::Opening { setup, next }, EventV::Answers { answers }) => exists|open: OpenStepV|
            crate::index::may_open(next, answers, open) && turn == #[trigger] after_open(
                b,
                setup,
                open,
            ),
        _ => turn == if is_setup(stage) {
            setup_step(b, stage, event)
        } else {
            serve_step(b, stage, event)
        },
    }
}

/// Whether the sizes measured, where the event brings them, have a sum.
pub open spec fn sizes_fit(event: EventV) -> bool {
    event matches EventV::Sizes { archive, log } ==> archive + log <= u64::MAX
}

fn refusal(f: Fault) -> (r: BackendStep)
    ensures
        r@ == BackendStepV::Done(Outcome::Err(f@)),
{
    BackendStep::Done(Err(f))
}

fn stale_entries(entries: &Vec<Entry>) -> (r: Vec<usize>)
    ensures
        r@ == stale(entries_view(entries@)),
{
    let ghost all = entries_view(entries@);
    let mut out: Vec<usize> = Vec::new();
    let mut i: usize = 0;
    assert(out@ =~= stale(all.take(0)));
    while i < entries.len()
        invariant
            all == entries_view(entries@),
            i <= entries@.len(),
            out@ == stale(all.take(i as int)),
        decreases entries@.len() - i,
    {
        assert(all.take(i + 1).drop_last() =~= all.take(i as int));
        assert(all.take(i + 1).last() == entries@[i as int]@);
        if entries[i].file && starts_with(entries[i].name.as_str(), "asset-") {
            out.push(i);
        }
        i = i + 1;
    }
    assert(all.take(all.len() as int) =~= all);
    out
}

fn migration_script() -> (r: Vec<Statement>)
    ensures
        crate::sql::script_view(r@) == migration(),
{
    let r = vec![
        Statement::of0(Form::RestartImports),
        Statement::of0(Form::ReopenIncompatible),
        Statement::of0(Form::MarkMigrated),
    ];
    assert(crate::sql::script_view(r@) =~= migration());
    r
}

fn shard_script(id: &str, shards: &Vec<String>) -> (r: Vec<Statement>)
    ensures
        crate::sql::script_view(r@) == position_script(id@, crate::text::texts_view(shards@)),
{
    let ghost all = crate::text::texts_view(shards@);
    let mut out: Vec<Statement> = Vec::new();
    let mut i: usize = 0;
    while i < shards.len()
        invariant
            all == crate::text::texts_view(shards@),
            i <= shards@.len(),
            out@.len() == i,
            forall|k: int|
                0 <= k < i ==> (#[trigger] out@[k])@ == position_script(id@, all)[k],
        decreases shards@.len() - i,
    {
        out.push(
            Statement::of3(
                Form::InsertPosition,
                bind(id),
                bind(shards[i].as_str()),
                SqlValue::Text(decimal_text(i64::MIN)),
            ),
        );
        i = i + 1;
    }
    assert(crate::sql::script_view(out@) =~= position_script(id@, all));
    out
}

fn add_room(out: &mut Vec<Statement>, id: &str, members: &Vec<RoomMember>)
    ensures
        crate::sql::script_view(final(out)@) == crate::sql::script_view(old(out)@) + room_script(
            id@,
            room_view(members@),
        ),
{
    let ghost all = room_view(members@);
    let ghost before = crate::sql::script_view(out@);
    let mut i: usize = 0;
    assert(before =~= before + room_script(id@, all).take(0));
    while i < members.len()
        invariant
            all == room_view(members@),
            i <= members@.len(),
            crate::sql::script_view(out@) == before + room_script(id@, all).take(i as int),
        decreases members@.len() - i,
    {
        let m = &members[i];
        assert(m@ == all[i as int]);
        let name = match &m.display_name {
            Some(name) => name.clone(),
            None => m.user_name.clone(),
        };
        let ghost so_far = crate::sql::script_view(out@);
        let s = Statement::of3(
            Form::InsertNamedMember,
            bind(id),
            bind(m.user_name.as_str()),
            SqlValue::Text(name),
        );
        assert(s@ == room_script(id@, all)[i as int]);
        out.push(s);
        assert(crate::sql::script_view(out@) =~= so_far.push(s@));
        assert(room_script(id@, all).take(i + 1) =~= room_script(id@, all).take(i as int).push(
            s@,
        ));
        assert(so_far.push(s@) =~= before + room_script(id@, all).take(i + 1));
        i = i + 1;
    }
    assert(room_script(id@, all).take(all.len() as int) =~= room_script(id@, all));
}

fn member_script(id: &str, rooms: &Vec<Vec<RoomMember>>) -> (r: Vec<Statement>)
    ensures
        crate::sql::script_view(r@) == rooms_script(id@, rooms_view(rooms@)),
{
    let ghost all = rooms_view(rooms@);
    let mut out: Vec<Statement> = Vec::new();
    let mut i: usize = 0;
    assert(crate::sql::script_view(out@) =~= rooms_script(id@, all.take(0)));
    while i < rooms.len()
        invariant
            all == rooms_view(rooms@),
            i <= rooms@.len(),
            crate::sql::script_view(out@) == rooms_script(id@, all.take(i as int)),
        decreases rooms@.len() - i,
    {
        assert(all.take(i + 1).drop_last() =~= all.take(i as int));
        assert(all.take(i + 1).last() == room_view(rooms@[i as int]@));
        add_room(&mut out, id, &rooms[i]);
        i = i + 1;
    }
    assert(all.take(all.len() as int) =~= all);
    out
}

fn contact_json(c: &Contact) -> (r: Json)
    ensures
        r@ == contact_answer(seq![c@])->Obj_0[0].value->Arr_0[0],
{
    let name = if !c.remark.as_str().is_empty() {
        c.remark.clone()
    } else {
        c.nick_name.clone()
    };
    let mut o: Vec<Field> = Vec::new();
    put(&mut o, "conversation_id", str_json(c.user_name.as_str()));
    put(&mut o, "name", Json::Str(name));
    assert(crate::json::fields_view(o@) =~= contact_answer(
        seq![c@],
    )->Obj_0[0].value->Arr_0[0]->Obj_0);
    object_of(o)
}

fn contacts_json(contacts: &Vec<Contact>) -> (r: Json)
    ensures
        r@ == contact_answer(contacts_view(contacts@)),
{
    let ghost all = contacts_view(contacts@);
    let ghost items = contact_answer(all)->Obj_0[0].value->Arr_0;
    let mut out: Vec<Json> = Vec::new();
    let mut i: usize = 0;
    while i < contacts.len()
        invariant
            all == contacts_view(contacts@),
            items == contact_answer(all)->Obj_0[0].value->Arr_0,
            i <= contacts@.len(),
            out@.len() == i,
            forall|k: int| 0 <= k < i ==> (#[trigger] out@[k])@ == items[k],
        decreases contacts@.len() - i,
    {
        assert(all[i as int] == contacts@[i as int]@);
        out.push(contact_json(&contacts[i]));
        i = i + 1;
    }
    assert(crate::json::items_view(out@) =~= items);
    items_json(out)
}

fn granted_json(id: String) -> (r: Json)
    ensures
        r@ == granted_answer(id@),
{
    let mut o: Vec<Field> = Vec::new();
    put(&mut o, "approved", Json::Bool(true));
    put(&mut o, "conversation_id", Json::Str(id));
    put(&mut o, "state", str_json("indexing"));
    assert(crate::json::fields_view(o@) =~= granted_answer(id@)->Obj_0);
    object_of(o)
}

fn flag_json(name: &str) -> (r: Json)
    ensures
        r@ == flag_answer(name),
{
    let mut o: Vec<Field> = Vec::new();
    put(&mut o, name, Json::Bool(true));
    assert(crate::json::fields_view(o@) =~= flag_answer(name)->Obj_0);
    object_of(o)
}

fn count_of_context(p: &Json) -> (r: i64)
    ensures
        r == context_count(p@),
{
    match p.signed_at("context") {
        None => 20,
        Some(n) => if n < 1 {
            1
        } else if n > 100 {
            100
        } else {
            n
        },
    }
}

fn text_answer(answers: &Vec<Answer>) -> (r: Option<Option<&String>>)
    ensures
        ({
            let all = crate::sql::answers_view(answers@);
            match r {
                Some(t) => all.len() == 1 && all[0] is MaybeText && all[0]->MaybeText_0 == match t {
                    Some(s) => Some(s@),
                    None => None,
                },
                None => !(all.len() == 1 && all[0] is MaybeText),
            }
        }),
{
    if answers.len() != 1 {
        return None;
    }
    match &answers[0] {
        Answer::MaybeText(t) => match t {
            Some(s) => Some(Some(s)),
            None => Some(None),
        },
        _ => None,
    }
}

impl Backend {
    /// A backend without an archive.
    pub fn new() -> (r: Backend)
        ensures
            r@ == (BackendV {
                index: None,
                source: None,
                error: None,
                archive_path: Seq::empty(),
                has_import_work: false,
                image_key: None,
                image_config_unavailable: false,
                session_diagnostics: Seq::empty(),
            }),
    {
        let session_diagnostics: Vec<String> = Vec::new();
        assert(crate::text::texts_view(session_diagnostics@) =~= Seq::empty());
        Backend {
            index: None,
            source: None,
            error: None,
            archive_path: String::new(),
            has_import_work: false,
            image_key: None,
            image_config_unavailable: false,
            session_diagnostics,
        }
    }

    fn go_list_assets(&mut self, setup: Setup, archive: String) -> (r: BackendStep)
        ensures
            (Turn { backend: final(self)@, step: r@ }) == list_assets(
                old(self)@,
                setup@,
                archive@,
            ),
    {
        self.archive_path = archive.clone();
        BackendStep::Ask { ask: Ask::ListAssets { archive }, stage: Stage::Assets { setup } }
    }

    fn begin_setup(&mut self, p: &Json) -> (r: BackendStep)
        ensures
            (Turn { backend: final(self)@, step: r@ }) == initialize(old(self)@, p@),
    {
        let data_root = text(p, "data_root");
        let key = match hex_decode(text(p, "key").as_str()) {
            Ok(key) => key,
            Err(_) => {
                return refusal(Fault::InvalidKey);
            },
        };
        if key.len() != 32 {
            return refusal(Fault::InvalidKeyLength);
        }
        let account = text(p, "account");
        if account.as_str().is_empty() {
            return refusal(Fault::AccountRequired);
        }
        let uin = text(p, "image_uin");
        self.image_config_unavailable = match p.flag_at("image_config_unavailable") {
            Some(b) => b,
            None => false,
        };
        let archive = text(p, "index_path");
        let setup = Setup { data_root, key, account };
        if uin.as_str().is_empty() {
            self.image_key = None;
            return self.go_list_assets(setup, archive);
        }
        if uin.as_str().unicode_len() > 32 || !only_digits(uin.as_str()) {
            return refusal(Fault::InvalidImageConfig);
        }
        let account = setup.account.clone();
        BackendStep::Ask {
            ask: Ask::DeriveImageKey { uin, account },
            stage: Stage::ImageKey { setup, archive },
        }
    }

    fn begin_grant(&self, index: &Index, p: &Json) -> (r: BackendStep)
        ensures
            (Turn { backend: self@, step: r@ }) == grant_begin(self@, p@),
    {
        if self.source.is_none() {
            return refusal(Fault::SourceUnavailable);
        }
        let id = text(p, "conversation_id");
        if id.as_str().is_empty() {
            return refusal(Fault::ConversationRequired);
        }
        let script = index.grant(id.as_str(), text(p, "name").as_str());
        BackendStep::Ask {
            ask: Ask::Statements { script, atomic: true },
            stage: Stage::Granted { id },
        }
    }

    fn begin_quota(&self, p: &Json) -> (r: BackendStep)
        ensures
            (Turn { backend: self@, step: r@ }) == quota_begin(self@, p@),
    {
        match p.signed_at("bytes") {
            Some(n) => if n >= MIN_QUOTA {
                let s = Statement::of1(Form::SetQuota, SqlValue::Text(decimal_text(n)));
                BackendStep::Ask { ask: run_of(script1(s)), stage: Stage::Acknowledged }
            } else {
                refusal(Fault::InvalidQuota)
            },
            None => refusal(Fault::InvalidQuota),
        }
    }

    fn serve_request(&self, index: &Index, method: &str, p: &Json) -> (r: BackendStep)
        ensures
            (Turn { backend: self@, step: r@ }) == serve(self@, method@, p@),
    {
        if same(method, "status") {
            BackendStep::Ask { ask: Ask::MeasureArchive, stage: Stage::Measured }
        } else if same(method, "find_conversations") {
            from_archive(index.list(text(p, "query").as_str(), false))
        } else if same(method, "local_list") {
            let all = String::new();
            from_archive(index.list(all.as_str(), true))
        } else if same(method, "local_discover") {
            if self.source.is_none() {
                return refusal(Fault::SourceUnavailable);
            }
            BackendStep::Ask {
                ask: Ask::FindContacts { keyword: text(p, "query"), limit: 200 },
                stage: Stage::Contacts,
            }
        } else if same(method, "local_grant") {
            self.begin_grant(index, p)
        } else if same(method, "local_revoke") {
            let delete = match p.flag_at("delete") {
                Some(b) => b,
                None => false,
            };
            let script = index.revoke(text(p, "conversation_id").as_str(), delete);
            BackendStep::Ask {
                ask: Ask::Statements { script, atomic: true },
                stage: Stage::Acknowledged,
            }
        } else if same(method, "local_quota") {
            self.begin_quota(p)
        } else if same(method, "sync") {
            match &self.source {
                Some(db) => from_sync(sync(db)),
                None => refusal(Fault::SourceUnavailable),
            }
        } else if same(method, "get_messages") || same(method, "search_messages") {
            from_archive(index.query(p, false))
        } else if same(method, "get_updates") {
            from_archive(index.query(p, true))
        } else if same(method, "list_members") {
            from_archive(index.members(p))
        } else if same(method, "get_message_context") {
            let id = text(p, "message_id");
            let s = Statement::of1(Form::MessageHome, bind(id.as_str()));
            BackendStep::Ask {
                ask: run_of(script1(s)),
                stage: Stage::Home { id, count: count_of_context(p) },
            }
        } else if same(method, "authorize_message") || same(method, "get_media") {
            let id = text(p, "message_id");
            let s = Statement::of1(Form::MessageData, SqlValue::Text(id));
            BackendStep::Ask {
                ask: run_of(script1(s)),
                stage: Stage::Message { media: same(method, "get_media") },
            }
        } else {
            refusal(Fault::UnknownMethod)
        }
    }

    /// Takes a request: what to do first, or the answer.
    pub fn request(&mut self, method: &str, p: &Json) -> (r: BackendStep)
        ensures
            (Turn { backend: final(self)@, step: r@ }) == requested(old(self)@, method@, p@),
    {
        if same(method, "initialize") {
            return self.begin_setup(p);
        }
        match &self.index {
            Some(index) => self.serve_request(index, method, p),
            None => refusal(Fault::SetupRequired),
        }
    }
}

fn run_of(script: Vec<Statement>) -> (r: Ask)
    ensures
        r@ == run(crate::sql::script_view(script@)),
{
    Ask::Statements { script, atomic: false }
}

fn from_archive(step: Step) -> (r: BackendStep)
    ensures
        forall|b: BackendV| (Turn { backend: b, step: r@ }) == #[trigger] after_archive(b, step@),
{
    match step {
        Step::Ask { script, next } => BackendStep::Ask {
            ask: run_of(script),
            stage: Stage::Archive { next },
        },
        Step::Done(r) => BackendStep::Done(r),
    }
}

fn from_sync(step: SyncStep) -> (r: BackendStep)
    ensures
        forall|b: BackendV| (Turn { backend: b, step: r@ }) == #[trigger] after_sync(b, step@),
{
    match step {
        SyncStep::Ask { ask, next } => match ask {
            SyncAsk::Statements { script, atomic } => BackendStep::Ask {
                ask: Ask::Statements { script, atomic },
                stage: Stage::Sync { next },
            },
            other => BackendStep::Ask {
                ask: Ask::Sync { ask: other },
                stage: Stage::Sync { next },
            },
        },
        SyncStep::Done(Ok(())) => BackendStep::Done(Ok(flag_json("ok"))),
        SyncStep::Done(Err(f)) => refusal(f),
    }
}

fn from_media(msg: Json, step: MediaStep) -> (r: BackendStep)
    ensures
        forall|b: BackendV|
            (Turn { backend: b, step: r@ }) == #[trigger] after_media(b, msg@, step@),
{
    match step {
        MediaStep::Ask { ask, next } => BackendStep::Ask {
            ask: Ask::Media { ask },
            stage: Stage::Media { msg, next },
        },
        MediaStep::Done(r) => BackendStep::Done(r),
    }
}


fn from_open(setup: Setup, step: OpenStep) -> (r: BackendStep)
    ensures
        forall|b: BackendV|
            (Turn { backend: b, step: r@ }) == #[trigger] after_open(b, setup@, step@),
{
    match step {
        OpenStep::Ask { script, next } => BackendStep::Ask {
            ask: run_of(script),
            stage: Stage::Opening { setup, next },
        },
        OpenStep::Done(Ok(index)) => BackendStep::Ask {
            ask: Ask::ProtectArchive,
            stage: Stage::Protected { setup, index },
        },
        OpenStep::Done(Err(f)) => refusal(f),
    }
}

fn retry_step(setup: Setup) -> (r: BackendStep)
    ensures
        forall|b: BackendV|
            (Turn { backend: b, step: r@ }) == #[trigger] retry_imports(b, setup@),
{
    BackendStep::Ask {
        ask: run_of(script1(Statement::of0(Form::RetryColumnErrors))),
        stage: Stage::Retried { setup },
    }
}

fn to_status() -> (r: BackendStep)
    ensures
        forall|b: BackendV| (Turn { backend: b, step: r@ }) == #[trigger] measure(b),
{
    BackendStep::Ask { ask: Ask::MeasureArchive, stage: Stage::Measured }
}

fn probe_sessions(db: WechatDb) -> (r: BackendStep)
    ensures
        r@ == (BackendStepV::Ask {
            ask: AskV::ExplainSessions {
                sql: "EXPLAIN QUERY PLAN "@ + session_probe().sql,
                values: session_probe().values,
            },
            stage: StageV::SessionPlan { db: db@, search: session_probe() },
        }),
{
    let nobody = String::new();
    let search = db.session_changes_page(0, nobody.as_str(), 1);
    assert(search@.values =~= session_probe().values);
    BackendStep::Ask {
        ask: Ask::ExplainSessions {
            sql: search.explanation(),
            values: copy_values(search.values()),
        },
        stage: Stage::SessionPlan { db, search },
    }
}

fn above(bytes: u64, quota: i64) -> (r: bool)
    ensures
        r == (bytes > unsigned(quota)),
{
    if quota >= 0 {
        bytes > quota as u64
    } else {
        bytes > u64::MAX - (-(quota + 1)) as u64
    }
}

impl Backend {
    fn status(&self, bytes: u64, quota: i64, rows: &Vec<ConversationRow>) -> (r: Json)
        ensures
            r@ == status_answer(self@, bytes, quota, crate::sql::conversations_view(rows@)),
    {
        let error = match &self.error {
            Some(e) => Some(e.clone()),
            None => None,
        };
        let mut o: Vec<Field> = Vec::new();
        put(&mut o, "source_available", Json::Bool(self.source.is_some()));
        put(&mut o, "session_index_diagnostics", texts_json(&self.session_diagnostics));
        put(&mut o, "image_key_configured", Json::Bool(self.image_key.is_some()));
        put(&mut o, "image_config_unavailable", Json::Bool(self.image_config_unavailable));
        put(&mut o, "live_sync_ready", Json::Bool(false));
        put(&mut o, "compatibility", text_or_null_json(error));
        put(&mut o, "index_bytes", Json::Uint(bytes));
        put(&mut o, "quota_bytes", Json::Int(quota));
        put(&mut o, "quota_warning", Json::Bool(above(bytes, quota)));
        put(&mut o, "conversations", list_of(listed(rows)));
        put(&mut o, "archive_semantics", str_json("first_observed"));
        assert(crate::json::fields_view(o@) =~= status_answer(
            self@,
            bytes,
            quota,
            crate::sql::conversations_view(rows@),
        )->Obj_0);
        object_of(o)
    }

    fn take_source(&mut self, db: Option<WechatDb>) -> (r: BackendStep)
        ensures
            (Turn { backend: final(self)@, step: r@ }) == setup_step(
                old(self)@,
                StageV::Source,
                (EventV::Source {
                    db: match db {
                        Some(db) => Some(db@),
                        None => None,
                    },
                }),
            ),
    {
        match db {
            None => {
                self.source = None;
                self.has_import_work = false;
                self.error = Some("source_unavailable_or_invalid_key".to_owned());
                to_status()
            },
            Some(db) => BackendStep::Ask {
                ask: Ask::DescribeSessions,
                stage: Stage::Sessions { db },
            },
        }
    }

    fn take_sessions(&mut self, db: WechatDb, table: Option<SessionTable>) -> (r: BackendStep)
        ensures
            (Turn { backend: final(self)@, step: r@ }) == setup_step(
                old(self)@,
                StageV::Sessions { db: db@ },
                (EventV::Sessions {
                    table: match table {
                        Some(t) => Some(t@),
                        None => None,
                    },
                }),
            ),
    {
        let lines = match table {
            Some(t) => db.session_index_diagnostics(&t.indexes, &t.plan),
            None => {
                let v = vec!["schema_diagnostic_failed".to_owned()];
                assert(crate::text::texts_view(v@) =~= seq!["schema_diagnostic_failed"@]);
                v
            },
        };
        self.session_diagnostics = lines;
        probe_sessions(db)
    }

    fn take_plan(&mut self, db: WechatDb, search: Search, plan: Option<Vec<String>>) -> (r:
        BackendStep)
        ensures
            (Turn { backend: final(self)@, step: r@ }) == setup_step(
                old(self)@,
                StageV::SessionPlan { db: db@, search: search@ },
                (EventV::SessionPlan {
                    plan: match plan {
                        Some(v) => Some(crate::text::texts_view(v@)),
                        None => None,
                    },
                }),
            ),
    {
        if let Some(plan) = plan {
            if let Ok(read) = search.approve(&plan) {
                return BackendStep::Ask {
                    ask: Ask::ReadSessions { read },
                    stage: Stage::SessionsRead { db },
                };
            }
        }
        self.error = Some("incompatible_session_range_index".to_owned());
        self.source = Some(db);
        to_status()
    }

    fn resume_setup(&mut self, stage: Stage, event: Event) -> (r: BackendStep)
        requires
            is_setup(stage@),
        ensures
            may_follow(
                old(self)@,
                stage@,
                event@,
                Turn { backend: final(self)@, step: r@ },
            ),
    {
        match (stage, event) {
            (Stage::ImageKey { setup, archive }, Event::ImageKey { key }) => {
                self.image_key = Some(key);
                self.go_list_assets(setup, archive)
            },
            (Stage::Assets { setup }, Event::Assets { entries }) => BackendStep::Ask {
                ask: Ask::RemoveAssets { which: stale_entries(&entries) },
                stage: Stage::Cleaned { setup },
            },
            (Stage::Cleaned { setup }, Event::Done) => BackendStep::Ask {
                ask: Ask::OpenArchive { archive: self.archive_path.clone() },
                stage: Stage::Connected { setup },
            },
            (Stage::Connected { setup }, Event::Done) => {
                let step = Index::open(setup.account.as_str());
                from_open(setup, step)
            },
            (Stage::Opening { setup, next }, Event::Answers { answers }) => {
                let step = Index::opening(next, answers);
                let ghost open = step@;
                let r = from_open(setup, step);
                assert((Turn { backend: self@, step: r@ }) == after_open(self@, setup@, open));
                r
            },
            (Stage::Protected { setup, index }, Event::Done) => {
                self.index = Some(index);
                BackendStep::Ask {
                    ask: run_of(script1(Statement::of0(Form::Migrated))),
                    stage: Stage::Migrated { setup },
                }
            },
            (Stage::Migrated { setup }, Event::Answers { answers }) => {
                if answers.len() != 1 {
                    return refusal(Fault::UnexpectedAnswer);
                }
                assert(crate::sql::answers_view(answers@)[0] == answers@[0]@);
                match &answers[0] {
                    Answer::Number(n) => if *n != 0 {
                        retry_step(setup)
                    } else {
                        BackendStep::Ask {
                            ask: Ask::Statements { script: migration_script(), atomic: true },
                            stage: Stage::Restarted { setup },
                        }
                    },
                    _ => refusal(Fault::UnexpectedAnswer),
                }
            },
            (Stage::Restarted { setup }, Event::Answers { .. }) => retry_step(setup),
            (Stage::Retried { setup }, Event::Answers { .. }) => {
                self.has_import_work = true;
                BackendStep::Ask {
                    ask: Ask::FindStorage { data_root: setup.data_root.clone() },
                    stage: Stage::Storage { setup },
                }
            },
            (Stage::Storage { setup }, Event::Storage { nested }) => BackendStep::Ask {
                ask: Ask::OpenSource { data_root: setup.data_root, nested, key: setup.key },
                stage: Stage::Source,
            },
            (Stage::Source, Event::Source { db }) => self.take_source(db),
            (Stage::Sessions { db }, Event::Sessions { table }) => self.take_sessions(db, table),
            (Stage::SessionPlan { db, search }, Event::SessionPlan { plan }) => self.take_plan(
                db,
                search,
                plan,
            ),
            (Stage::SessionsRead { db }, Event::SessionsRead { ok }) => {
                self.error = Some(
                    if ok {
                        "live_sync_unverified: session timestamp and shard routing are not a durable change log".to_owned()
                    } else {
                        "incompatible_session_range_index".to_owned()
                    },
                );
                self.source = Some(db);
                to_status()
            },
            _ => refusal(Fault::UnexpectedAnswer),
        }
    }

    fn take_status(&self, bytes: u64, answers: &Vec<Answer>) -> (r: BackendStep)
        ensures
            (Turn { backend: self@, step: r@ }) == serve_step(
                self@,
                StageV::Status { bytes },
                EventV::Answers { answers: crate::sql::answers_view(answers@) },
            ),
    {
        let ghost all = crate::sql::answers_view(answers@);
        if answers.len() != 2 {
            return refusal(Fault::UnexpectedAnswer);
        }
        assert(all[0] == answers@[0]@ && all[1] == answers@[1]@);
        match (&answers[0], &answers[1]) {
            (Answer::Number(quota), Answer::Conversations(rows)) => BackendStep::Done(
                Ok(self.status(bytes, *quota, rows)),
            ),
            _ => refusal(Fault::UnexpectedAnswer),
        }
    }

    fn take_home(&self, id: String, count: i64, answers: &Vec<Answer>) -> (r: BackendStep)
        ensures
            (Turn { backend: self@, step: r@ }) == serve_step(
                self@,
                StageV::Home { id: id@, count },
                EventV::Answers { answers: crate::sql::answers_view(answers@) },
            ),
    {
        let ghost all = crate::sql::answers_view(answers@);
        if answers.len() != 1 {
            return refusal(Fault::UnexpectedAnswer);
        }
        assert(all[0] == answers@[0]@);
        match &answers[0] {
            Answer::Home(Some((conversation, time))) => {
                let s = Statement::of4(
                    Form::Context,
                    bind(conversation.as_str()),
                    SqlValue::Int(*time),
                    SqlValue::Text(id),
                    SqlValue::Int(count),
                );
                BackendStep::Ask { ask: run_of(script1(s)), stage: Stage::Context }
            },
            Answer::Home(None) => refusal(Fault::MessageUnavailable),
            _ => refusal(Fault::UnexpectedAnswer),
        }
    }

    fn take_context(&self, answers: &Vec<Answer>) -> (r: BackendStep)
        ensures
            (Turn { backend: self@, step: r@ }) == serve_step(
                self@,
                StageV::Context,
                EventV::Answers { answers: crate::sql::answers_view(answers@) },
            ),
    {
        let ghost all = crate::sql::answers_view(answers@);
        if answers.len() != 1 {
            return refusal(Fault::UnexpectedAnswer);
        }
        assert(all[0] == answers@[0]@);
        match &answers[0] {
            Answer::Texts(data) => match parse_items(data) {
                Ok(items) => BackendStep::Done(Ok(items_json(order(items)))),
                Err(f) => refusal(f),
            },
            _ => refusal(Fault::UnexpectedAnswer),
        }
    }

    fn take_message(&self, media: bool, answers: &Vec<Answer>) -> (r: BackendStep)
        ensures
            (Turn { backend: self@, step: r@ }) == serve_step(
                self@,
                StageV::Message { media },
                EventV::Answers { answers: crate::sql::answers_view(answers@) },
            ),
    {
        let data = match text_answer(answers) {
            Some(Some(data)) => data,
            Some(None) => {
                return refusal(Fault::MessageUnavailable);
            },
            None => {
                return refusal(Fault::UnexpectedAnswer);
            },
        };
        let msg = match parse(data.as_str().as_bytes()) {
            Ok(msg) => msg,
            Err(e) => {
                return refusal(Fault::Other(e));
            },
        };
        if !media {
            return BackendStep::Done(Ok(flag_json("authorized")));
        }
        match &self.source {
            Some(db) => {
                let step = crate::media::extract(db.has_account_dir, &msg);
                from_media(msg, step)
            },
            None => refusal(Fault::SourceUnavailable),
        }
    }

    fn resume_request(&mut self, stage: Stage, event: Event) -> (r: BackendStep)
        requires
            sizes_fit(event@),
        ensures
            (Turn { backend: final(self)@, step: r@ }) == serve_step(
                old(self)@,
                stage@,
                event@,
            ),
    {
        match (stage, event) {
            (Stage::Measured, Event::Sizes { archive, log }) => {
                let all = String::new();
                BackendStep::Ask {
                    ask: run_of(
                        script2(
                            Statement::of0(Form::Quota),
                            list_statement(all.as_str(), false),
                        ),
                    ),
                    stage: Stage::Status { bytes: archive + log },
                }
            },
            (Stage::Status { bytes }, Event::Answers { answers }) => self.take_status(
                bytes,
                &answers,
            ),
            (Stage::Archive { next }, Event::Answers { answers }) => match &self.index {
                Some(index) => from_archive(index.resume(next, answers)),
                None => refusal(Fault::SetupRequired),
            },
            (Stage::Contacts, Event::Contacts { contacts }) => BackendStep::Done(
                Ok(contacts_json(&contacts)),
            ),
            (Stage::Granted { id }, Event::Answers { .. }) => {
                let script = match &self.source {
                    Some(db) => shard_script(id.as_str(), &db.source_shards()),
                    None => {
                        return refusal(Fault::SourceUnavailable);
                    },
                };
                self.has_import_work = true;
                BackendStep::Ask { ask: run_of(script), stage: Stage::Positions { id } }
            },
            (Stage::Positions { id }, Event::Answers { .. }) => BackendStep::Ask {
                ask: Ask::FindRooms { username: id.clone() },
                stage: Stage::Rooms { id },
            },
            (Stage::Rooms { id }, Event::Rooms { rooms }) => match rooms {
                Some(rooms) => BackendStep::Ask {
                    ask: run_of(member_script(id.as_str(), &rooms)),
                    stage: Stage::Members { id },
                },
                None => BackendStep::Done(Ok(granted_json(id))),
            },
            (Stage::Members { id }, Event::Answers { .. }) => BackendStep::Done(
                Ok(granted_json(id)),
            ),
            (Stage::Acknowledged, Event::Answers { .. }) => BackendStep::Done(
                Ok(flag_json("ok")),
            ),
            (Stage::Sync { next }, Event::Answers { answers }) => match &self.index {
                Some(index) => from_sync(syncing(index, next, SyncEvent::Answers { answers })),
                None => refusal(Fault::SetupRequired),
            },
            (Stage::Sync { next }, Event::Sync { event }) => match &self.index {
                Some(index) => from_sync(syncing(index, next, event)),
                None => refusal(Fault::SetupRequired),
            },
            (Stage::Home { id, count }, Event::Answers { answers }) => self.take_home(
                id,
                count,
                &answers,
            ),
            (Stage::Context, Event::Answers { answers }) => self.take_context(&answers),
            (Stage::Message { media }, Event::Answers { answers }) => self.take_message(
                media,
                &answers,
            ),
            (Stage::Media { msg, next }, Event::Media { event }) => {
                let step = crate::media::resume(&msg, &self.image_key, next, event);
                from_media(msg, step)
            },
            _ => refusal(Fault::UnexpectedAnswer),
        }
    }

    /// Goes on with a request, given what came of what it asked for.
    pub fn resume(&mut self, stage: Stage, event: Event) -> (r: BackendStep)
        requires
            sizes_fit(event@),
        ensures
            may_follow(
                old(self)@,
                stage@,
                event@,
                Turn { backend: final(self)@, step: r@ },
            ),
    {
        match &stage {
            Stage::ImageKey { .. }
            | Stage::Assets { .. }
            | Stage::Cleaned { .. }
            | Stage::Connected { .. }
            | Stage::Opening { .. }
            | Stage::Protected { .. }
            | Stage::Migrated { .. }
            | Stage::Restarted { .. }
            | Stage::Retried { .. }
            | Stage::Storage { .. }
            | Stage::Source
            | Stage::Sessions { .. }
            | Stage::SessionPlan { .. }
            | Stage::SessionsRead { .. } => self.resume_setup(stage, event),
            _ => self.resume_request(stage, event),
        }
    }
}


/// Until an archive has been set up, every request but the one that sets it up
/// is refused, and nothing is asked for or kept.
pub proof fn law_nothing_before_set_up(b: BackendV, method: Seq<char>, p: JsonV)
    requires
        b.index is None,
        method != "initialize"@,
    ensures
        requested(b, method, p) == refuse(b, "setup_required"@),
{
}

/// Whether a request sets something: the archive, permissions, the quota or what
/// is archived.
pub open spec fn sets_something(method: Seq<char>) -> bool {
    method == "initialize"@ || method == "local_grant"@ || method == "local_revoke"@ || method
        == "local_quota"@ || method == "sync"@
}

/// Whether a request is served.
pub open spec fn is_served(method: Seq<char>) -> bool {
    sets_something(method) || method == "status"@ || method == "find_conversations"@ || method
        == "local_list"@ || method == "local_discover"@ || method == "get_messages"@ || method
        == "search_messages"@ || method == "get_updates"@ || method == "list_members"@ || method
        == "get_message_context"@ || method == "authorize_message"@ || method == "get_media"@
}

/// A request that is not served is refused and changes nothing.
pub proof fn law_unknown_methods_are_refused(b: BackendV, method: Seq<char>, p: JsonV)
    requires
        b.index is Some,
        !is_served(method),
    ensures
        requested(b, method, p) == refuse(b, "unknown_method"@),
{
}

/// Whether a turn leaves the backend as it was and runs nothing on the archive
/// but questions.
pub open spec fn only_asks(b: BackendV, turn: Turn) -> bool {
    &&& turn.backend == b
    &&& turn.step matches BackendStepV::Ask { ask, .. } ==> (
    ask matches AskV::Statements { script, .. } ==> forall|i: int|
        0 <= i < script.len() ==> (#[trigger] script[i]).reads_only())
}

/// Whether a stage belongs to a request that sets nothing.
pub open spec fn is_reading(stage: StageV) -> bool {
    stage is Measured || stage is Status || stage is Archive || stage is Contacts || stage is Home
        || stage is Context || stage is Message || stage is Media
}

/// Whether a turn of a request that sets nothing leaves all as it is, and goes on
/// in the same way.
pub open spec fn keeps_reading(b: BackendV, turn: Turn) -> bool {
    only_asks(b, turn) && (turn.step matches BackendStepV::Ask { stage, .. } ==> is_reading(stage))
}

#[verifier::rlimit(60)]
proof fn lemma_reading_begins(b: BackendV, method: Seq<char>, p: JsonV)
    requires
        b.index is Some,
        !sets_something(method),
    ensures
        keeps_reading(b, requested(b, method, p)),
{
}

#[verifier::rlimit(60)]
proof fn lemma_reading_goes_on(b: BackendV, stage: StageV, event: EventV)
    requires
        is_reading(stage),
    ensures
        keeps_reading(b, serve_step(b, stage, event)),
{
}

/// A request that sets nothing leaves the backend as it is, runs nothing on the
/// archive but questions, and goes on in the same way to its end.
pub proof fn law_reading_changes_nothing(
    b: BackendV,
    method: Seq<char>,
    p: JsonV,
    stage: StageV,
    event: EventV,
)
    ensures
        b.index is Some && !sets_something(method) ==> keeps_reading(b, requested(b, method, p)),
        is_reading(stage) ==> keeps_reading(b, serve_step(b, stage, event)),
{
    if b.index is Some && !sets_something(method) {
        lemma_reading_begins(b, method, p);
    }
    if is_reading(stage) {
        lemma_reading_goes_on(b, stage, event);
    }
}

/// A sync leaves what the backend keeps as it is. It writes to the archive only
/// where a shard is begun for a conversation, or where a page is filed together
/// with the place to go on from, and that all at once.
pub proof fn law_sync_writes_pages_at_once(b: BackendV, p: JsonV, next: SyncNextV, event: EventV)
    requires
        b.index is Some,
    ensures
        requested(b, "sync"@, p) == match b.source {
            None => refuse(b, "source_unavailable"@),
            Some(db) => after_sync(b, crate::sync::sync_begin(db)),
        },
        serve_step(b, StageV::Sync { next }, event).backend == b,
        serve_step(b, StageV::Sync { next }, event).step matches BackendStepV::Ask { ask, .. }
            ==> (ask matches AskV::Statements { script, atomic } ==> {
            ||| atomic && exists|
                id: Seq<char>,
                shard: Seq<char>,
                batch: Seq<SourceMessageV>,
                last: i64,
            | script == #[trigger] crate::import::page_script(id, shard, batch, last)
            ||| forall|i: int|
                0 <= i < script.len() ==> (#[trigger] script[i]).reads_only() || script[i] is Fixed
                    && script[i]->Fixed_form == Form::InsertPosition
        }),
{
    reveal_strlit("sync");
    reveal_strlit("initialize");
    reveal_strlit("status");
    reveal_strlit("find_conversations");
    reveal_strlit("local_list");
    reveal_strlit("local_discover");
    reveal_strlit("local_grant");
    reveal_strlit("local_revoke");
    reveal_strlit("local_quota");
    assert("sync"@.len() == 4);
    assert("initialize"@.len() == 10);
    assert("status"@.len() == 6);
    assert("find_conversations"@.len() == 18);
    assert("local_list"@.len() == 10);
    assert("local_discover"@.len() == 14);
    assert("local_grant"@.len() == 11);
    assert("local_revoke"@.len() == 12);
    assert("local_quota"@.len() == 11);
}

/// Permissions change all at once or not at all: what allowing or withdrawing a
/// conversation runs, it runs together with the count that ends all cursors.
pub proof fn law_permissions_change_at_once(b: BackendV, p: JsonV)
    requires
        b.index is Some,
    ensures
        requested(b, "local_grant"@, p).step matches BackendStepV::Ask { ask, .. } ==> ask
            == commit(
            crate::index::grant_script(p.text_at("conversation_id"@), p.text_at("name"@)),
        ) && ask->script.last() == crate::sql::st0(Form::BumpGeneration),
        requested(b, "local_revoke"@, p).step matches BackendStepV::Ask { ask, .. } && ask
            == commit(
            crate::index::revoke_script(
                p.text_at("conversation_id"@),
                p.at("delete"@).as_flag() == Some(true),
            ),
        ) && ask->script.last() == crate::sql::st0(Form::BumpGeneration),
{
    reveal_strlit("initialize");
    reveal_strlit("status");
    reveal_strlit("find_conversations");
    reveal_strlit("local_list");
    reveal_strlit("local_discover");
    reveal_strlit("local_grant");
    reveal_strlit("local_revoke");
    assert("local_grant"@.len() == 11);
    assert("local_revoke"@.len() == 12);
    assert("initialize"@.len() == 10);
    assert("status"@.len() == 6);
    assert("find_conversations"@.len() == 18);
    assert("local_list"@.len() == 10);
    assert("local_discover"@.len() == 14);
}

} // verus!
