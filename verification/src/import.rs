//! The import of history: one page of one conversation at a time, filed
//! together with the place to go on from.
use vstd::prelude::*;

use crate::backend::{Backend, BackendV};
use crate::fault::Fault;
use crate::index::{script1, Index};
use crate::source::{
    read_source_connection, DbFault, DbFaultV, ReadAsk, ReadAskV, ReadEvent, ReadEventV, ReadNext,
    ReadNextV, ReadStep, ReadStepV, SourceMessage, SourceMessageV,
};
use crate::sql::{bind, Answer, AnswerV, Form, SqlV, SqlValue, Statement, StatementV};
use crate::text::{concat, decimal_text, parse_decimal, parse_refusal};

verus! {

/// How many messages a page may hold.
pub const PAGE: usize = 128;

/// The type of a value in a database.
#[derive(Clone, Copy, PartialEq, Eq, Structural)]
pub enum ColumnKind {
    Null,
    Integer,
    Real,
    Text,
    Blob,
}

/// Why a page could not be read. Nothing of what the database holds is kept.
#[derive(Clone, Copy, PartialEq, Eq, Structural)]
pub enum HistoryFault {
    /// A column holds a value of another type.
    ColumnType { column: u32, kind: ColumnKind },
    /// The database refused the statement.
    Sql,
    /// No index serves the read.
    RangeIndex,
    /// The content could not be unpacked.
    Decode,
    /// The key does not open the database.
    Key,
    /// Anything else.
    Other,
}

/// The name of a type.
pub open spec fn kind_name(kind: ColumnKind) -> Seq<char> {
    match kind {
        ColumnKind::Null => "Null"@,
        ColumnKind::Integer => "Integer"@,
        ColumnKind::Real => "Real"@,
        ColumnKind::Text => "Text"@,
        ColumnKind::Blob => "Blob"@,
    }
}

/// The state of a conversation whose history could not be read.
pub open spec fn failed_state(fault: HistoryFault) -> Seq<char> {
    match fault {
        HistoryFault::ColumnType { column, kind } => "history_column_type_error:"@
            + crate::text::decimal(column as int) + ":"@ + kind_name(kind),
        HistoryFault::Sql => "history_sql_error"@,
        HistoryFault::RangeIndex => "history_range_index_missing"@,
        HistoryFault::Decode => "history_decode_error"@,
        HistoryFault::Key => "history_key_error"@,
        HistoryFault::Other => "history_read_failed"@,
    }
}

/// The kind of failure that a refusal is.
pub open spec fn kind_of_refusal(f: DbFaultV) -> HistoryFault {
    match f {
        DbFaultV::NoRangeIndex(_) => HistoryFault::RangeIndex,
        _ => HistoryFault::Other,
    }
}

/// What to do outside.
pub enum ImportAsk {
    /// Run statements on the archive, all of them or none where that is asked.
    Statements { script: Vec<Statement>, atomic: bool },
    /// Read a page of the source.
    Read { ask: ReadAsk },
}

/// The mathematical view of that.
pub enum ImportAskV {
    Statements { script: Seq<StatementV>, atomic: bool },
    Read { ask: ReadAskV },
}

impl View for ImportAsk {
    type V = ImportAskV;

    open spec fn view(&self) -> ImportAskV {
        match self {
            ImportAsk::Statements { script, atomic } => ImportAskV::Statements {
                script: crate::sql::script_view(script@),
                atomic: *atomic,
            },
            ImportAsk::Read { ask } => ImportAskV::Read { ask: ask@ },
        }
    }
}

/// What came of it.
pub enum ImportEvent {
    /// What each statement gave back.
    Answers { answers: Vec<Answer> },
    /// What the read came to.
    Read { event: ReadEvent },
    /// The read failed.
    Failed { fault: HistoryFault },
}

/// The mathematical view of that.
pub enum ImportEventV {
    Answers { answers: Seq<AnswerV> },
    Read { event: ReadEventV },
    Failed { fault: HistoryFault },
}

impl View for ImportEvent {
    type V = ImportEventV;

    open spec fn view(&self) -> ImportEventV {
        match self {
            ImportEvent::Answers { answers } => ImportEventV::Answers {
                answers: crate::sql::answers_view(answers@),
            },
            ImportEvent::Read { event } => ImportEventV::Read { event: event@ },
            ImportEvent::Failed { fault } => ImportEventV::Failed { fault: *fault },
        }
    }
}

/// Where the import stands.
pub enum ImportNext {
    /// What is pending was asked for.
    Pending,
    /// A page is being read.
    Reading { conversation: String, shard: String, next: ReadNext },
    /// What was read, or why nothing was, is being filed.
    Filed,
}

/// The mathematical view of that.
pub enum ImportNextV {
    Pending,
    Reading { conversation: Seq<char>, shard: Seq<char>, next: ReadNextV },
    Filed,
}

impl View for ImportNext {
    type V = ImportNextV;

    open spec fn view(&self) -> ImportNextV {
        match self {
            ImportNext::Pending => ImportNextV::Pending,
            ImportNext::Reading { conversation, shard, next } => ImportNextV::Reading {
                conversation: conversation@,
                shard: shard@,
                next: next@,
            },
            ImportNext::Filed => ImportNextV::Filed,
        }
    }
}

/// How the import ended: as it should, or with the text of a failure.
pub type Imported = Result<(), Seq<char>>;

/// What to do next to import.
pub enum ImportStep {
    Ask { ask: ImportAsk, next: ImportNext },
    Done(Result<(), Fault>),
}

/// The mathematical view of that.
pub enum ImportStepV {
    Ask { ask: ImportAskV, next: ImportNextV },
    Done(Imported),
}

impl View for ImportStep {
    type V = ImportStepV;

    open spec fn view(&self) -> ImportStepV {
        match self {
            ImportStep::Ask { ask, next } => ImportStepV::Ask { ask: ask@, next: next@ },
            ImportStep::Done(Ok(())) => ImportStepV::Done(Imported::Ok(())),
            ImportStep::Done(Err(f)) => ImportStepV::Done(Imported::Err(f@)),
        }
    }
}

/// The backend and what to do next.
pub struct ImportTurn {
    pub backend: BackendV,
    pub step: ImportStepV,
}

/// Nothing more to do for now.
pub open spec fn rest(b: BackendV) -> ImportTurn {
    ImportTurn { backend: b, step: ImportStepV::Done(Imported::Ok(())) }
}

/// What importing asks for first. Without work, or without an archive or a
/// source, it asks for nothing.
pub open spec fn import_begin(b: BackendV) -> ImportTurn {
    if !b.has_import_work || b.index is None || b.source is None {
        rest(b)
    } else {
        ImportTurn {
            backend: b,
            step: ImportStepV::Ask {
                ask: ImportAskV::Statements {
                    script: seq![crate::sql::st0(Form::PendingImport)],
                    atomic: false,
                },
                next: ImportNextV::Pending,
            },
        }
    }
}

/// Files the messages of a page.
pub open spec fn batch_script(batch: Seq<SourceMessageV>) -> Seq<StatementV>
    decreases batch.len(),
{
    if batch.len() == 0 {
        Seq::empty()
    } else {
        batch_script(batch.drop_last()) + crate::index::insert_script(batch.last())
    }
}

/// Notes the place to go on from, and the end of the import once every shard
/// is done. A page that is not full is the last of its shard.
pub open spec fn progress_script(
    conversation: Seq<char>,
    shard: Seq<char>,
    last: i64,
    done: bool,
) -> Seq<StatementV> {
    seq![
        crate::sql::st4(
            Form::SetPosition,
            SqlV::Text(conversation),
            SqlV::Text(shard),
            SqlV::Text(crate::text::decimal(last as int)),
            SqlV::Int(
                if done {
                    1
                } else {
                    0
                },
            ),
        ),
        crate::sql::st1(Form::MarkReady, SqlV::Text(conversation)),
    ]
}

/// Files a page and notes the place to go on from.
pub open spec fn page_script(
    conversation: Seq<char>,
    shard: Seq<char>,
    batch: Seq<SourceMessageV>,
    last: i64,
) -> Seq<StatementV> {
    batch_script(batch) + progress_script(conversation, shard, last, batch.len() < PAGE)
}

/// Notes why the history of a conversation could not be read.
pub open spec fn note_failure(conversation: Seq<char>, fault: HistoryFault) -> ImportStepV {
    ImportStepV::Ask {
        ask: ImportAskV::Statements {
            script: seq![
                crate::sql::st2(
                    Form::SetState,
                    SqlV::Text(conversation),
                    SqlV::Text(failed_state(fault)),
                ),
            ],
            atomic: false,
        },
        next: ImportNextV::Filed,
    }
}

/// Goes on as the read of a page says.
pub open spec fn after_read(
    conversation: Seq<char>,
    shard: Seq<char>,
    step: ReadStepV,
) -> ImportStepV {
    match step {
        ReadStepV::Ask { ask, next } => ImportStepV::Ask {
            ask: ImportAskV::Read { ask },
            next: ImportNextV::Reading { conversation, shard, next },
        },
        ReadStepV::Done(batch, last) => ImportStepV::Ask {
            ask: ImportAskV::Statements {
                script: page_script(conversation, shard, batch, last),
                atomic: true,
            },
            next: ImportNextV::Filed,
        },
        ReadStepV::Refused(f) => note_failure(conversation, kind_of_refusal(f)),
    }
}

/// What follows from what is pending.
pub open spec fn after_pending(
    b: BackendV,
    pending: Option<(Seq<char>, Seq<char>, Seq<char>)>,
) -> ImportTurn {
    match pending {
        None => rest(BackendV { has_import_work: false, ..b }),
        Some((conversation, shard, position)) => match (b.source, crate::text::parsed(position)) {
            (None, _) => rest(b),
            (Some(_), None) => ImportTurn {
                backend: b,
                step: ImportStepV::Done(Imported::Err(crate::text::parse_error(position))),
            },
            (Some(db), Some(rowid)) => ImportTurn {
                backend: b,
                step: match crate::source::history_read(db, shard, conversation, rowid, PAGE) {
                    Ok(read) => after_read(
                        conversation,
                        shard,
                        crate::source::read_begin(read),
                    ),
                    Err(f) => note_failure(conversation, kind_of_refusal(f)),
                },
            },
        },
    }
}

/// What comes after each stage of the import.
pub open spec fn import_step(b: BackendV, next: ImportNextV, event: ImportEventV) -> ImportTurn {
    match (next, event) {
        (ImportNextV::Pending, ImportEventV::Answers { answers }) => if answers.len() == 1
            && answers[0] is Import {
            after_pending(b, answers[0]->Import_0)
        } else {
            ImportTurn {
                backend: b,
                step: ImportStepV::Done(Imported::Err("unexpected_answer"@)),
            }
        },
        (
            ImportNextV::Reading { conversation, shard, next },
            ImportEventV::Read { event },
        ) => ImportTurn {
            backend: b,
            step: after_read(conversation, shard, crate::source::read_step(next, event)),
        },
        (ImportNextV::Reading { conversation, .. }, ImportEventV::Failed { fault }) => ImportTurn {
            backend: b,
            step: note_failure(conversation, fault),
        },
        (ImportNextV::Filed, ImportEventV::Answers { .. }) => rest(b),
        _ => ImportTurn {
            backend: b,
            step: ImportStepV::Done(Imported::Err("unexpected_answer"@)),
        },
    }
}

/// While there is no work, importing asks for nothing: neither the archive nor
/// the source is touched, and the backend stays as it is.
pub proof fn law_idle_import_asks_nothing(b: BackendV)
    requires
        !b.has_import_work,
    ensures
        import_begin(b) == rest(b),
{
}

/// The messages of a page and the place to go on from are filed all together
/// or not at all.
pub proof fn law_page_and_position_together(
    b: BackendV,
    conversation: Seq<char>,
    shard: Seq<char>,
    next: ReadNextV,
    event: ReadEventV,
)
    requires
        crate::source::read_step(next, event) is Done,
    ensures
        ({
            let page = crate::source::read_step(next, event);
            import_step(
                b,
                ImportNextV::Reading { conversation, shard, next },
                ImportEventV::Read { event },
            ).step == (ImportStepV::Ask {
                ask: ImportAskV::Statements {
                    script: batch_script(page->Done_0) + progress_script(
                        conversation,
                        shard,
                        page->Done_1,
                        page->Done_0.len() < PAGE,
                    ),
                    atomic: true,
                },
                next: ImportNextV::Filed,
            })
        }),
{
}

/// A page that could not be read files nothing: all that is noted is why, in
/// the state of the conversation.
pub proof fn law_failure_files_nothing(
    b: BackendV,
    conversation: Seq<char>,
    shard: Seq<char>,
    next: ReadNextV,
    fault: HistoryFault,
)
    ensures
        import_step(
            b,
            ImportNextV::Reading { conversation, shard, next },
            ImportEventV::Failed { fault },
        ).step == note_failure(conversation, fault),
{
}

fn name_of_kind(kind: ColumnKind) -> (r: &'static str)
    ensures
        r@ == kind_name(kind),
{
    match kind {
        ColumnKind::Null => "Null",
        ColumnKind::Integer => "Integer",
        ColumnKind::Real => "Real",
        ColumnKind::Text => "Text",
        ColumnKind::Blob => "Blob",
    }
}

/// The state of a conversation whose history could not be read.
pub(crate) fn state_of(fault: HistoryFault) -> (r: String)
    ensures
        r@ == failed_state(fault),
{
    match fault {
        HistoryFault::ColumnType { column, kind } => {
            let s = concat(
                "history_column_type_error:",
                decimal_text(column as i64).as_str(),
            );
            let s = concat(s.as_str(), ":");
            concat(s.as_str(), name_of_kind(kind))
        },
        HistoryFault::Sql => "history_sql_error".to_owned(),
        HistoryFault::RangeIndex => "history_range_index_missing".to_owned(),
        HistoryFault::Decode => "history_decode_error".to_owned(),
        HistoryFault::Key => "history_key_error".to_owned(),
        HistoryFault::Other => "history_read_failed".to_owned(),
    }
}

/// The kind of failure that a refusal is.
pub(crate) fn fault_of(f: &DbFault) -> (r: HistoryFault)
    ensures
        r == kind_of_refusal(f@),
{
    match f {
        DbFault::NoRangeIndex(_) => HistoryFault::RangeIndex,
        _ => HistoryFault::Other,
    }
}

fn failing(conversation: String, fault: HistoryFault) -> (r: ImportStep)
    ensures
        r@ == note_failure(conversation@, fault),
{
    let s = Statement::of2(
        Form::SetState,
        SqlValue::Text(conversation),
        SqlValue::Text(state_of(fault)),
    );
    ImportStep::Ask {
        ask: ImportAsk::Statements { script: script1(s), atomic: false },
        next: ImportNext::Filed,
    }
}

/// Files a page and notes the place to go on from.
pub(crate) fn filing(
    index: &Index,
    conversation: &str,
    shard: &str,
    batch: &Vec<SourceMessage>,
    last: i64,
) -> (r: Vec<Statement>)
    ensures
        crate::sql::script_view(r@) == page_script(
            conversation@,
            shard@,
            crate::source::messages_view(batch@),
            last,
        ),
{
    let ghost all = crate::source::messages_view(batch@);
    let mut out: Vec<Statement> = Vec::new();
    let mut i: usize = 0;
    assert(crate::sql::script_view(out@) =~= batch_script(all.take(0)));
    while i < batch.len()
        invariant
            all == crate::source::messages_view(batch@),
            i <= batch@.len(),
            crate::sql::script_view(out@) == batch_script(all.take(i as int)),
        decreases batch@.len() - i,
    {
        let ghost before = out@;
        assert(all.take(i + 1).drop_last() =~= all.take(i as int));
        assert(all.take(i + 1).last() == batch@[i as int]@);
        let mut more = index.insert(&batch[i]);
        let ghost added = more@;
        out.append(&mut more);
        assert(crate::sql::script_view(out@) =~= crate::sql::script_view(before)
            + crate::sql::script_view(added));
        i = i + 1;
    }
    assert(all.take(all.len() as int) =~= all);
    let done = batch.len() < PAGE;
    let ghost messages = out@;
    out.push(
        Statement::of4(
            Form::SetPosition,
            bind(conversation),
            bind(shard),
            SqlValue::Text(decimal_text(last)),
            SqlValue::Int(
                if done {
                    1
                } else {
                    0
                },
            ),
        ),
    );
    out.push(Statement::of1(Form::MarkReady, bind(conversation)));
    assert(crate::sql::script_view(out@) =~= crate::sql::script_view(messages) + progress_script(
        conversation@,
        shard@,
        last,
        done,
    ));
    out
}

impl Backend {
    /// Begins to import one page, where there is anything to import.
    pub fn import_batch(&mut self) -> (r: ImportStep)
        ensures
            (ImportTurn { backend: final(self)@, step: r@ }) == import_begin(old(self)@),
    {
        if !self.has_import_work || self.index.is_none() || self.source.is_none() {
            return ImportStep::Done(Ok(()));
        }
        ImportStep::Ask {
            ask: ImportAsk::Statements {
                script: script1(Statement::of0(Form::PendingImport)),
                atomic: false,
            },
            next: ImportNext::Pending,
        }
    }

    fn take_page(&self, conversation: String, shard: String, step: ReadStep) -> (r: ImportStep)
        requires
            self@.index is Some,
        ensures
            r@ == after_read(conversation@, shard@, step@),
    {
        match step {
            ReadStep::Ask { ask, next } => ImportStep::Ask {
                ask: ImportAsk::Read { ask },
                next: ImportNext::Reading { conversation, shard, next },
            },
            ReadStep::Done(batch, last) => {
                let script = match &self.index {
                    Some(index) => filing(
                        index,
                        conversation.as_str(),
                        shard.as_str(),
                        &batch,
                        last,
                    ),
                    None => Vec::new(),
                };
                ImportStep::Ask {
                    ask: ImportAsk::Statements { script, atomic: true },
                    next: ImportNext::Filed,
                }
            },
            ReadStep::Refused(f) => failing(conversation, fault_of(&f)),
        }
    }

    fn take_pending(&mut self, pending: &Option<(String, String, String)>) -> (r: ImportStep)
        requires
            old(self)@.index is Some,
        ensures
            (ImportTurn { backend: final(self)@, step: r@ }) == after_pending(
                old(self)@,
                match *pending {
                    Some((c, s, p)) => Some((c@, s@, p@)),
                    None => None,
                },
            ),
    {
        let (conversation, shard, position) = match pending {
            Some((c, s, p)) => (c, s, p),
            None => {
                self.has_import_work = false;
                return ImportStep::Done(Ok(()));
            },
        };
        let db = match &self.source {
            Some(db) => db,
            None => {
                return ImportStep::Done(Ok(()));
            },
        };
        let rowid: i64 = match parse_decimal(position.as_str()) {
            Some(n) => n,
            None => {
                return ImportStep::Done(Err(Fault::Other(parse_refusal(position.as_str()))));
            },
        };
        match db.history_page(shard.as_str(), conversation.as_str(), rowid, PAGE) {
            Ok(read) => self.take_page(
                conversation.clone(),
                shard.clone(),
                read_source_connection(read),
            ),
            Err(f) => failing(conversation.clone(), fault_of(&f)),
        }
    }

    /// Goes on importing. The archive that was open when the import began is
    /// still open.
    pub fn importing(&mut self, next: ImportNext, event: ImportEvent) -> (r: ImportStep)
        requires
            old(self)@.index is Some,
        ensures
            (ImportTurn { backend: final(self)@, step: r@ }) == import_step(
                old(self)@,
                next@,
                event@,
            ),
    {
        match (next, event) {
            (ImportNext::Pending, ImportEvent::Answers { answers }) => {
                if answers.len() != 1 {
                    return ImportStep::Done(Err(Fault::UnexpectedAnswer));
                }
                assert(crate::sql::answers_view(answers@)[0] == answers@[0]@);
                match &answers[0] {
                    Answer::Import(pending) => self.take_pending(pending),
                    _ => ImportStep::Done(Err(Fault::UnexpectedAnswer)),
                }
            },
            (
                ImportNext::Reading { conversation, shard, next },
                ImportEvent::Read { event },
            ) => self.take_page(conversation, shard, crate::source::resume(next, event)),
            (ImportNext::Reading { conversation, .. }, ImportEvent::Failed { fault }) => failing(
                conversation,
                fault,
            ),
            (ImportNext::Filed, ImportEvent::Answers { .. }) => ImportStep::Done(Ok(())),
            _ => ImportStep::Done(Err(Fault::UnexpectedAnswer)),
        }
    }
}

/// A failure is told by its kind, and nothing else of it is: a column by its
/// number and the type that it was found to hold.
pub proof fn law_failures_are_told_by_their_kind(fault: HistoryFault)
    ensures
        fault matches HistoryFault::ColumnType { column, kind } ==> failed_state(fault)
            == "history_column_type_error:"@ + crate::text::decimal(column as int) + ":"@
            + match kind {
            ColumnKind::Null => "Null"@,
            ColumnKind::Integer => "Integer"@,
            ColumnKind::Real => "Real"@,
            ColumnKind::Text => "Text"@,
            ColumnKind::Blob => "Blob"@,
        },
        fault is Sql ==> failed_state(fault) == "history_sql_error"@,
        fault is RangeIndex ==> failed_state(fault) == "history_range_index_missing"@,
        fault is Decode ==> failed_state(fault) == "history_decode_error"@,
        fault is Key ==> failed_state(fault) == "history_key_error"@,
        fault is Other ==> failed_state(fault) == "history_read_failed"@,
{
}

/// A read that is refused for want of an index is told as that; any other that
/// is refused is told as one that could not be read.
pub proof fn law_refusals_are_told(conversation: Seq<char>, shard: Seq<char>, f: DbFaultV)
    ensures
        after_read(conversation, shard, ReadStepV::Refused(f)) == (ImportStepV::Ask {
            ask: ImportAskV::Statements {
                script: seq![
                    crate::sql::st2(
                        Form::SetState,
                        SqlV::Text(conversation),
                        SqlV::Text(
                            if f is NoRangeIndex {
                                "history_range_index_missing"@
                            } else {
                                "history_read_failed"@
                            },
                        ),
                    ),
                ],
                atomic: false,
            },
            next: ImportNextV::Filed,
        }),
{
}

/// The import that is due goes on where it stopped: in its shard, for its
/// conversation, behind the row number that was noted, no more than 128 rows at
/// a time. Where none is due there is no more work. A place that is no number is
/// an error.
pub proof fn law_import_goes_on_where_it_stopped(
    b: BackendV,
    db: crate::source::WechatDbV,
    conversation: Seq<char>,
    shard: Seq<char>,
    rowid: i64,
    position: Seq<char>,
)
    requires
        b.source == Some(db),
    ensures
        after_pending(b, None) == rest(BackendV { has_import_work: false, ..b }),
        crate::source::is_shard_id(shard) && db.has_data_dir ==> after_pending(
            b,
            Some((conversation, shard, crate::text::decimal(rowid as int))),
        ) == (ImportTurn {
            backend: b,
            step: ImportStepV::Ask {
                ask: ImportAskV::Read {
                    ask: crate::source::ReadAskV::FindTable {
                        shard,
                        talker: conversation,
                        snapshot: None,
                    },
                },
                next: ImportNextV::Reading {
                    conversation,
                    shard,
                    next: ReadNextV::Table {
                        read: crate::source::PageReadV {
                            shard,
                            talker: conversation,
                            after: crate::source::MessagePosition {
                                sort_seq: 0,
                                create_time: 0,
                                server_id: 0,
                                local_id: 0,
                            },
                            cap: 128,
                            history: Some(rowid),
                            snapshot: None,
                        },
                    },
                },
            },
        }),
        crate::text::parsed(position) is None ==> after_pending(
            b,
            Some((conversation, shard, position)),
        ).step == ImportStepV::Done(Imported::Err(crate::text::parse_error(position))),
        import_begin(b) == if b.has_import_work && b.index is Some {
            ImportTurn {
                backend: b,
                step: ImportStepV::Ask {
                    ask: ImportAskV::Statements {
                        script: seq![crate::sql::st0(Form::PendingImport)],
                        atomic: false,
                    },
                    next: ImportNextV::Pending,
                },
            }
        } else {
            rest(b)
        },
{
    crate::text::law_decimal_round_trip(rowid);
}

/// A page is filed message by message, in order. Behind the messages the row
/// number to go on from is noted, and whether the shard is done with, which it
/// is after a page of fewer than 128 messages.
pub proof fn law_pages_are_filed_in_order(
    conversation: Seq<char>,
    shard: Seq<char>,
    batch: Seq<SourceMessageV>,
    m: SourceMessageV,
    last: i64,
)
    ensures
        batch_script(Seq::empty()) == Seq::<StatementV>::empty(),
        batch_script(batch.push(m)) == batch_script(batch) + seq![
            crate::index::file_message(m),
            crate::sql::st2(
                Form::InsertMember,
                SqlV::Text(m.message.talker@),
                SqlV::Text(m.message.sender@),
            ),
        ],
        page_script(conversation, shard, batch, last) == batch_script(batch) + seq![
            crate::sql::st4(
                Form::SetPosition,
                SqlV::Text(conversation),
                SqlV::Text(shard),
                SqlV::Text(crate::text::decimal(last as int)),
                SqlV::Int(
                    if batch.len() < 128 {
                        1
                    } else {
                        0
                    },
                ),
            ),
            crate::sql::st1(Form::MarkReady, SqlV::Text(conversation)),
        ],
{
    assert(batch.push(m).drop_last() =~= batch);
}

/// What reading a page asks for is asked for as it is, and the import stays with
/// its conversation and its shard. Once a page or a failure has been noted, this
/// turn of the import is over.
pub proof fn law_reads_are_handed_on(
    b: BackendV,
    conversation: Seq<char>,
    shard: Seq<char>,
    ask: ReadAskV,
    next: ReadNextV,
    event: ReadEventV,
    answers: Seq<AnswerV>,
)
    ensures
        after_read(conversation, shard, ReadStepV::Ask { ask, next }) == (ImportStepV::Ask {
            ask: ImportAskV::Read { ask },
            next: ImportNextV::Reading { conversation, shard, next },
        }),
        import_step(
            b,
            ImportNextV::Reading { conversation, shard, next },
            ImportEventV::Read { event },
        ) == (ImportTurn {
            backend: b,
            step: after_read(conversation, shard, crate::source::read_step(next, event)),
        }),
        import_step(b, ImportNextV::Filed, ImportEventV::Answers { answers }) == (ImportTurn {
            backend: b,
            step: ImportStepV::Done(Imported::Ok(())),
        }),
{
}

} // verus!
