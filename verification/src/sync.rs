//! The sync by hand: what was appended to the shards since the archive last
//! read them, seen in snapshots that are all taken before any is read, and filed
//! page by page together with the place to go on from.
use vstd::prelude::*;

use crate::fault::Fault;
use crate::import::{fault_of, filing, state_of, HistoryFault, Imported, PAGE};
use crate::index::{script1, Index};
use crate::source::{
    read_source_connection, resume, resume_pins, HistorySnapshot, HistorySnapshotV, PinAsk, PinAskV,
    PinEvent, PinEventV, PinNext, PinNextV, PinStep, PinStepV, ReadAsk, ReadAskV, ReadEvent,
    ReadEventV, ReadNext, ReadNextV, ReadStep, ReadStepV, WechatDb, WechatDbV,
};
use crate::sql::{bind, Answer, AnswerV, Form, SqlV, SqlValue, Statement, StatementV};
use crate::text::{copy_texts, decimal_text, parse_decimal, parse_refusal};

verus! {

/// A way through every shard for every conversation: what is visited, and which
/// conversation and shard it has come to.
pub struct Tour {
    pub snapshots: Vec<HistorySnapshot>,
    pub ids: Vec<String>,
    pub i: usize,
    pub j: usize,
}

/// The mathematical view of that.
pub struct TourV {
    pub snapshots: Seq<HistorySnapshotV>,
    pub ids: Seq<Seq<char>>,
    pub i: usize,
    pub j: usize,
}

impl View for Tour {
    type V = TourV;

    open spec fn view(&self) -> TourV {
        TourV {
            snapshots: crate::source::snapshots_view(self.snapshots@),
            ids: crate::text::texts_view(self.ids@),
            i: self.i,
            j: self.j,
        }
    }
}

/// What to do outside.
pub enum SyncAsk {
    /// Run statements on the archive, all of them or none where that is asked.
    Statements { script: Vec<Statement>, atomic: bool },
    /// Take snapshots of the shards.
    Pin { ask: PinAsk },
    /// Read a page of a snapshot.
    Read { ask: ReadAsk },
    /// Drop the snapshots.
    Release,
}

/// The mathematical view of that.
pub enum SyncAskV {
    Statements { script: Seq<StatementV>, atomic: bool },
    Pin { ask: PinAskV },
    Read { ask: ReadAskV },
    Release,
}

impl View for SyncAsk {
    type V = SyncAskV;

    open spec fn view(&self) -> SyncAskV {
        match self {
            SyncAsk::Statements { script, atomic } => SyncAskV::Statements {
                script: crate::sql::script_view(script@),
                atomic: *atomic,
            },
            SyncAsk::Pin { ask } => SyncAskV::Pin { ask: ask@ },
            SyncAsk::Read { ask } => SyncAskV::Read { ask: ask@ },
            SyncAsk::Release => SyncAskV::Release,
        }
    }
}

/// What came of it.
pub enum SyncEvent {
    /// What each statement gave back.
    Answers { answers: Vec<Answer> },
    /// What the taking of snapshots came to.
    Pin { event: PinEvent },
    /// What the read came to.
    Read { event: ReadEvent },
    /// A shard could not be pinned or read.
    Failed { fault: HistoryFault },
    /// The snapshots are dropped.
    Released,
}

/// The mathematical view of that.
pub enum SyncEventV {
    Answers { answers: Seq<AnswerV> },
    Pin { event: PinEventV },
    Read { event: ReadEventV },
    Failed { fault: HistoryFault },
    Released,
}

impl View for SyncEvent {
    type V = SyncEventV;

    open spec fn view(&self) -> SyncEventV {
        match self {
            SyncEvent::Answers { answers } => SyncEventV::Answers {
                answers: crate::sql::answers_view(answers@),
            },
            SyncEvent::Pin { event } => SyncEventV::Pin { event: event@ },
            SyncEvent::Read { event } => SyncEventV::Read { event: event@ },
            SyncEvent::Failed { fault } => SyncEventV::Failed { fault: *fault },
            SyncEvent::Released => SyncEventV::Released,
        }
    }
}

/// Where the sync stands.
pub enum SyncNext {
    /// Snapshots are being taken.
    Pinning { next: PinNext },
    /// The enabled conversations are being read.
    Conversations { snapshots: Vec<HistorySnapshot> },
    /// The place to go on from is being read.
    Position { tour: Tour },
    /// A page is being read.
    Reading { tour: Tour, next: ReadNext },
    /// A page is being filed with the place to go on from.
    Filed { tour: Tour, last: i64, full: bool },
    /// The snapshots are being dropped.
    Released { fault: Option<Fault> },
}

/// The mathematical view of that.
pub enum SyncNextV {
    Pinning { next: PinNextV },
    Conversations { snapshots: Seq<HistorySnapshotV> },
    Position { tour: TourV },
    Reading { tour: TourV, next: ReadNextV },
    Filed { tour: TourV, last: i64, full: bool },
    Released { fault: Option<Seq<char>> },
}

impl View for SyncNext {
    type V = SyncNextV;

    open spec fn view(&self) -> SyncNextV {
        match self {
            SyncNext::Pinning { next } => SyncNextV::Pinning { next: next@ },
            SyncNext::Conversations { snapshots } => SyncNextV::Conversations {
                snapshots: crate::source::snapshots_view(snapshots@),
            },
            SyncNext::Position { tour } => SyncNextV::Position { tour: tour@ },
            SyncNext::Reading { tour, next } => SyncNextV::Reading { tour: tour@, next: next@ },
            SyncNext::Filed { tour, last, full } => SyncNextV::Filed {
                tour: tour@,
                last: *last,
                full: *full,
            },
            SyncNext::Released { fault } => SyncNextV::Released {
                fault: match fault {
                    Some(f) => Some(f@),
                    None => None,
                },
            },
        }
    }
}

/// What to do next to sync.
pub enum SyncStep {
    Ask { ask: SyncAsk, next: SyncNext },
    Done(Result<(), Fault>),
}

/// The mathematical view of that.
pub enum SyncStepV {
    Ask { ask: SyncAskV, next: SyncNextV },
    Done(Imported),
}

impl View for SyncStep {
    type V = SyncStepV;

    open spec fn view(&self) -> SyncStepV {
        match self {
            SyncStep::Ask { ask, next } => SyncStepV::Ask { ask: ask@, next: next@ },
            SyncStep::Done(Ok(())) => SyncStepV::Done(Imported::Ok(())),
            SyncStep::Done(Err(f)) => SyncStepV::Done(Imported::Err(f@)),
        }
    }
}

/// The end of a sync, as it should be or with the text of a failure: the
/// snapshots are dropped first.
pub open spec fn release(fault: Option<Seq<char>>) -> SyncStepV {
    SyncStepV::Ask { ask: SyncAskV::Release, next: SyncNextV::Released { fault } }
}

impl TourV {
    /// Whether there is something left to visit.
    pub open spec fn goes_on(self) -> bool {
        self.i < self.ids.len() && self.j < self.snapshots.len()
    }

    /// The conversation that is visited.
    pub open spec fn conversation(self) -> Seq<char> {
        self.ids[self.i as int]
    }

    /// The snapshot that is visited.
    pub open spec fn snapshot(self) -> HistorySnapshotV {
        self.snapshots[self.j as int]
    }

    /// The next visit: the next shard, or the first shard for the next
    /// conversation.
    pub open spec fn moved(self) -> TourV {
        if self.j + 1 < self.snapshots.len() {
            TourV { j: (self.j + 1) as usize, ..self }
        } else {
            TourV { i: (self.i + 1) as usize, j: 0, ..self }
        }
    }
}

/// The shards of snapshots.
pub open spec fn shards_of(snapshots: Seq<HistorySnapshotV>) -> Seq<Seq<char>> {
    Seq::new(snapshots.len(), |i: int| snapshots[i].shard)
}

/// Visiting a shard for a conversation: the place to go on from is read. With
/// the first shard, every shard that is new to the conversation is begun before
/// its first row, so that the conversation is not ready before all are read.
pub open spec fn visit(t: TourV) -> SyncStepV {
    if t.goes_on() {
        SyncStepV::Ask {
            ask: SyncAskV::Statements {
                script: (if t.j == 0 {
                    crate::backend::position_script(t.conversation(), shards_of(t.snapshots))
                } else {
                    Seq::empty()
                }).push(
                    crate::sql::st2(
                        Form::SavedPosition,
                        SqlV::Text(t.conversation()),
                        SqlV::Text(t.snapshot().shard),
                    ),
                ),
                atomic: false,
            },
            next: SyncNextV::Position { tour: t },
        }
    } else {
        release(None)
    }
}

/// Goes on as the taking of snapshots says.
pub open spec fn after_pin(step: PinStepV) -> SyncStepV {
    match step {
        PinStepV::Ask { ask, next } => SyncStepV::Ask {
            ask: SyncAskV::Pin { ask },
            next: SyncNextV::Pinning { next },
        },
        PinStepV::Done(snapshots) => SyncStepV::Ask {
            ask: SyncAskV::Statements {
                script: seq![crate::sql::st0(Form::EnabledConversations)],
                atomic: false,
            },
            next: SyncNextV::Conversations { snapshots },
        },
        PinStepV::Refused(f) => release(
            Some(crate::import::failed_state(crate::import::kind_of_refusal(f))),
        ),
    }
}

/// Goes on as the read of a page says: a page is filed together with the place
/// to go on from, all of it or nothing.
pub open spec fn after_page(t: TourV, step: ReadStepV) -> SyncStepV {
    match step {
        ReadStepV::Ask { ask, next } => SyncStepV::Ask {
            ask: SyncAskV::Read { ask },
            next: SyncNextV::Reading { tour: t, next },
        },
        ReadStepV::Done(batch, last) => SyncStepV::Ask {
            ask: SyncAskV::Statements {
                script: crate::import::page_script(
                    t.conversation(),
                    t.snapshot().shard,
                    batch,
                    last,
                ),
                atomic: true,
            },
            next: SyncNextV::Filed { tour: t, last, full: batch.len() >= PAGE },
        },
        ReadStepV::Refused(f) => release(
            Some(crate::import::failed_state(crate::import::kind_of_refusal(f))),
        ),
    }
}

/// Reads the page behind a row number, from the snapshot.
pub open spec fn page_behind(t: TourV, rowid: i64) -> SyncStepV {
    after_page(
        t,
        crate::source::read_begin(
            crate::source::snapshot_read(t.snapshot(), t.conversation(), rowid, PAGE),
        ),
    )
}

/// What a sync asks for first.
pub open spec fn sync_begin(db: WechatDbV) -> SyncStepV {
    after_pin(crate::source::pin_begin(db))
}

/// What comes after each stage of a sync.
pub open spec fn sync_step(next: SyncNextV, event: SyncEventV) -> SyncStepV {
    match (next, event) {
        (SyncNextV::Pinning { next }, SyncEventV::Pin { event }) => after_pin(
            crate::source::pin_step(next, event),
        ),
        (SyncNextV::Conversations { snapshots }, SyncEventV::Answers { answers }) => if answers.len()
            == 1 && answers[0] is Texts {
            visit(TourV { snapshots, ids: answers[0]->Texts_0, i: 0, j: 0 })
        } else {
            release(Some("unexpected_answer"@))
        },
        (SyncNextV::Position { tour }, SyncEventV::Answers { answers }) => if tour.goes_on()
            && answers.len() > 0 && answers.last() is MaybeText {
            match answers.last()->MaybeText_0 {
                Some(position) => match crate::text::parsed(position) {
                    Some(rowid) => page_behind(tour, rowid),
                    None => release(Some(crate::text::parse_error(position))),
                },
                None => release(Some("unexpected_answer"@)),
            }
        } else {
            release(Some("unexpected_answer"@))
        },
        (SyncNextV::Reading { tour, next }, SyncEventV::Read { event }) => if tour.goes_on() {
            after_page(tour, crate::source::read_step(next, event))
        } else {
            release(Some("unexpected_answer"@))
        },
        (SyncNextV::Pinning { .. }, SyncEventV::Failed { fault }) => release(
            Some(crate::import::failed_state(fault)),
        ),
        (SyncNextV::Reading { .. }, SyncEventV::Failed { fault }) => release(
            Some(crate::import::failed_state(fault)),
        ),
        (SyncNextV::Filed { tour, last, full }, SyncEventV::Answers { .. }) => if !tour.goes_on() {
            release(Some("unexpected_answer"@))
        } else if full {
            page_behind(tour, last)
        } else {
            visit(tour.moved())
        },
        (SyncNextV::Released { fault }, SyncEventV::Released) => SyncStepV::Done(
            match fault {
                Some(e) => Imported::Err(e),
                None => Imported::Ok(()),
            },
        ),
        _ => release(Some("unexpected_answer"@)),
    }
}

/// Nothing is read but snapshots: whatever a sync reads, from the first page of
/// a visit to its last, it reads in the snapshot of that visit.
pub proof fn law_sync_reads_snapshots_only(t: TourV, next: ReadNextV, event: SyncEventV, rowid: i64)
    requires
        t.goes_on(),
        crate::source::read_of(next).snapshot == Some(t.snapshot().handle),
    ensures
        reads_in(page_behind(t, rowid), t),
        reads_in(sync_step(SyncNextV::Reading { tour: t, next }, event), t),
        reads_in(
            sync_step(SyncNextV::Filed { tour: t, last: rowid, full: true }, event),
            t,
        ),
{
}

/// Whether a step that reads does so in the snapshot of a visit.
pub open spec fn reads_in(step: SyncStepV, t: TourV) -> bool {
    step matches SyncStepV::Ask { ask: SyncAskV::Read { ask }, next } ==> {
        &&& next matches SyncNextV::Reading { tour, next } && tour == t
            && crate::source::read_of(next).snapshot == Some(t.snapshot().handle)
        &&& ask matches ReadAskV::FindTable { snapshot, .. } ==> snapshot == Some(
            t.snapshot().handle,
        )
        &&& ask matches ReadAskV::Explain { snapshot, .. } ==> snapshot == Some(
            t.snapshot().handle,
        )
        &&& ask matches ReadAskV::FirstRow { snapshot, .. } ==> snapshot == Some(
            t.snapshot().handle,
        )
    }
}

/// What is written of messages is written together with the place to go on
/// from: a page that was read leads to one script, which runs all together or
/// not at all.
pub proof fn law_sync_files_page_and_position_together(
    t: TourV,
    next: ReadNextV,
    event: ReadEventV,
)
    requires
        t.goes_on(),
        crate::source::read_step(next, event) is Done,
    ensures
        ({
            let page = crate::source::read_step(next, event);
            sync_step(
                SyncNextV::Reading { tour: t, next },
                SyncEventV::Read { event },
            ) == (SyncStepV::Ask {
                ask: SyncAskV::Statements {
                    script: crate::import::batch_script(page->Done_0)
                        + crate::import::progress_script(
                        t.conversation(),
                        t.snapshot().shard,
                        page->Done_1,
                        page->Done_0.len() < PAGE,
                    ),
                    atomic: true,
                },
                next: SyncNextV::Filed {
                    tour: t,
                    last: page->Done_1,
                    full: page->Done_0.len() >= PAGE,
                },
            })
        }),
{
}

/// A way, some visits on.
pub open spec fn toured(t: TourV, n: nat) -> TourV
    decreases n,
{
    if n == 0 {
        t
    } else {
        toured(t, (n - 1) as nat).moved()
    }
}

/// Every conversation is visited in every shard.
pub proof fn law_sync_visits_everything(t: TourV, i: usize, j: usize)
    requires
        t.i == 0,
        t.j == 0,
        t.snapshots.len() <= usize::MAX,
        i < t.ids.len(),
        j < t.snapshots.len(),
    ensures
        exists|n: nat| #[trigger] toured(t, n) == (TourV { i, j, ..t }),
    decreases i, j,
{
    if j > 0 {
        law_sync_visits_everything(t, i, (j - 1) as usize);
        let n = choose|n: nat| #[trigger] toured(t, n) == (TourV { i, j: (j - 1) as usize, ..t });
        assert(toured(t, n + 1) == (TourV { i, j, ..t }));
    } else if i > 0 {
        let last = (t.snapshots.len() - 1) as usize;
        law_sync_visits_everything(t, (i - 1) as usize, last);
        let n = choose|n: nat| #[trigger]
            toured(t, n) == (TourV { i: (i - 1) as usize, j: last, ..t });
        assert(toured(t, n + 1) == (TourV { i, j, ..t }));
    } else {
        assert(toured(t, 0) == t);
    }
}

fn releasing(fault: Option<Fault>) -> (r: SyncStep)
    ensures
        r@ == release(
            match fault {
                Some(f) => Some(f@),
                None => None,
            },
        ),
{
    SyncStep::Ask { ask: SyncAsk::Release, next: SyncNext::Released { fault } }
}

fn failed(fault: HistoryFault) -> (r: SyncStep)
    ensures
        r@ == release(Some(crate::import::failed_state(fault))),
{
    releasing(Some(Fault::Other(state_of(fault))))
}

fn places(conversation: &str, snapshots: &Vec<HistorySnapshot>) -> (r: Vec<Statement>)
    ensures
        crate::sql::script_view(r@) == crate::backend::position_script(
            conversation@,
            shards_of(crate::source::snapshots_view(snapshots@)),
        ),
{
    let ghost shards = shards_of(crate::source::snapshots_view(snapshots@));
    let mut out: Vec<Statement> = Vec::new();
    let mut i: usize = 0;
    while i < snapshots.len()
        invariant
            shards == shards_of(crate::source::snapshots_view(snapshots@)),
            i <= snapshots@.len(),
            out@.len() == i,
            forall|k: int|
                0 <= k < i ==> (#[trigger] out@[k])@ == crate::backend::position_script(
                    conversation@,
                    shards,
                )[k],
        decreases snapshots@.len() - i,
    {
        out.push(
            Statement::of3(
                Form::InsertPosition,
                bind(conversation),
                bind(snapshots[i].shard_id()),
                SqlValue::Text(decimal_text(i64::MIN)),
            ),
        );
        i = i + 1;
    }
    assert(crate::sql::script_view(out@) =~= crate::backend::position_script(
        conversation@,
        shards,
    ));
    out
}

impl Tour {
    fn goes_on(&self) -> (r: bool)
        ensures
            r == self@.goes_on(),
    {
        self.i < self.ids.len() && self.j < self.snapshots.len()
    }

    fn moved(self) -> (r: Tour)
        requires
            self@.goes_on(),
        ensures
            r@ == self@.moved(),
    {
        let shards: usize = self.snapshots.len();
        let conversations: usize = self.ids.len();
        assert(self.j < shards && self.i < conversations);
        if self.j + 1 < shards {
            Tour { snapshots: self.snapshots, ids: self.ids, i: self.i, j: self.j + 1 }
        } else {
            Tour { snapshots: self.snapshots, ids: self.ids, i: self.i + 1, j: 0 }
        }
    }

    fn visit(self) -> (r: SyncStep)
        ensures
            r@ == visit(self@),
    {
        if !self.goes_on() {
            return releasing(None);
        }
        let conversation = self.ids[self.i].as_str();
        assert(conversation@ == self@.conversation());
        let shard = self.snapshots[self.j].shard_id();
        assert(shard@ == self@.snapshot().shard);
        let mut script = if self.j == 0 {
            places(conversation, &self.snapshots)
        } else {
            Vec::new()
        };
        let ghost begun = crate::sql::script_view(script@);
        assert(self.j != 0 ==> begun =~= Seq::empty());
        let s = Statement::of2(Form::SavedPosition, bind(conversation), bind(shard));
        script.push(s);
        assert(crate::sql::script_view(script@) =~= begun.push(s@));
        SyncStep::Ask {
            ask: SyncAsk::Statements { script, atomic: false },
            next: SyncNext::Position { tour: self },
        }
    }

    fn take_page(self, index: &Index, step: ReadStep) -> (r: SyncStep)
        requires
            self@.goes_on(),
        ensures
            r@ == after_page(self@, step@),
    {
        match step {
            ReadStep::Ask { ask, next } => SyncStep::Ask {
                ask: SyncAsk::Read { ask },
                next: SyncNext::Reading { tour: self, next },
            },
            ReadStep::Done(batch, last) => {
                let conversation = self.ids[self.i].as_str();
                assert(conversation@ == self@.conversation());
                let shard = self.snapshots[self.j].shard_id();
                assert(shard@ == self@.snapshot().shard);
                let script = filing(index, conversation, shard, &batch, last);
                SyncStep::Ask {
                    ask: SyncAsk::Statements { script, atomic: true },
                    next: SyncNext::Filed { tour: self, last, full: batch.len() >= PAGE },
                }
            },
            ReadStep::Refused(f) => failed(fault_of(&f)),
        }
    }

    fn read_behind(self, index: &Index, rowid: i64) -> (r: SyncStep)
        requires
            self@.goes_on(),
        ensures
            r@ == page_behind(self@, rowid),
    {
        let conversation = self.ids[self.i].as_str();
        assert(conversation@ == self@.conversation());
        let page = self.snapshots[self.j].page(conversation, rowid, PAGE);
        assert(page@ == crate::source::snapshot_read(
            self@.snapshot(),
            self@.conversation(),
            rowid,
            PAGE,
        ));
        self.take_page(index, read_source_connection(page))
    }
}

fn from_pin(step: PinStep) -> (r: SyncStep)
    ensures
        r@ == after_pin(step@),
{
    match step {
        PinStep::Ask { ask, next } => SyncStep::Ask {
            ask: SyncAsk::Pin { ask },
            next: SyncNext::Pinning { next },
        },
        PinStep::Done(snapshots) => SyncStep::Ask {
            ask: SyncAsk::Statements {
                script: script1(Statement::of0(Form::EnabledConversations)),
                atomic: false,
            },
            next: SyncNext::Conversations { snapshots },
        },
        PinStep::Refused(f) => failed(fault_of(&f)),
    }
}

/// Begins a sync.
pub fn sync(db: &WechatDb) -> (r: SyncStep)
    ensures
        r@ == sync_begin(db@),
{
    from_pin(db.history_snapshots())
}

/// Goes on with a sync.
pub fn syncing(index: &Index, next: SyncNext, event: SyncEvent) -> (r: SyncStep)
    ensures
        r@ == sync_step(next@, event@),
{
    match (next, event) {
        (SyncNext::Pinning { next }, SyncEvent::Pin { event }) => from_pin(
            resume_pins(next, event),
        ),
        (SyncNext::Conversations { snapshots }, SyncEvent::Answers { answers }) => {
            if answers.len() != 1 {
                return releasing(Some(Fault::UnexpectedAnswer));
            }
            assert(crate::sql::answers_view(answers@)[0] == answers@[0]@);
            match &answers[0] {
                Answer::Texts(ids) => {
                    let ids = copy_texts(ids);
                    let tour = Tour { snapshots, ids, i: 0, j: 0 };
                    tour.visit()
                },
                _ => releasing(Some(Fault::UnexpectedAnswer)),
            }
        },
        (SyncNext::Position { tour }, SyncEvent::Answers { answers }) => {
            if !tour.goes_on() || answers.len() == 0 {
                return releasing(Some(Fault::UnexpectedAnswer));
            }
            let last: usize = answers.len() - 1;
            assert(crate::sql::answers_view(answers@).last() == answers@[last as int]@);
            match &answers[last] {
                Answer::MaybeText(Some(position)) => match parse_decimal(position.as_str()) {
                    Some(rowid) => tour.read_behind(index, rowid),
                    None => releasing(Some(Fault::Other(parse_refusal(position.as_str())))),
                },
                _ => releasing(Some(Fault::UnexpectedAnswer)),
            }
        },
        (SyncNext::Reading { tour, next }, SyncEvent::Read { event }) => if tour.goes_on() {
            tour.take_page(index, resume(next, event))
        } else {
            releasing(Some(Fault::UnexpectedAnswer))
        },
        (SyncNext::Pinning { .. }, SyncEvent::Failed { fault }) => failed(fault),
        (SyncNext::Reading { .. }, SyncEvent::Failed { fault }) => failed(fault),
        (SyncNext::Filed { tour, last, full }, SyncEvent::Answers { .. }) => if !tour.goes_on() {
            releasing(Some(Fault::UnexpectedAnswer))
        } else if full {
            tour.read_behind(index, last)
        } else {
            tour.moved().visit()
        },
        (SyncNext::Released { fault }, SyncEvent::Released) => match fault {
            Some(f) => SyncStep::Done(Err(f)),
            None => SyncStep::Done(Ok(())),
        },
        _ => releasing(Some(Fault::UnexpectedAnswer)),
    }
}

/// A sync begins with the snapshots of the source. Once they are taken, it visits
/// every enabled conversation. Where anything cannot be read, the snapshots are
/// dropped and the failure is told by its kind.
pub proof fn law_failed_syncs_drop_their_snapshots(
    db: WechatDbV,
    tour: TourV,
    pins: PinNextV,
    next: ReadNextV,
    fault: HistoryFault,
    told: Option<Seq<char>>,
)
    ensures
        db.has_data_dir ==> (sync_begin(db) matches SyncStepV::Ask { ask, .. } && ask is Pin),
        !db.has_data_dir ==> sync_begin(db) == (SyncStepV::Ask {
            ask: SyncAskV::Release,
            next: SyncNextV::Released { fault: Some("history_read_failed"@) },
        }),
        sync_step(
            SyncNextV::Reading { tour, next },
            SyncEventV::Failed { fault },
        ) == (SyncStepV::Ask {
            ask: SyncAskV::Release,
            next: SyncNextV::Released { fault: Some(crate::import::failed_state(fault)) },
        }),
        sync_step(
            SyncNextV::Pinning { next: pins },
            SyncEventV::Failed { fault },
        ) == (SyncStepV::Ask {
            ask: SyncAskV::Release,
            next: SyncNextV::Released { fault: Some(crate::import::failed_state(fault)) },
        }),
        sync_step(SyncNextV::Released { fault: told }, SyncEventV::Released) == SyncStepV::Done(
            if told is Some {
                Imported::Err(told->0)
            } else {
                Imported::Ok(())
            },
        ),
{
}

/// A visit reads from where the import of the conversation from that shard
/// stopped, no more than 128 rows at a time, and goes on behind each page that
/// was full.
pub proof fn law_visits_go_on_where_they_stopped(tour: TourV, rowid: i64, answers: Seq<AnswerV>)
    requires
        tour.goes_on(),
        answers.len() > 0,
        answers.last() == AnswerV::MaybeText(Some(crate::text::decimal(rowid as int))),
    ensures
        sync_step(SyncNextV::Position { tour }, SyncEventV::Answers { answers })
            == page_from(tour, rowid),
        sync_step(
            SyncNextV::Filed { tour, last: rowid, full: true },
            SyncEventV::Answers { answers },
        ) == page_from(tour, rowid),
        sync_step(
            SyncNextV::Filed { tour, last: rowid, full: false },
            SyncEventV::Answers { answers },
        ) == visit(tour.moved()),
{
    crate::text::law_decimal_round_trip(rowid);
}

/// The step that begins to read a page of the snapshot that is visited, behind a
/// row number.
pub open spec fn page_from(tour: TourV, rowid: i64) -> SyncStepV {
    SyncStepV::Ask {
        ask: SyncAskV::Read {
            ask: ReadAskV::FindTable {
                shard: tour.snapshots[tour.j as int].shard,
                talker: tour.ids[tour.i as int],
                snapshot: Some(tour.snapshots[tour.j as int].handle),
            },
        },
        next: SyncNextV::Reading {
            tour,
            next: ReadNextV::Table {
                read: crate::source::PageReadV {
                    shard: tour.snapshots[tour.j as int].shard,
                    talker: tour.ids[tour.i as int],
                    after: crate::source::MessagePosition {
                        sort_seq: 0,
                        create_time: 0,
                        server_id: 0,
                        local_id: 0,
                    },
                    cap: 128,
                    history: Some(rowid),
                    snapshot: Some(tour.snapshots[tour.j as int].handle),
                },
            },
        },
    }
}

/// A visit asks where the import of the conversation from that shard stopped.
/// The first visit of a conversation begins, before that, every shard that the
/// conversation has no place in.
pub proof fn law_first_visit_begins_every_shard(t: TourV)
    requires
        t.goes_on(),
    ensures
        visit(t) matches SyncStepV::Ask { ask: SyncAskV::Statements { script, atomic }, next } && {
            &&& !atomic
            &&& next == (SyncNextV::Position { tour: t })
            &&& script.last() == crate::sql::st2(
                Form::SavedPosition,
                SqlV::Text(t.ids[t.i as int]),
                SqlV::Text(t.snapshots[t.j as int].shard),
            )
            &&& t.j == 0 ==> script.len() == t.snapshots.len() + 1 && forall|k: int|
                0 <= k < t.snapshots.len() ==> #[trigger] script[k] == crate::sql::st3(
                    Form::InsertPosition,
                    SqlV::Text(t.ids[t.i as int]),
                    SqlV::Text(t.snapshots[k].shard),
                    SqlV::Text(crate::text::decimal(i64::MIN as int)),
                )
            &&& t.j > 0 ==> script.len() == 1
        },
{
}

/// Once all snapshots are taken, it is asked which conversations are enabled,
/// and they are visited from the first on, from the first snapshot on.
pub proof fn law_tours_begin_at_the_beginning(
    snapshots: Seq<HistorySnapshotV>,
    ids: Seq<Seq<char>>,
)
    ensures
        after_pin(PinStepV::Done(snapshots)) == (SyncStepV::Ask {
            ask: SyncAskV::Statements {
                script: seq![crate::sql::st0(Form::EnabledConversations)],
                atomic: false,
            },
            next: SyncNextV::Conversations { snapshots },
        }),
        sync_step(
            SyncNextV::Conversations { snapshots },
            SyncEventV::Answers { answers: seq![AnswerV::Texts(ids)] },
        ) == visit(TourV { snapshots, ids, i: 0, j: 0 }),
{
    assert(seq![AnswerV::Texts(ids)][0] == AnswerV::Texts(ids));
}

/// What reading a page asks for is asked for as it is, on the same visit. A page
/// is full, and more may lie behind it, where it holds at least 128 messages.
pub proof fn law_visits_are_handed_on(
    t: TourV,
    ask: ReadAskV,
    next: ReadNextV,
    batch: Seq<crate::source::SourceMessageV>,
    last: i64,
)
    ensures
        after_page(t, ReadStepV::Ask { ask, next }) == (SyncStepV::Ask {
            ask: SyncAskV::Read { ask },
            next: SyncNextV::Reading { tour: t, next },
        }),
        after_page(t, ReadStepV::Done(batch, last)) == (SyncStepV::Ask {
            ask: SyncAskV::Statements {
                script: crate::import::page_script(
                    t.ids[t.i as int],
                    t.snapshots[t.j as int].shard,
                    batch,
                    last,
                ),
                atomic: true,
            },
            next: SyncNextV::Filed { tour: t, last, full: batch.len() >= 128 },
        }),
{
}

/// A sync ends behind the last conversation, and at once where there is no
/// snapshot: the snapshots are dropped, and nothing has failed.
pub proof fn law_tours_end(t: TourV)
    ensures
        t.i >= t.ids.len() || t.j >= t.snapshots.len() <==> visit(t) == (SyncStepV::Ask {
            ask: SyncAskV::Release,
            next: SyncNextV::Released { fault: None },
        }),
{
}

} // verus!
