//! How the archive gets on: what opening it, importing into it, syncing it and
//! changing how imports count make of it.
use vstd::prelude::*;

use crate::backend::{BackendV, EventV, SetupV, StageV};
use crate::content::Message;
use crate::import::{HistoryFault, PAGE};
use crate::index::{IndexV, OpenNextV, OpenStepV, Opened};
use crate::model::{Archive, Filed, Position};
use crate::source::{PageReadV, PageRowV, ReadEventV, SourceMessageV};
use crate::sql::{AnswerV, ConversationRowV, Form, SqlV};
use crate::sync::{SyncAskV, SyncEventV, SyncNextV, SyncStepV, TourV};

verus! {

// ------------------------------------------------------------------ opening

/// An archive is opened for its own account only: for another one the opening
/// is refused, and the archive stays as it is.
pub proof fn law_other_account_is_refused(a: Archive, account: Seq<char>, answers: Seq<AnswerV>)
    requires
        a.account is Some,
        a.account != Some(account),
        answers.len() == 3,
        crate::model::tells(a, crate::sql::st0(Form::StoredAccount), answers[1]),
        crate::model::tells(a, crate::sql::st0(Form::CursorKey), answers[2]),
    ensures
        crate::index::open_begin(account) matches OpenStepV::Ask { script, next }
            && crate::model::after(a, script) == a && crate::index::open_step(next, answers)
            == OpenStepV::Done(Opened::Err("account_mismatch"@)),
{
    lemma_tables_are_there(a, account);
}

proof fn lemma_tables_are_there(a: Archive, account: Seq<char>)
    ensures
        crate::model::after(a, crate::index::open_begin(account)->script) == a,
{
    let s = crate::sql::st0(Form::Schema);
    let t = crate::sql::st0(Form::StoredAccount);
    let u = crate::sql::st0(Form::CursorKey);
    assert(crate::index::open_begin(account)->script =~= seq![s, t] + seq![u]);
    crate::model::lemma_after_joined(a, seq![s, t], seq![u]);
    crate::model::lemma_after_two(a, s, t);
    reveal_with_fuel(crate::model::after, 2);
    assert(seq![u].drop_last() =~= Seq::empty());
}

/// Opening an archive again changes nothing in it, and brings back the account
/// and the secret that it was opened with before: cursors that are out stay good.
pub proof fn law_reopening_brings_the_same(
    a: Archive,
    index: IndexV,
    answers: Seq<AnswerV>,
    noted: Seq<AnswerV>,
)
    requires
        a.account == Some(index.account),
        a.secret == Some(crate::primitives::hex_text(index.secret)),
        answers.len() == 3,
        crate::model::tells(a, crate::sql::st0(Form::StoredAccount), answers[1]),
        crate::model::tells(a, crate::sql::st0(Form::CursorKey), answers[2]),
    ensures
        ({
            let first = crate::index::open_begin(index.account);
            let second = crate::index::open_step(first->Ask_next, answers);
            &&& crate::model::after(a, first->script) == a
            &&& second is Ask
            &&& crate::model::after(a, second->script) == a
            &&& crate::index::may_open(second->Ask_next, noted, OpenStepV::Done(Opened::Ok(index)))
            &&& forall|r: OpenStepV| #[trigger]
                crate::index::may_open(second->Ask_next, noted, r) ==> r == OpenStepV::Done(
                    Opened::Ok(index),
                )
        }),
{
    lemma_tables_are_there(a, index.account);
    crate::primitives::law_hex_round_trip(index.secret);
    let s = crate::sql::st1(Form::KeepAccount, SqlV::Text(index.account));
    reveal_with_fuel(crate::model::after, 2);
    assert(seq![s].drop_last() =~= Seq::empty());
    assert(crate::model::after(a, seq![s]) == a);
}

/// A new archive has seen no change of permissions and warns above five
/// gigabytes. Opened for an account, it belongs to that account; it is given a
/// secret of 32 bytes, and keeps it, so that it can be opened again.
pub proof fn law_new_archive(
    finds: spec_fn(Seq<char>, Seq<char>) -> bool,
    account: Seq<char>,
    secret: Seq<u8>,
    answers: Seq<AnswerV>,
    stored: Seq<AnswerV>,
    answer: AnswerV,
)
    requires
        answers.len() == 3,
        crate::model::tells(
            crate::model::fresh(finds),
            crate::sql::st0(Form::StoredAccount),
            answers[1],
        ),
        crate::model::tells(
            crate::model::fresh(finds),
            crate::sql::st0(Form::CursorKey),
            answers[2],
        ),
    ensures
        ({
            let a = crate::model::fresh(finds);
            let first = crate::index::open_begin(account);
            let second = crate::index::open_step(first->Ask_next, answers);
            let third = crate::index::store_secret(account, secret);
            let b = crate::model::after(crate::model::after(a, second->script), third->script);
            &&& crate::model::sound(a)
            &&& crate::model::tells(a, crate::sql::st0(Form::Generation), answer) ==> answer
                == AnswerV::Number(0)
            &&& crate::model::tells(a, crate::sql::st0(Form::Quota), answer) ==> answer
                == AnswerV::Number(5368709120)
            &&& crate::model::after(a, first->script) == a
            &&& second is Ask
            &&& second->Ask_next == (OpenNextV::Noted { account, key: None })
            &&& b == (Archive {
                account: Some(account),
                secret: Some(crate::primitives::hex_text(secret)),
                ..a
            })
            &&& crate::index::open_step(third->Ask_next, stored) == OpenStepV::Done(
                Opened::Ok(IndexV { secret, account }),
            )
        }),
{
    let a = crate::model::fresh(finds);
    lemma_tables_are_there(a, account);
    lemma_usual_quota();
    let s = crate::sql::st1(Form::KeepAccount, SqlV::Text(account));
    let t = crate::sql::st1(
        Form::StoreCursorKey,
        SqlV::Text(crate::primitives::hex_text(secret)),
    );
    reveal_with_fuel(crate::model::after, 2);
    assert(seq![s].drop_last() =~= Seq::empty());
    assert(seq![t].drop_last() =~= Seq::empty());
}

proof fn lemma_usual_quota()
    ensures
        crate::text::parsed("5368709120"@) == Some(5368709120i64),
{
    crate::text::law_decimal_round_trip(5368709120);
    reveal_strlit("5368709120");
    reveal_with_fuel(crate::text::digits, 11);
    assert(crate::text::decimal(5368709120) =~= "5368709120"@);
}

// ------------------------------------------------------------------- filing

/// Filing a message says whether it was new: the first time it was, and a second
/// time under the same identifier it was not, whatever the message holds. The
/// second time no message changes; all that may be added is the sender, where it
/// was not known.
pub proof fn law_filing_says_whether_it_was_new(
    a: Archive,
    m: SourceMessageV,
    n: SourceMessageV,
    first: Seq<AnswerV>,
    second: Seq<AnswerV>,
)
    requires
        crate::model::sound(a),
        a.top + 1 < i64::MAX,
        crate::index::message_id(m) == crate::index::message_id(n),
        first.len() > 0,
        second.len() > 0,
        crate::model::tells(a, crate::index::insert_script(m)[0], first[0]),
        crate::model::tells(
            crate::model::after(a, crate::index::insert_script(m)),
            crate::index::insert_script(n)[0],
            second[0],
        ),
    ensures
        crate::index::filed_anew(first) == !crate::model::is_filed(a, crate::index::message_id(m)),
        !crate::index::filed_anew(second),
        ({
            let b = crate::model::after(a, crate::index::insert_script(m));
            crate::model::after(b, crate::index::insert_script(n)) == crate::model::noted(
                b,
                n.message.talker@,
                n.message.sender@,
                n.message.sender@,
            )
        }),
{
    let b = crate::model::after(a, crate::index::insert_script(m));
    crate::model::law_filing_adds_or_keeps(a, m);
    if !crate::model::is_filed(a, crate::index::message_id(m)) {
        assert(b.messages[b.messages.len() - 1].id == crate::index::message_id(m));
    } else {
        let i = choose|i: int|
            0 <= i < a.messages.len() && (#[trigger] a.messages[i]).id == crate::index::message_id(
                m,
            );
        assert(b.messages[i].id == crate::index::message_id(n));
    }
    assert(crate::model::is_filed(b, crate::index::message_id(n)));
    let s = crate::index::insert_script(n)[0];
    let t = crate::index::insert_script(n)[1];
    assert(crate::index::insert_script(n) =~= seq![s, t]);
    crate::model::lemma_after_two(b, s, t);
}

// ---------------------------------------------------------------- importing

/// A page that was filed, with the place to go on from: messages are only added,
/// the place of the shard is the last row that was read, no other place has
/// moved, and the conversation is ready once none of its imports is pending.
pub proof fn law_page_is_filed(
    a: Archive,
    conversation: Seq<char>,
    shard: Seq<char>,
    batch: Seq<SourceMessageV>,
    last: i64,
)
    requires
        crate::model::sound(a),
        a.top + batch.len() < i64::MAX,
    ensures
        ({
            let b = crate::model::after(
                a,
                crate::import::page_script(conversation, shard, batch, last),
            );
            let filed = crate::model::after(a, crate::import::batch_script(batch));
            &&& crate::model::sound(b)
            &&& crate::model::grown(a, b)
            &&& b.top <= a.top + batch.len()
            &&& b.messages == filed.messages && b.top == filed.top && b.members == filed.members
            &&& b.positions == crate::model::moved(
                a.positions,
                conversation,
                shard,
                crate::text::decimal(last as int),
                batch.len() < PAGE,
            )
            &&& b.conversations == if crate::model::is_pending(b, conversation) {
                a.conversations
            } else {
                crate::model::in_state(a.conversations, conversation, "ready"@)
            }
            &&& b == (Archive {
                messages: b.messages,
                top: b.top,
                members: b.members,
                positions: b.positions,
                conversations: b.conversations,
                ..a
            })
        }),
{
    let filed = crate::model::after(a, crate::import::batch_script(batch));
    let progress = crate::import::progress_script(conversation, shard, last, batch.len() < PAGE);
    crate::model::law_importing_grows(a, batch);
    crate::model::lemma_after_joined(a, crate::import::batch_script(batch), progress);
    let s = progress[0];
    let t = progress[1];
    assert(progress =~= seq![s, t]);
    crate::model::lemma_after_two(filed, s, t);
    let c = crate::model::effect(filed, s);
    let b = crate::model::effect(c, t);
    assert(b.positions == c.positions);
    assert(crate::model::is_pending(c, conversation) == crate::model::is_pending(b, conversation));
    lemma_moving_keeps_places(
        a.positions,
        conversation,
        shard,
        crate::text::decimal(last as int),
        batch.len() < PAGE,
    );
    assert forall|i: int, k: int| 0 <= i < k < b.positions.len() implies !crate::model::is_place(
        #[trigger] b.positions[k],
        (#[trigger] b.positions[i]).conversation,
        b.positions[i].shard,
    ) by {
        assert(!crate::model::is_place(
            a.positions[k],
            a.positions[i].conversation,
            a.positions[i].shard,
        ));
    }
    assert forall|i: int, k: int| 0 <= i < k < b.conversations.len() implies (
    #[trigger] b.conversations[i]).id != (#[trigger] b.conversations[k]).id by {
        assert(a.conversations[i].id != a.conversations[k].id);
    }
}

proof fn lemma_moving_keeps_places(
    places: Seq<Position>,
    conversation: Seq<char>,
    shard: Seq<char>,
    position: Seq<char>,
    done: bool,
)
    ensures
        ({
            let b = crate::model::moved(places, conversation, shard, position, done);
            &&& b.len() == places.len()
            &&& forall|i: int|
                0 <= i < places.len() ==> (#[trigger] b[i]).conversation == places[i].conversation
                    && b[i].shard == places[i].shard
        }),
{
}

/// A conversation becomes ready exactly when the last of its imports is
/// complete: filing a page leaves it ready where it was ready or where nothing
/// of it is pending any more, and in no other case.
pub proof fn law_ready_when_all_is_done(
    a: Archive,
    conversation: Seq<char>,
    shard: Seq<char>,
    batch: Seq<SourceMessageV>,
    last: i64,
    i: int,
)
    requires
        crate::model::sound(a),
        a.top + batch.len() < i64::MAX,
        0 <= i < a.conversations.len(),
        a.conversations[i].id == conversation,
    ensures
        ({
            let b = crate::model::after(
                a,
                crate::import::page_script(conversation, shard, batch, last),
            );
            &&& b.conversations[i].id == conversation
            &&& b.conversations[i].state == "ready"@ <==> a.conversations[i].state == "ready"@
                || !crate::model::is_pending(b, conversation)
        }),
{
    law_page_is_filed(a, conversation, shard, batch, last);
}

/// Beginning a conversation in shards notes a place for each that is new to it,
/// before its first row, and leaves every place that is there: what has been
/// imported is not imported again.
pub proof fn law_shards_are_begun_once(a: Archive, id: Seq<char>, shards: Seq<Seq<char>>)
    requires
        crate::model::sound(a),
    ensures
        ({
            let b = crate::model::after(a, crate::backend::position_script(id, shards));
            &&& crate::model::sound(b)
            &&& b == (Archive { positions: b.positions, ..a })
            &&& b.positions.len() >= a.positions.len()
            &&& b.positions.take(a.positions.len() as int) == a.positions
            &&& forall|k: int|
                0 <= k < shards.len() ==> crate::model::has_place(b, id, #[trigger] shards[k])
            &&& forall|k: int|
                a.positions.len() <= k < b.positions.len() ==> (
                #[trigger] b.positions[k]).conversation == id && b.positions[k].position
                    == crate::backend::first_position() && !b.positions[k].done
                    && shards.contains(b.positions[k].shard)
        }),
    decreases shards.len(),
{
    let script = crate::backend::position_script(id, shards);
    if shards.len() == 0 {
        assert(a.positions.take(a.positions.len() as int) =~= a.positions);
    } else {
        let front = shards.drop_last();
        assert(script.drop_last() =~= crate::backend::position_script(id, front));
        law_shards_are_begun_once(a, id, front);
        let b = crate::model::after(a, crate::backend::position_script(id, front));
        let s = script.last();
        let shard = shards.last();
        let c = crate::model::effect(b, s);
        assert(s == crate::sql::st3(
            Form::InsertPosition,
            SqlV::Text(id),
            SqlV::Text(shard),
            SqlV::Text(crate::backend::first_position()),
        ));
        let n = b.positions.len() as int;
        assert forall|i: int| 0 <= i < n implies b.positions[i] == #[trigger] c.positions[i] by {}
        assert(c.positions.take(a.positions.len() as int) =~= b.positions.take(
            a.positions.len() as int,
        ));
        if !crate::model::has_place(b, id, shard) {
            assert(crate::model::is_place(c.positions[n], id, shard));
        }
        assert forall|k: int| 0 <= k < shards.len() implies crate::model::has_place(
            c,
            id,
            #[trigger] shards[k],
        ) by {
            if k < front.len() {
                assert(front[k] == shards[k]);
                assert(crate::model::has_place(b, id, front[k]));
            }
            if crate::model::has_place(b, id, shards[k]) {
                let i = choose|i: int|
                    0 <= i < n && crate::model::is_place(
                        #[trigger] b.positions[i],
                        id,
                        shards[k],
                    );
                assert(crate::model::is_place(c.positions[i], id, shards[k]));
            }
        }
        assert forall|k: int| a.positions.len() <= k < c.positions.len() implies (
        #[trigger] c.positions[k]).conversation == id && c.positions[k].position
            == crate::backend::first_position() && !c.positions[k].done && shards.contains(
            c.positions[k].shard,
        ) by {
            if k < n {
                assert(front.contains(b.positions[k].shard));
                let i = choose|i: int| 0 <= i < front.len() && front[i] == b.positions[k].shard;
                assert(shards[i] == b.positions[k].shard);
            } else {
                assert(shards[shards.len() - 1] == c.positions[k].shard);
            }
        }
    }
}

// ------------------------------------------------------------------ syncing

/// A row of the source: its number and its message.
pub struct Row {
    pub rowid: i64,
    pub message: SourceMessageV,
}

/// The messages of rows.
pub open spec fn messages_of(rows: Seq<Row>) -> Seq<SourceMessageV> {
    Seq::new(rows.len(), |i: int| rows[i].message)
}

/// The place to go on from once rows have been read behind a place.
pub open spec fn place_behind(saved: i64, rows: Seq<Row>) -> i64 {
    if rows.len() > 0 {
        rows.last().rowid
    } else {
        saved
    }
}

/// The archive once a sync has read all rows of a snapshot behind a place, page
/// by page: each page is filed with the place to go on from, and a page that is
/// not full is the last.
pub open spec fn visited(
    a: Archive,
    conversation: Seq<char>,
    shard: Seq<char>,
    saved: i64,
    rows: Seq<Row>,
) -> Archive
    decreases rows.len(),
{
    if rows.len() < PAGE {
        crate::model::after(
            a,
            crate::import::page_script(
                conversation,
                shard,
                messages_of(rows),
                place_behind(saved, rows),
            ),
        )
    } else {
        let page = rows.take(PAGE as int);
        visited(
            crate::model::after(
                a,
                crate::import::page_script(
                    conversation,
                    shard,
                    messages_of(page),
                    place_behind(saved, page),
                ),
            ),
            conversation,
            shard,
            place_behind(saved, page),
            rows.skip(PAGE as int),
        )
    }
}

/// The rows that a read took up, each with the message that it was decoded to.
pub open spec fn taken_up(
    read: PageReadV,
    rows: Seq<PageRowV>,
    messages: Seq<Message>,
) -> Seq<Row> {
    Seq::new(
        rows.len(),
        |i: int|
            Row {
                rowid: rows[i].rowid,
                message: SourceMessageV {
                    position: rows[i].position,
                    shard_id: read.shard,
                    message: messages[i],
                },
            },
    )
}

/// A sync files the rows that it reads: behind the last row of a page comes the
/// one script that files all of the page with its last row as the place to go on
/// from, and behind that the next page where the page was full, and the next
/// visit where it was not.
pub proof fn law_sync_files_the_rows_it_reads(
    t: TourV,
    after: i64,
    rows: Seq<PageRowV>,
    messages: Seq<Message>,
    answers: Seq<AnswerV>,
)
    requires
        t.goes_on(),
        rows.len() == messages.len(),
    ensures
        ({
            let read = crate::source::snapshot_read(
                t.snapshot(),
                t.conversation(),
                after,
                PAGE,
            );
            let page = taken_up(read, rows, messages);
            let last = place_behind(after, page);
            let filed = SyncNextV::Filed { tour: t, last, full: rows.len() >= PAGE };
            &&& crate::sync::page_behind(t, after) == crate::sync::after_page(
                t,
                crate::source::read_begin(read),
            )
            &&& crate::sync::sync_step(
                SyncNextV::Reading { tour: t, next: crate::source::fed(read, rows, messages) },
                SyncEventV::Read { event: ReadEventV::Row(None) },
            ) == (SyncStepV::Ask {
                ask: SyncAskV::Statements {
                    script: crate::import::page_script(
                        t.conversation(),
                        t.snapshot().shard,
                        messages_of(page),
                        last,
                    ),
                    atomic: true,
                },
                next: filed,
            })
            &&& crate::sync::sync_step(filed, SyncEventV::Answers { answers }) == if rows.len()
                >= PAGE {
                crate::sync::page_behind(t, last)
            } else {
                crate::sync::visit(t.moved())
            }
        }),
{
    let read = crate::source::snapshot_read(t.snapshot(), t.conversation(), after, PAGE);
    crate::source::law_every_row_is_kept(read, rows, messages);
    let page = taken_up(read, rows, messages);
    assert(messages_of(page) =~= Seq::new(
        rows.len(),
        |i: int|
            SourceMessageV {
                position: rows[i].position,
                shard_id: read.shard,
                message: messages[i],
            },
    ));
}

/// Whether two archives hold the same messages and members.
pub open spec fn holds_alike(a: Archive, b: Archive) -> bool {
    a.messages == b.messages && a.top == b.top && a.members == b.members && a.finds == b.finds
}

proof fn lemma_filing_is_apart(a: Archive, b: Archive, batch: Seq<SourceMessageV>)
    requires
        holds_alike(a, b),
    ensures
        holds_alike(
            crate::model::after(a, crate::import::batch_script(batch)),
            crate::model::after(b, crate::import::batch_script(batch)),
        ),
    decreases batch.len(),
{
    if batch.len() > 0 {
        let front = batch.drop_last();
        let head = crate::import::batch_script(front);
        let tail = crate::index::insert_script(batch.last());
        lemma_filing_is_apart(a, b, front);
        crate::model::lemma_after_joined(a, head, tail);
        crate::model::lemma_after_joined(b, head, tail);
        assert(tail =~= seq![tail[0], tail[1]]);
        let c = crate::model::after(a, head);
        let d = crate::model::after(b, head);
        crate::model::lemma_after_two(c, tail[0], tail[1]);
        crate::model::lemma_after_two(d, tail[0], tail[1]);
        let id = crate::index::message_id(batch.last());
        assert(crate::model::is_filed(c, id) == crate::model::is_filed(d, id));
    }
}

proof fn lemma_batches_join(s: Seq<SourceMessageV>, t: Seq<SourceMessageV>)
    ensures
        crate::import::batch_script(s + t) == crate::import::batch_script(s)
            + crate::import::batch_script(t),
    decreases t.len(),
{
    if t.len() == 0 {
        assert(s + t =~= s);
        assert(crate::import::batch_script(s) + crate::import::batch_script(t)
            =~= crate::import::batch_script(s));
    } else {
        assert((s + t).drop_last() =~= s + t.drop_last());
        lemma_batches_join(s, t.drop_last());
        assert(crate::import::batch_script(s + t) =~= crate::import::batch_script(s)
            + crate::import::batch_script(t));
    }
}

proof fn lemma_batch_is_filed(a: Archive, batch: Seq<SourceMessageV>)
    requires
        crate::model::sound(a),
        a.top + batch.len() < i64::MAX,
    ensures
        ({
            let b = crate::model::after(a, crate::import::batch_script(batch));
            &&& forall|i: int|
                0 <= i < batch.len() ==> crate::model::is_filed(
                    b,
                    #[trigger] crate::index::message_id(batch[i]),
                )
            &&& forall|k: int|
                a.messages.len() <= k < b.messages.len() ==> comes_from(
                    batch,
                    #[trigger] b.messages[k],
                )
        }),
    decreases batch.len(),
{
    if batch.len() > 0 {
        let front = batch.drop_last();
        let head = crate::import::batch_script(front);
        let tail = crate::index::insert_script(batch.last());
        lemma_batch_is_filed(a, front);
        crate::model::law_importing_grows(a, front);
        crate::model::lemma_after_joined(a, head, tail);
        let b = crate::model::after(a, head);
        crate::model::law_filing_adds_or_keeps(b, batch.last());
        let c = crate::model::after(b, tail);
        let n = b.messages.len() as int;
        assert forall|k: int| 0 <= k < n implies b.messages[k] == #[trigger] c.messages[k] by {
            assert(c.messages.take(n)[k] == c.messages[k]);
        }
        assert forall|i: int| 0 <= i < batch.len() implies crate::model::is_filed(
            c,
            #[trigger] crate::index::message_id(batch[i]),
        ) by {
            let id = crate::index::message_id(batch[i]);
            if i < front.len() {
                assert(front[i] == batch[i]);
                assert(crate::model::is_filed(b, crate::index::message_id(front[i])));
            }
            if crate::model::is_filed(b, id) {
                let k = choose|k: int| 0 <= k < n && (#[trigger] b.messages[k]).id == id;
                assert(c.messages[k].id == id);
            } else {
                assert(c.messages[c.messages.len() - 1].id == id);
            }
        }
        assert forall|k: int| a.messages.len() <= k < c.messages.len() implies comes_from(
            batch,
            #[trigger] c.messages[k],
        ) by {
            if k < n {
                assert(comes_from(front, b.messages[k]));
                let i = choose|i: int|
                    0 <= i < front.len() && is_message(#[trigger] front[i], b.messages[k]);
                assert(batch[i] == front[i]);
            } else {
                assert(is_message(batch[batch.len() - 1], c.messages[k]));
            }
        }
    }
}

/// Whether a filed message is a message of the source, in its identifier and its
/// text.
pub open spec fn is_message(m: SourceMessageV, filed: Filed) -> bool {
    filed.id == crate::index::message_id(m) && filed.data == crate::json::json_text(
        crate::index::message_data(m),
    )
}

/// Whether a filed message is one of a batch.
pub open spec fn comes_from(batch: Seq<SourceMessageV>, filed: Filed) -> bool {
    exists|i: int| 0 <= i < batch.len() && is_message(#[trigger] batch[i], filed)
}

proof fn lemma_visit(
    a: Archive,
    conversation: Seq<char>,
    shard: Seq<char>,
    saved: i64,
    rows: Seq<Row>,
)
    requires
        crate::model::sound(a),
        a.top + rows.len() < i64::MAX,
    ensures
        ({
            let b = visited(a, conversation, shard, saved, rows);
            let filed = crate::model::after(
                a,
                crate::import::batch_script(messages_of(rows)),
            );
            &&& crate::model::sound(b)
            &&& holds_alike(b, filed)
            &&& b.positions == crate::model::moved(
                a.positions,
                conversation,
                shard,
                crate::text::decimal(place_behind(saved, rows) as int),
                true,
            )
            &&& b.generation == a.generation
            &&& b.account == a.account && b.secret == a.secret
        }),
    decreases rows.len(),
{
    let all = messages_of(rows);
    if rows.len() < PAGE {
        law_page_is_filed(a, conversation, shard, all, place_behind(saved, rows));
        crate::model::law_importing_grows(a, all);
    } else {
        let page = rows.take(PAGE as int);
        let rest = rows.skip(PAGE as int);
        let place = place_behind(saved, page);
        law_page_is_filed(a, conversation, shard, messages_of(page), place);
        crate::model::law_importing_grows(a, messages_of(page));
        let b = crate::model::after(
            a,
            crate::import::page_script(conversation, shard, messages_of(page), place),
        );
        lemma_visit(b, conversation, shard, place, rest);
        let c = visited(b, conversation, shard, place, rest);
        let filed = crate::model::after(a, crate::import::batch_script(messages_of(page)));
        lemma_filing_is_apart(b, filed, messages_of(rest));
        assert(all =~= messages_of(page) + messages_of(rest));
        lemma_batches_join(messages_of(page), messages_of(rest));
        crate::model::lemma_after_joined(
            a,
            crate::import::batch_script(messages_of(page)),
            crate::import::batch_script(messages_of(rest)),
        );
        assert(place_behind(place, rest) == place_behind(saved, rows));
        assert(c.positions =~= crate::model::moved(
            a.positions,
            conversation,
            shard,
            crate::text::decimal(place_behind(saved, rows) as int),
            true,
        ));
    }
}

/// A sync adds what is new, and nothing else: of a shard in which a conversation
/// was read up to a place, exactly the rows behind that place are filed, each
/// under its identifier unless that is known, all that was filed before stays as
/// it is and where it is, and the place to go on from is the last row read.
pub proof fn law_sync_adds_what_is_new(
    a: Archive,
    conversation: Seq<char>,
    shard: Seq<char>,
    saved: i64,
    rows: Seq<Row>,
    answer: AnswerV,
)
    requires
        crate::model::sound(a),
        a.top + rows.len() < i64::MAX,
        crate::model::has_place(a, conversation, shard),
    ensures
        ({
            let b = visited(a, conversation, shard, saved, rows);
            &&& crate::model::sound(b)
            &&& crate::model::grown(a, b)
            &&& b.messages == crate::model::after(
                a,
                crate::import::batch_script(messages_of(rows)),
            ).messages
            &&& forall|i: int|
                0 <= i < rows.len() ==> crate::model::is_filed(
                    b,
                    #[trigger] crate::index::message_id(rows[i].message),
                )
            &&& forall|k: int|
                a.messages.len() <= k < b.messages.len() ==> comes_from(
                    messages_of(rows),
                    #[trigger] b.messages[k],
                )
            &&& crate::model::tells(
                b,
                crate::sql::st2(Form::SavedPosition, SqlV::Text(conversation), SqlV::Text(shard)),
                answer,
            ) ==> answer == AnswerV::MaybeText(
                Some(crate::text::decimal(place_behind(saved, rows) as int)),
            )
            &&& forall|i: int|
                0 <= i < a.positions.len() && !crate::model::is_place(
                    #[trigger] a.positions[i],
                    conversation,
                    shard,
                ) ==> b.positions[i] == a.positions[i]
            &&& b.generation == a.generation
        }),
{
    let b = visited(a, conversation, shard, saved, rows);
    let all = messages_of(rows);
    lemma_visit(a, conversation, shard, saved, rows);
    crate::model::law_importing_grows(a, all);
    lemma_batch_is_filed(a, all);
    let filed = crate::model::after(a, crate::import::batch_script(all));
    assert forall|i: int| 0 <= i < rows.len() implies crate::model::is_filed(
        b,
        #[trigger] crate::index::message_id(rows[i].message),
    ) by {
        assert(all[i] == rows[i].message);
        assert(crate::model::is_filed(filed, crate::index::message_id(all[i])));
    }
    let args = seq![SqlV::Text(conversation), SqlV::Text(shard)];
    assert(crate::model::text_arg(args, 0) == conversation);
    assert(crate::model::text_arg(args, 1) == shard);
    let at = choose|i: int|
        0 <= i < a.positions.len() && crate::model::is_place(
            #[trigger] a.positions[i],
            conversation,
            shard,
        );
    assert(crate::model::is_place(b.positions[at], conversation, shard));
    assert(crate::model::has_place(b, conversation, shard));
}

/// A sync of a shard in which nothing is new adds nothing, and the place to go
/// on from stays.
pub proof fn law_sync_without_news(
    a: Archive,
    conversation: Seq<char>,
    shard: Seq<char>,
    saved: i64,
)
    requires
        crate::model::sound(a),
        a.top < i64::MAX,
    ensures
        ({
            let b = visited(a, conversation, shard, saved, Seq::empty());
            &&& b.messages == a.messages
            &&& b.members == a.members
            &&& b.positions == crate::model::moved(
                a.positions,
                conversation,
                shard,
                crate::text::decimal(saved as int),
                true,
            )
        }),
{
    let none = messages_of(Seq::empty());
    assert(none =~= Seq::empty());
    lemma_visit(a, conversation, shard, saved, Seq::empty());
    assert(crate::model::after(a, crate::import::batch_script(none)) == a);
}

// ---------------------------------------------------------------- migration

/// Imports come to count by row number: those that are not complete begin anew
/// from every shard, conversations that had no usable index are taken up again,
/// those that are ready stay ready where they are, and no message is touched.
pub proof fn law_migration_restarts_imports(a: Archive)
    requires
        crate::model::sound(a),
    ensures
        ({
            let b = crate::model::after(a, crate::backend::migration());
            &&& b.migrated
            &&& b == (Archive {
                migrated: true,
                conversations: b.conversations,
                positions: b.positions,
                ..a
            })
            &&& b.conversations.len() == a.conversations.len()
            &&& forall|i: int|
                0 <= i < a.conversations.len() ==> #[trigger] b.conversations[i]
                    == (ConversationRowV {
                    state: if a.conversations[i].state == "incompatible_message_index"@ {
                        "indexing"@
                    } else {
                        a.conversations[i].state
                    },
                    ..a.conversations[i]
                })
            &&& b.positions.len() == a.positions.len()
            &&& forall|i: int|
                0 <= i < a.positions.len() ==> #[trigger] b.positions[i]
                    == if crate::model::restarts(a, a.positions[i].conversation) {
                    Position {
                        position: crate::backend::first_position(),
                        done: false,
                        ..a.positions[i]
                    }
                } else {
                    a.positions[i]
                }
            &&& forall|i: int|
                0 <= i < a.conversations.len() && (#[trigger] a.conversations[i]).state
                    == "ready"@ ==> !crate::model::restarts(a, a.conversations[i].id)
        }),
{
    let s = crate::sql::st0(Form::RestartImports);
    let t = crate::sql::st0(Form::ReopenIncompatible);
    let u = crate::sql::st0(Form::MarkMigrated);
    assert(crate::backend::migration() =~= seq![s, t] + seq![u]);
    crate::model::lemma_after_joined(a, seq![s, t], seq![u]);
    crate::model::lemma_after_two(a, s, t);
    reveal_with_fuel(crate::model::after, 2);
    assert(seq![u].drop_last() =~= Seq::empty());
    reveal_strlit("ready");
    reveal_strlit("indexing");
    reveal_strlit("incompatible_message_index");
    assert("ready"@.len() == 5 && "indexing"@.len() == 8);
    assert("incompatible_message_index"@.len() == 26);
    assert forall|i: int|
        0 <= i < a.conversations.len() && (#[trigger] a.conversations[i]).state
            == "ready"@ implies !crate::model::restarts(a, a.conversations[i].id) by {
        if crate::model::restarts(a, a.conversations[i].id) {
            let k = choose|k: int|
                0 <= k < a.conversations.len() && (#[trigger] a.conversations[k]).id
                    == a.conversations[i].id && crate::model::is_restarted(
                    a.conversations[k].state,
                );
            if i < k {
                assert(a.conversations[i].id != a.conversations[k].id);
            } else if k < i {
                assert(a.conversations[k].id != a.conversations[i].id);
            }
        }
    }
}

/// That happens once: setting up runs it exactly where the archive says that
/// imports do not count by row number yet, all of it or nothing, and afterwards
/// the archive says that they do.
pub proof fn law_migration_runs_once(b: BackendV, setup: SetupV, a: Archive, answer: AnswerV)
    requires
        crate::model::tells(a, crate::sql::st0(Form::Migrated), answer),
    ensures
        crate::backend::setup_step(
            b,
            StageV::Migrated { setup },
            EventV::Answers { answers: seq![answer] },
        ) == if a.migrated {
            crate::backend::retry_imports(b, setup)
        } else {
            crate::backend::ask(
                b,
                crate::backend::commit(crate::backend::migration()),
                StageV::Restarted { setup },
            )
        },
{
    assert(seq![answer][0] == answer);
}

/// Imports that the type of a column had stopped are taken up again whenever the
/// archive is set up, and no others: of the states in which a failed read leaves
/// a conversation, that one alone is set back. Messages and places stay.
pub proof fn law_column_errors_are_retried(a: Archive, fault: HistoryFault)
    ensures
        crate::model::is_column_error(crate::import::failed_state(fault)) <==> fault is ColumnType,
        ({
            let b = crate::model::effect(a, crate::sql::st0(Form::RetryColumnErrors));
            &&& b == (Archive { conversations: b.conversations, ..a })
            &&& b.conversations.len() == a.conversations.len()
            &&& forall|i: int|
                0 <= i < a.conversations.len() ==> #[trigger] b.conversations[i]
                    == (ConversationRowV {
                    state: if crate::model::is_column_error(a.conversations[i].state) {
                        "indexing"@
                    } else {
                        a.conversations[i].state
                    },
                    ..a.conversations[i]
                })
        }),
{
    let state = crate::import::failed_state(fault);
    let pattern = "history_column_type_error"@;
    reveal_strlit("history_column_type_error");
    reveal_strlit("history_column_type_error:");
    reveal_strlit("history_sql_error");
    reveal_strlit("history_range_index_missing");
    reveal_strlit("history_decode_error");
    reveal_strlit("history_key_error");
    reveal_strlit("history_read_failed");
    assert(pattern.len() == 25);
    match fault {
        HistoryFault::ColumnType { .. } => {
            let head = "history_column_type_error:"@;
            assert(head.len() == 26);
            assert forall|i: int| 0 <= i < pattern.len() implies #[trigger] pattern[i] == '_'
                || crate::model::folded(state[i]) == pattern[i] as int by {
                assert(state[i] == head[i]);
                assert(head[i] == pattern[i]);
            }
        },
        HistoryFault::RangeIndex => {
            assert(pattern[8] == 'c' && state[8] == 'r');
        },
        _ => {},
    }
}

} // verus!
