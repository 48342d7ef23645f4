//! The archive: permissions, filing, queries and members. Each operation is
//! told as the statements to run and, from what they gave back, the statements
//! to run next or the answer.
use vstd::prelude::*;

use crate::content::normalize;
use crate::cursor::{seal, unseal, Cursor, CursorRead, CursorV};
use crate::fault::Fault;
use crate::json::{
    list_of, object_of, put, render, str_json, text, texts_json, Field, Json, JsonRead, JsonV,
};
use crate::primitives::{format_rfc3339, hex_decode, hex_encode, random_bytes};
use crate::query::{
    clamp_at, names_of_members, not_ready_json, page_json, parse_items, plan_query,
    scope_of_members, scope_of_query, shown_data, text_or_null_json,
};
use crate::search::tokens;
use crate::source::{SourceMessage, SourceMessageV};
use crate::sql::{
    bind, Answer, AnswerV, ConversationRow, ConversationRowV, Form, MessageRow, MessageRowV, SqlV,
    SqlValue, Statement, StatementV,
};
use crate::text::{concat, copy_texts, decimal_text, same};

verus! {

/// An open archive: the account it belongs to and the secret that its cursors
/// are sealed with.
pub struct Index {
    secret: Vec<u8>,
    account: String,
}

/// The mathematical view of an open archive.
pub struct IndexV {
    pub secret: Seq<u8>,
    pub account: Seq<char>,
}

impl View for Index {
    type V = IndexV;

    closed spec fn view(&self) -> IndexV {
        IndexV { secret: self.secret@, account: self.account@ }
    }
}

/// An answer, or the text of a refusal.
pub type Outcome = Result<JsonV, Seq<char>>;

/// The view of an answer or a refusal.
pub open spec fn outcome_view(r: Result<Json, Fault>) -> Outcome {
    match r {
        Ok(j) => Outcome::Ok(j@),
        Err(f) => Outcome::Err(f@),
    }
}

// ------------------------------------------------------------------ opening

/// Where the opening of an archive stands.
pub enum OpenNext {
    /// The tables are there; the account and the secret were asked for.
    Read { account: String },
    /// The account has been noted.
    Noted { account: String, key: Option<String> },
    /// The new secret has been noted.
    Stored { account: String, secret: Vec<u8> },
}

/// The mathematical view of that.
pub enum OpenNextV {
    Read { account: Seq<char> },
    Noted { account: Seq<char>, key: Option<Seq<char>> },
    Stored { account: Seq<char>, secret: Seq<u8> },
}

impl View for OpenNext {
    type V = OpenNextV;

    open spec fn view(&self) -> OpenNextV {
        match self {
            OpenNext::Read { account } => OpenNextV::Read { account: account@ },
            OpenNext::Noted { account, key } => OpenNextV::Noted {
                account: account@,
                key: match key {
                    Some(k) => Some(k@),
                    None => None,
                },
            },
            OpenNext::Stored { account, secret } => OpenNextV::Stored {
                account: account@,
                secret: secret@,
            },
        }
    }
}

/// What to do next to open an archive.
pub enum OpenStep {
    Ask { script: Vec<Statement>, next: OpenNext },
    Done(Result<Index, Fault>),
}

/// An archive that was opened, or the text of a refusal.
pub type Opened = Result<IndexV, Seq<char>>;

/// The mathematical view of what to do next.
pub enum OpenStepV {
    Ask { script: Seq<StatementV>, next: OpenNextV },
    Done(Opened),
}

impl View for OpenStep {
    type V = OpenStepV;

    open spec fn view(&self) -> OpenStepV {
        match self {
            OpenStep::Ask { script, next } => OpenStepV::Ask {
                script: crate::sql::script_view(script@),
                next: next@,
            },
            OpenStep::Done(r) => OpenStepV::Done(
                match r {
                    Ok(index) => Opened::Ok(index@),
                    Err(f) => Opened::Err(f@),
                },
            ),
        }
    }
}

/// What noting a new secret asks for.
pub open spec fn store_secret(account: Seq<char>, secret: Seq<u8>) -> OpenStepV {
    OpenStepV::Ask {
        script: seq![
            crate::sql::st1(
                Form::StoreCursorKey,
                SqlV::Text(crate::primitives::hex_text(secret)),
            ),
        ],
        next: OpenNextV::Stored { account, secret },
    }
}

/// What comes after each stage of opening, where no new secret has to be made.
pub open spec fn open_step(next: OpenNextV, answers: Seq<AnswerV>) -> OpenStepV {
    match next {
        OpenNextV::Read { account } => if answers.len() == 3 && answers[1] is MaybeText
            && answers[2] is MaybeText {
            match answers[1]->MaybeText_0 {
                Some(stored) if stored != account => OpenStepV::Done(
                    Opened::Err("account_mismatch"@),
                ),
                _ => OpenStepV::Ask {
                    script: seq![crate::sql::st1(Form::KeepAccount, SqlV::Text(account))],
                    next: OpenNextV::Noted { account, key: answers[2]->MaybeText_0 },
                },
            }
        } else {
            OpenStepV::Done(Opened::Err("unexpected_answer"@))
        },
        OpenNextV::Noted { account, key } => match key {
            Some(k) => OpenStepV::Done(
                if crate::primitives::is_hex(k) {
                    Opened::Ok(IndexV { secret: crate::primitives::hex_bytes(k), account })
                } else {
                    Opened::Err(crate::primitives::hex_error(k))
                },
            ),
            None => OpenStepV::Done(Opened::Err("random unavailable"@)),
        },
        OpenNextV::Stored { account, secret } => OpenStepV::Done(
            Opened::Ok(IndexV { secret, account }),
        ),
    }
}

/// What opening the archive of an account asks for first.
pub open spec fn open_begin(account: Seq<char>) -> OpenStepV {
    OpenStepV::Ask {
        script: seq![
            crate::sql::st0(Form::Schema),
            crate::sql::st0(Form::StoredAccount),
            crate::sql::st0(Form::CursorKey),
        ],
        next: OpenNextV::Read { account },
    }
}

/// Whether a step may come after a stage of opening. An archive that has no
/// secret yet is given 32 random bytes, whichever they are, or is refused.
pub open spec fn may_open(next: OpenNextV, answers: Seq<AnswerV>, r: OpenStepV) -> bool {
    match next {
        OpenNextV::Noted { account, key: None } => r == OpenStepV::Done(
            Opened::Err("random unavailable"@),
        ) || exists|secret: Seq<u8>|
            secret.len() == 32 && r == #[trigger] store_secret(account, secret),
        _ => r == open_step(next, answers),
    }
}

/// One statement, as a script.
pub fn script1(a: Statement) -> (r: Vec<Statement>)
    ensures
        crate::sql::script_view(r@) == seq![a@],
{
    let r = vec![a];
    assert(crate::sql::script_view(r@) =~= seq![a@]);
    r
}

/// Two statements, as a script.
pub fn script2(a: Statement, b: Statement) -> (r: Vec<Statement>)
    ensures
        crate::sql::script_view(r@) == seq![a@, b@],
{
    let r = vec![a, b];
    assert(crate::sql::script_view(r@) =~= seq![a@, b@]);
    r
}

impl Index {
    /// Begins to open the archive of an account.
    pub fn open(account: &str) -> (r: OpenStep)
        ensures
            r@ == open_begin(account@),
    {
        let script = vec![
            Statement::of0(Form::Schema),
            Statement::of0(Form::StoredAccount),
            Statement::of0(Form::CursorKey),
        ];
        assert(crate::sql::script_view(script@) =~= seq![
            crate::sql::st0(Form::Schema),
            crate::sql::st0(Form::StoredAccount),
            crate::sql::st0(Form::CursorKey),
        ]);
        OpenStep::Ask { script, next: OpenNext::Read { account: account.to_owned() } }
    }

    /// Notes a secret for a new archive.
    pub fn with_secret(account: String, secret: Vec<u8>) -> (r: OpenStep)
        ensures
            r@ == store_secret(account@, secret@),
    {
        let key = hex_encode(secret.as_slice());
        let script = script1(Statement::of1(Form::StoreCursorKey, SqlValue::Text(key)));
        OpenStep::Ask { script, next: OpenNext::Stored { account, secret } }
    }

    /// Goes on opening the archive. An archive that has no secret yet is given
    /// 32 random bytes, unless the system has none to give; nothing is claimed
    /// of which bytes they are.
    pub fn opening(next: OpenNext, answers: Vec<Answer>) -> (r: OpenStep)
        ensures
            may_open(next@, crate::sql::answers_view(answers@), r@),
    {
        match next {
            OpenNext::Read { account } => {
                if answers.len() != 3 {
                    return OpenStep::Done(Err(Fault::UnexpectedAnswer));
                }
                let ghost all = crate::sql::answers_view(answers@);
                assert(all[1] == answers@[1]@ && all[2] == answers@[2]@);
                match (&answers[1], &answers[2]) {
                    (Answer::MaybeText(stored), Answer::MaybeText(key)) => {
                        if let Some(s) = stored {
                            if !same(s.as_str(), account.as_str()) {
                                return OpenStep::Done(Err(Fault::AccountMismatch));
                            }
                        }
                        let script = script1(
                            Statement::of1(Form::KeepAccount, bind(account.as_str())),
                        );
                        let key = match key {
                            Some(k) => Some(k.clone()),
                            None => None,
                        };
                        OpenStep::Ask { script, next: OpenNext::Noted { account, key } }
                    },
                    _ => OpenStep::Done(Err(Fault::UnexpectedAnswer)),
                }
            },
            OpenNext::Noted { account, key } => match key {
                Some(k) => match hex_decode(k.as_str()) {
                    Ok(secret) => OpenStep::Done(Ok(Index { secret, account })),
                    Err(e) => OpenStep::Done(Err(Fault::Other(e))),
                },
                None => match random_bytes(32) {
                    Some(secret) => Index::with_secret(account, secret),
                    None => OpenStep::Done(Err(Fault::RandomUnavailable)),
                },
            },
            OpenNext::Stored { account, secret } => OpenStep::Done(Ok(Index { secret, account })),
        }
    }
}

// -------------------------------------------------------------- permissions

/// What allowing a conversation to be read asks for, all of it or nothing.
pub open spec fn grant_script(id: Seq<char>, name: Seq<char>) -> Seq<StatementV> {
    seq![
        crate::sql::st2(Form::Grant, SqlV::Text(id), SqlV::Text(name)),
        crate::sql::st0(Form::BumpGeneration),
    ]
}

/// What withdrawing a conversation asks for, all of it or nothing.
pub open spec fn revoke_script(id: Seq<char>, delete: bool) -> Seq<StatementV> {
    if delete {
        seq![
            crate::sql::st1(Form::Disable, SqlV::Text(id)),
            crate::sql::st1(Form::DeleteMessages, SqlV::Text(id)),
            crate::sql::st1(Form::DeleteMembers, SqlV::Text(id)),
            crate::sql::st1(Form::DeletePositions, SqlV::Text(id)),
            crate::sql::st1(Form::DeleteConversation, SqlV::Text(id)),
            crate::sql::st0(Form::BumpGeneration),
        ]
    } else {
        seq![
            crate::sql::st1(Form::Disable, SqlV::Text(id)),
            crate::sql::st0(Form::BumpGeneration),
        ]
    }
}

/// The conversation that a name stands for, or the text of a refusal.
pub type Resolved = Result<Seq<char>, Seq<char>>;

/// The one conversation that answers to a name. None, and more than one, are
/// refused.
pub open spec fn resolved(ids: Seq<Seq<char>>) -> Resolved {
    if ids.len() == 1 {
        Resolved::Ok(ids[0])
    } else if ids.len() == 0 {
        Resolved::Err("conversation_unavailable"@)
    } else {
        Resolved::Err(
            "ambiguous_conversation: "@ + crate::json::json_text(crate::json::text_list(ids)),
        )
    }
}

/// One conversation, as it is listed.
pub open spec fn listed_conversation(c: ConversationRowV) -> JsonV {
    crate::json::object(
        seq![
            crate::json::field_v("conversation_id", JsonV::Str(c.id)),
            crate::json::field_v("name", JsonV::Str(c.name)),
            crate::json::field_v("index_state", JsonV::Str(c.state)),
            crate::json::field_v("enabled", JsonV::Bool(c.enabled)),
        ],
    )
}

/// The conversations found, as they are listed.
pub open spec fn listed_items(rows: Seq<ConversationRowV>) -> Seq<JsonV> {
    Seq::new(rows.len(), |i: int| listed_conversation(rows[i]))
}

/// An answer that holds items only.
pub open spec fn items_answer(items: Seq<JsonV>) -> JsonV {
    crate::json::object(seq![crate::json::field_v("items", JsonV::Arr(items))])
}

/// An answer that holds items only.
pub fn items_json(items: Vec<Json>) -> (r: Json)
    ensures
        r@ == items_answer(crate::json::items_view(items@)),
{
    let ghost list = crate::json::items_view(items@);
    let mut o: Vec<Field> = Vec::new();
    put(&mut o, "items", list_of(items));
    assert(crate::json::fields_view(o@) =~= items_answer(list)->Obj_0);
    object_of(o)
}

fn conversation_json(c: &ConversationRow) -> (r: Json)
    ensures
        r@ == listed_conversation(c@),
{
    let mut o: Vec<Field> = Vec::new();
    put(&mut o, "conversation_id", str_json(c.id.as_str()));
    put(&mut o, "name", str_json(c.name.as_str()));
    put(&mut o, "index_state", str_json(c.state.as_str()));
    put(&mut o, "enabled", Json::Bool(c.enabled));
    assert(crate::json::fields_view(o@) =~= listed_conversation(c@)->Obj_0);
    object_of(o)
}

/// The conversations found, as they are listed.
pub fn listed(rows: &Vec<ConversationRow>) -> (r: Vec<Json>)
    ensures
        crate::json::items_view(r@) == listed_items(crate::sql::conversations_view(rows@)),
{
    let mut out: Vec<Json> = Vec::new();
    let mut i: usize = 0;
    while i < rows.len()
        invariant
            i <= rows@.len(),
            out@.len() == i,
            forall|k: int| 0 <= k < i ==> (#[trigger] out@[k])@ == listed_conversation(rows@[k]@),
        decreases rows@.len() - i,
    {
        out.push(conversation_json(&rows[i]));
        i = i + 1;
    }
    assert(crate::json::items_view(out@) =~= listed_items(crate::sql::conversations_view(rows@)));
    out
}

impl Index {
    /// Allows a conversation to be read: what to run, in one transaction.
    /// Counting the change ends every cursor that is out.
    pub fn grant(&self, id: &str, name: &str) -> (r: Vec<Statement>)
        ensures
            crate::sql::script_view(r@) == grant_script(id@, name@),
    {
        script2(
            Statement::of2(Form::Grant, bind(id), bind(name)),
            Statement::of0(Form::BumpGeneration),
        )
    }

    /// Withdraws a conversation, and deletes what was filed of it where that
    /// is asked for: what to run, in one transaction.
    pub fn revoke(&self, id: &str, delete: bool) -> (r: Vec<Statement>)
        ensures
            crate::sql::script_view(r@) == revoke_script(id@, delete),
    {
        if delete {
            let r = vec![
                Statement::of1(Form::Disable, bind(id)),
                Statement::of1(Form::DeleteMessages, bind(id)),
                Statement::of1(Form::DeleteMembers, bind(id)),
                Statement::of1(Form::DeletePositions, bind(id)),
                Statement::of1(Form::DeleteConversation, bind(id)),
                Statement::of0(Form::BumpGeneration),
            ];
            assert(crate::sql::script_view(r@) =~= revoke_script(id@, delete));
            r
        } else {
            script2(
                Statement::of1(Form::Disable, bind(id)),
                Statement::of0(Form::BumpGeneration),
            )
        }
    }

    /// The one conversation that answers to a name, of those that were found.
    pub fn resolve(&self, ids: &Vec<String>) -> (r: Result<String, Fault>)
        ensures
            match r {
                Ok(id) => resolved(crate::text::texts_view(ids@)) == Resolved::Ok(id@),
                Err(f) => resolved(crate::text::texts_view(ids@)) == Resolved::Err(f@),
            },
    {
        if ids.len() == 1 {
            Ok(ids[0].clone())
        } else if ids.len() == 0 {
            Err(Fault::ConversationUnavailable)
        } else {
            let list = texts_json(ids);
            Err(Fault::AmbiguousConversation(render(&list)))
        }
    }

    /// Lists the conversations that a text occurs in, disabled ones included
    /// where the owner asks.
    pub fn list(&self, q: &str, local: bool) -> (r: Step)
        ensures
            r@ == list_begin(q@, local),
    {
        Step::Ask { script: script1(list_statement(q, local)), next: Next::Listing }
    }
}

/// The statement that lists the conversations that a text occurs in.
pub open spec fn list_query(q: Seq<char>, local: bool) -> StatementV {
    crate::sql::st2(
        Form::List,
        SqlV::Text(q),
        SqlV::Int(
            if local {
                1
            } else {
                0
            },
        ),
    )
}

/// What a request for conversations asks for.
pub open spec fn list_begin(q: Seq<char>, local: bool) -> StepV {
    StepV::Ask { script: seq![list_query(q, local)], next: NextV::Listing }
}

/// The statement that lists the conversations that a text occurs in.
pub fn list_statement(q: &str, local: bool) -> (r: Statement)
    ensures
        r@ == list_query(q@, local),
{
    Statement::of2(
        Form::List,
        bind(q),
        SqlValue::Int(
            if local {
                1
            } else {
                0
            },
        ),
    )
}

// ------------------------------------------------------------------- filing

/// The identifier of a message: the server's number for it or, while it has
/// none, the place where it lies.
pub open spec fn message_id(source: SourceMessageV) -> Seq<char> {
    let m = source.message;
    if m.server_id != 0 {
        m.talker@ + ":"@ + crate::text::decimal(m.server_id as int)
    } else {
        m.talker@ + ":"@ + source.shard_id + ":"@ + crate::text::decimal(
            source.position.local_id as int,
        )
    }
}

/// A message as it is stored and shown.
pub open spec fn message_data(source: SourceMessageV) -> JsonV {
    let m = source.message;
    crate::json::object(
        seq![
            crate::json::field_v("message_id", JsonV::Str(message_id(source))),
            crate::json::field_v("conversation_id", JsonV::Str(m.talker@)),
            crate::json::field_v("member_id", JsonV::Str(m.sender@)),
            crate::json::field_v("create_time", JsonV::Num(m.create_time as int)),
            crate::json::field_v(
                "created_at",
                crate::json::text_or_null(crate::primitives::rfc3339_text(m.create_time)),
            ),
            crate::json::field_v("sort_seq", JsonV::Num(m.sort_seq as int)),
            crate::json::field_v("type", JsonV::Str(crate::content::kind_of(m.content))),
            crate::json::field_v("text", JsonV::Str(crate::content::body_of(m.content))),
            crate::json::field_v("content", m.detail@),
            crate::json::field_v(
                "source",
                crate::json::object(
                    seq![
                        crate::json::field_v("shard_id", JsonV::Str(source.shard_id)),
                        crate::json::field_v(
                            "local_id",
                            JsonV::Num(source.position.local_id as int),
                        ),
                        crate::json::field_v("server_id", JsonV::Num(m.server_id as int)),
                    ],
                ),
            ),
        ],
    )
}

/// The statement that files a message.
pub open spec fn file_message(source: SourceMessageV) -> StatementV {
    let m = source.message;
    let body = crate::content::body_of(m.content);
    crate::sql::st(
        Form::InsertMessage,
        seq![
            SqlV::Text(message_id(source)),
            SqlV::Text(m.talker@),
            SqlV::Text(m.sender@),
            SqlV::Int(m.create_time),
            SqlV::Int(m.sort_seq),
            SqlV::Text(crate::content::kind_of(m.content)),
            SqlV::Text(body),
            SqlV::Text(crate::search::tokenized(body)),
            SqlV::Text(crate::json::json_text(message_data(source))),
        ],
    )
}

/// What filing a message asks for.
pub open spec fn insert_script(source: SourceMessageV) -> Seq<StatementV> {
    seq![
        file_message(source),
        crate::sql::st2(
            Form::InsertMember,
            SqlV::Text(source.message.talker@),
            SqlV::Text(source.message.sender@),
        ),
    ]
}

/// Whether two messages of a conversation are one: by the server's number or,
/// while neither has one, by the place where they lie.
pub open spec fn is_same_message(m: SourceMessageV, n: SourceMessageV) -> bool {
    if m.message.server_id != 0 || n.message.server_id != 0 {
        m.message.server_id == n.message.server_id
    } else {
        m.shard_id == n.shard_id && m.position.local_id == n.position.local_id
    }
}

proof fn lemma_no_colon(s: Seq<char>)
    requires
        crate::source::is_shard_file(s),
    ensures
        s.len() > 0,
        s[0] == 'm',
        !s.contains(':'),
{
    reveal_strlit("message_");
    reveal_strlit(".db");
    let n = choose|n: Seq<char>|
        n.len() > 0 && crate::text::all_digits(n) && s == #[trigger] ("message_"@ + n + ".db"@);
    assert forall|i: int| 0 <= i < s.len() implies s[i] != ':' by {
        if i < 8 {
            assert(s[i] == "message_"@[i]);
        } else if i < 8 + n.len() {
            assert(s[i] == n[i - 8]);
            assert(crate::text::is_digit(n[i - 8]));
        } else {
            assert(s[i] == ".db"@[i - 8 - n.len()]);
        }
    }
}

/// Different messages of a conversation are filed under different identifiers,
/// messages that have no number from the server included.
pub proof fn law_message_ids_differ(m: SourceMessageV, n: SourceMessageV)
    requires
        m.message.talker@ == n.message.talker@,
        crate::source::is_shard_file(m.shard_id),
        crate::source::is_shard_file(n.shard_id),
        !is_same_message(m, n),
    ensures
        message_id(m) != message_id(n),
{
    if message_id(m) == message_id(n) {
        reveal_strlit(":");
        let head = m.message.talker@ + ":"@;
        let dm = if m.message.server_id != 0 {
            m.message.server_id
        } else {
            m.position.local_id
        };
        let dn = if n.message.server_id != 0 {
            n.message.server_id
        } else {
            n.position.local_id
        };
        let tm = crate::text::decimal(dm as int);
        let tn = crate::text::decimal(dn as int);
        crate::text::law_decimal_round_trip(dm);
        crate::text::law_decimal_round_trip(dn);
        lemma_no_colon(m.shard_id);
        lemma_no_colon(n.shard_id);
        let rm = message_id(m).skip(head.len() as int);
        let rn = message_id(n).skip(head.len() as int);
        if m.message.server_id != 0 {
            assert(rm =~= tm);
        } else {
            assert(rm =~= m.shard_id + ":"@ + tm);
        }
        if n.message.server_id != 0 {
            assert(rn =~= tn);
        } else {
            assert(rn =~= n.shard_id + ":"@ + tn);
        }
        if m.message.server_id != 0 && n.message.server_id == 0 {
            assert(rn[0] == 'm');
            crate::text::lemma_decimal_chars(dm as int, 0);
        } else if m.message.server_id == 0 && n.message.server_id != 0 {
            assert(rm[0] == 'm');
            crate::text::lemma_decimal_chars(dn as int, 0);
        } else if m.message.server_id == 0 {
            let k = m.shard_id.len() as int;
            let l = n.shard_id.len() as int;
            assert(rm[k] == ':');
            assert(rn[l] == ':');
            if k < l {
                assert(n.shard_id[k] == rn[k]);
                assert(n.shard_id.contains(':'));
            } else if l < k {
                assert(m.shard_id[l] == rm[l]);
                assert(m.shard_id.contains(':'));
            }
            assert(m.shard_id =~= rm.take(k));
            assert(n.shard_id =~= rn.take(l));
            assert(tm =~= rm.skip(k + 1));
            assert(tn =~= rn.skip(l + 1));
        }
    }
}

fn id_of_message(source: &SourceMessage) -> (r: String)
    ensures
        r@ == message_id(source@),
{
    let m = &source.message;
    let head = concat(m.talker.as_str(), ":");
    if m.server_id != 0 {
        let number = decimal_text(m.server_id);
        concat(head.as_str(), number.as_str())
    } else {
        let head = concat(head.as_str(), source.shard_id.as_str());
        let head = concat(head.as_str(), ":");
        let number = decimal_text(source.position.local_id);
        concat(head.as_str(), number.as_str())
    }
}

fn data_of_message(source: &SourceMessage) -> (r: Json)
    ensures
        r@ == message_data(source@),
{
    let m = &source.message;
    let (kind, body) = normalize(&m.content);
    let id = id_of_message(source);
    let created = format_rfc3339(m.create_time);
    let mut place: Vec<Field> = Vec::new();
    put(&mut place, "shard_id", str_json(source.shard_id.as_str()));
    put(&mut place, "local_id", Json::Int(source.position.local_id));
    put(&mut place, "server_id", Json::Int(m.server_id));
    assert(crate::json::fields_view(place@) =~= seq![
        crate::json::field_v("shard_id", JsonV::Str(source.shard_id@)),
        crate::json::field_v("local_id", JsonV::Num(source.position.local_id as int)),
        crate::json::field_v("server_id", JsonV::Num(m.server_id as int)),
    ]);
    let place = object_of(place);
    let mut o: Vec<Field> = Vec::new();
    put(&mut o, "message_id", Json::Str(id));
    put(&mut o, "conversation_id", str_json(m.talker.as_str()));
    put(&mut o, "member_id", str_json(m.sender.as_str()));
    put(&mut o, "create_time", Json::Int(m.create_time));
    put(&mut o, "created_at", text_or_null_json(created));
    put(&mut o, "sort_seq", Json::Int(m.sort_seq));
    put(&mut o, "type", str_json(kind));
    put(&mut o, "text", Json::Str(body));
    put(&mut o, "content", m.detail.copy());
    put(&mut o, "source", place);
    assert(crate::json::fields_view(o@) =~= message_data(source@)->Obj_0);
    object_of(o)
}

impl Index {
    /// Files a message: what to run. The archive keeps what it saw first of a
    /// message, also when the message is recalled. What is stored reads back as
    /// the message, where its content holds whole numbers only and is not
    /// nested too deep to be read.
    pub fn insert(&self, source: &SourceMessage) -> (r: Vec<Statement>)
        ensures
            crate::sql::script_view(r@) == insert_script(source@),
            crate::json::readable(message_data(source@), 127) ==> crate::json::json_value(
                vstd::utf8::encode_utf8(crate::json::json_text(message_data(source@))),
            ) == JsonRead::Ok(crate::json::settled(message_data(source@))),
    {
        let m = &source.message;
        let (kind, body) = normalize(&m.content);
        let data = data_of_message(source);
        let args = vec![
            SqlValue::Text(id_of_message(source)),
            bind(m.talker.as_str()),
            bind(m.sender.as_str()),
            SqlValue::Int(m.create_time),
            SqlValue::Int(m.sort_seq),
            bind(kind),
            bind(body.as_str()),
            SqlValue::Text(tokens(body.as_str())),
            SqlValue::Text(render(&data)),
        ];
        assert(crate::sql::values_view(args@) =~= file_message(source@)->Fixed_args);
        script2(
            Statement::of(Form::InsertMessage, args),
            Statement::of2(Form::InsertMember, bind(m.talker.as_str()), bind(m.sender.as_str())),
        )
    }
}

/// Whether a message was filed anew, by what filing it gave back.
pub open spec fn filed_anew(answers: Seq<AnswerV>) -> bool {
    answers.len() > 0 && (answers[0] matches AnswerV::Changed(n) && n > 0)
}

impl Index {
    /// Whether a message was filed anew, by what filing it gave back.
    pub fn inserted(&self, answers: &Vec<Answer>) -> (r: bool)
        ensures
            r == filed_anew(crate::sql::answers_view(answers@)),
    {
        if answers.len() == 0 {
            return false;
        }
        assert(crate::sql::answers_view(answers@)[0] == answers@[0]@);
        match &answers[0] {
            Answer::Changed(n) => *n > 0,
            _ => false,
        }
    }
}

// ------------------------------------------------------------------ queries

/// Where an operation on the archive stands: what the answers that come next
/// are answers to.
pub enum Next {
    /// The conversations listed.
    Listing,
    /// The conversations that answer to the name in a request for messages.
    Conversation { p: Json, updates: bool },
    /// The state of the conversation, the generation of permissions, the
    /// newest message, and the members that answer to each name.
    Facts { p: Json, updates: bool, conversation: String },
    /// The messages found, and the generation of permissions.
    Rows { updates: bool, limit: usize, scope: String, snapshot: i64, since: i64 },
    /// The conversations that answer to the name in a request for members.
    MembersConversation { p: Json },
    /// The generation of permissions and the newest member.
    MembersFacts { p: Json, conversation: String },
    /// The members found.
    MembersPage { conversation: String, scope: String, snapshot: i64, limit: usize },
    /// The names of each member, and the generation of permissions.
    MembersNames { ids: Vec<String>, more: bool, scope: String, snapshot: i64 },
}

/// The mathematical view of where an operation stands.
pub enum NextV {
    Listing,
    Conversation { p: JsonV, updates: bool },
    Facts { p: JsonV, updates: bool, conversation: Seq<char> },
    Rows { updates: bool, limit: usize, scope: Seq<char>, snapshot: i64, since: i64 },
    MembersConversation { p: JsonV },
    MembersFacts { p: JsonV, conversation: Seq<char> },
    MembersPage { conversation: Seq<char>, scope: Seq<char>, snapshot: i64, limit: usize },
    MembersNames { ids: Seq<Seq<char>>, more: bool, scope: Seq<char>, snapshot: i64 },
}

impl View for Next {
    type V = NextV;

    open spec fn view(&self) -> NextV {
        match self {
            Next::Listing => NextV::Listing,
            Next::Conversation { p, updates } => NextV::Conversation { p: p@, updates: *updates },
            Next::Facts { p, updates, conversation } => NextV::Facts {
                p: p@,
                updates: *updates,
                conversation: conversation@,
            },
            Next::Rows { updates, limit, scope, snapshot, since } => NextV::Rows {
                updates: *updates,
                limit: *limit,
                scope: scope@,
                snapshot: *snapshot,
                since: *since,
            },
            Next::MembersConversation { p } => NextV::MembersConversation { p: p@ },
            Next::MembersFacts { p, conversation } => NextV::MembersFacts {
                p: p@,
                conversation: conversation@,
            },
            Next::MembersPage { conversation, scope, snapshot, limit } => NextV::MembersPage {
                conversation: conversation@,
                scope: scope@,
                snapshot: *snapshot,
                limit: *limit,
            },
            Next::MembersNames { ids, more, scope, snapshot } => NextV::MembersNames {
                ids: crate::text::texts_view(ids@),
                more: *more,
                scope: scope@,
                snapshot: *snapshot,
            },
        }
    }
}

/// What to do next: statements to run, or the answer.
pub enum Step {
    Ask { script: Vec<Statement>, next: Next },
    Done(Result<Json, Fault>),
}

/// The mathematical view of what to do next.
pub enum StepV {
    Ask { script: Seq<StatementV>, next: NextV },
    Done(Outcome),
}

impl View for Step {
    type V = StepV;

    open spec fn view(&self) -> StepV {
        match self {
            Step::Ask { script, next } => StepV::Ask {
                script: crate::sql::script_view(script@),
                next: next@,
            },
            Step::Done(r) => StepV::Done(outcome_view(*r)),
        }
    }
}

/// The step that ends an operation with a refusal.
pub open spec fn refused(text: Seq<char>) -> StepV {
    StepV::Done(Outcome::Err(text))
}

/// The statement that asks which conversations answer to the name in a
/// request.
pub open spec fn ask_conversation(p: JsonV) -> Seq<StatementV> {
    seq![crate::sql::st1(Form::Resolve, SqlV::Text(p.text_at("conversation"@)))]
}

/// What a request for messages asks for first.
pub open spec fn query_begin(p: JsonV, updates: bool) -> StepV {
    StepV::Ask { script: ask_conversation(p), next: NextV::Conversation { p, updates } }
}

/// What a request for members asks for first.
pub open spec fn members_begin(p: JsonV) -> StepV {
    StepV::Ask { script: ask_conversation(p), next: NextV::MembersConversation { p } }
}

/// The statements that look up each name among the members.
pub open spec fn lookups(conversation: Seq<char>, names: Seq<Seq<char>>) -> Seq<StatementV> {
    Seq::new(
        names.len(),
        |i: int|
            crate::sql::st2(Form::MemberIds, SqlV::Text(conversation), SqlV::Text(names[i])),
    )
}

/// What has to be known before a request for messages can be planned.
pub open spec fn facts_script(p: JsonV, conversation: Seq<char>) -> Seq<StatementV> {
    seq![
        crate::sql::st1(Form::State, SqlV::Text(conversation)),
        crate::sql::st0(Form::Generation),
        crate::sql::st0(Form::NewestMessage),
    ] + lookups(conversation, crate::query::member_names(p))
}

/// Whether the answers are those that planning needs.
pub open spec fn facts_fit(answers: Seq<AnswerV>, names: nat) -> bool {
    &&& answers.len() == 3 + names
    &&& answers[0] is Text
    &&& answers[1] is Number
    &&& answers[2] is Number
    &&& forall|i: int| 3 <= i < answers.len() ==> (#[trigger] answers[i]) is Texts
}

/// The lists found for each name.
pub open spec fn found_in(answers: Seq<AnswerV>) -> Seq<Seq<Seq<char>>> {
    Seq::new((answers.len() - 3) as nat, |i: int| answers[3 + i]->Texts_0)
}

/// The cursor that a request presents, or the text of a refusal.
pub type Presented = Result<Option<CursorV>, Seq<char>>;

/// The cursor that a request presents, where it presents one.
pub open spec fn presented(index: IndexV, p: JsonV, scope: Seq<char>, generation: i64) -> Presented {
    if p.text_at("cursor"@).len() == 0 {
        Presented::Ok(None)
    } else {
        match crate::cursor::unsealed(
            index.secret,
            index.account,
            scope,
            generation,
            p.text_at("cursor"@),
        ) {
            Ok(c) => Presented::Ok(Some(c)),
            Err(e) => Presented::Err(e),
        }
    }
}

/// What follows from the facts: the query, or an answer without one.
pub open spec fn query_planned(
    index: IndexV,
    p: JsonV,
    updates: bool,
    conversation: Seq<char>,
    state: Seq<char>,
    generation: i64,
    newest: i64,
    found: Seq<Seq<Seq<char>>>,
) -> StepV {
    let scope = crate::query::query_scope(p, updates);
    if state != "ready"@ {
        StepV::Done(Outcome::Ok(crate::query::not_ready(state)))
    } else {
        match presented(index, p, scope, generation) {
            Err(e) => refused(e),
            Ok(old) => {
                let snapshot = crate::query::snapshot_of(updates, old, newest);
                match crate::query::planned_query(p, updates, conversation, snapshot, old, found) {
                    Err(e) => refused(e),
                    Ok(q) => StepV::Ask {
                        script: seq![StatementV::Messages(q), crate::sql::st0(Form::Generation)],
                        next: NextV::Rows {
                            updates,
                            limit: crate::query::query_limit(p) as usize,
                            scope,
                            snapshot,
                            since: crate::query::since(old),
                        },
                    },
                }
            },
        }
    }
}

/// The page that the rows found make.
pub open spec fn query_page(
    index: IndexV,
    updates: bool,
    limit: usize,
    scope: Seq<char>,
    snapshot: i64,
    since: i64,
    rows: Seq<MessageRowV>,
    generation: i64,
) -> Outcome {
    let shown = crate::query::shown(rows, limit as int);
    match crate::query::parsed_items(crate::query::data_of(shown)) {
        Err(e) => Outcome::Err(e),
        Ok(items) => Outcome::Ok(
            crate::query::message_page(
                items,
                rows.len() > limit,
                match crate::query::stopped(shown, updates, since) {
                    Some((time, id)) => Some(
                        crate::cursor::sealed(
                            index.secret,
                            CursorV {
                                account: index.account,
                                generation,
                                scope,
                                snapshot,
                                time,
                                id,
                            },
                        ),
                    ),
                    None => None,
                },
            ),
        ),
    }
}

// ------------------------------------------------------------------ members

/// What has to be known before a request for members can be planned.
pub open spec fn members_facts_script() -> Seq<StatementV> {
    seq![crate::sql::st0(Form::Generation), crate::sql::st0(Form::NewestMember)]
}

/// What follows from the facts: the page of members to ask for.
pub open spec fn members_planned(
    index: IndexV,
    p: JsonV,
    conversation: Seq<char>,
    generation: i64,
    newest: i64,
) -> StepV {
    let query = p.text_at("query"@);
    let scope = crate::query::members_scope(conversation, query);
    match presented(index, p, scope, generation) {
        Err(e) => refused(e),
        Ok(old) => {
            let snapshot = crate::query::snapshot_of(false, old, newest);
            let after = match old {
                Some(c) => c.id,
                None => Seq::empty(),
            };
            let limit = members_limit(p);
            StepV::Ask {
                script: seq![
                    crate::sql::st(
                        Form::MemberPage,
                        seq![
                            SqlV::Text(conversation),
                            SqlV::Text(after),
                            SqlV::Int(snapshot),
                            SqlV::Text(query),
                            SqlV::Int((limit + 1) as i64),
                        ],
                    ),
                ],
                next: NextV::MembersPage { conversation, scope, snapshot, limit: limit as usize },
            }
        },
    }
}

/// How many members a page may hold.
pub open spec fn members_limit(p: JsonV) -> int {
    crate::query::clamped(p.at("limit"@).as_unsigned(), 100, 500)
}

/// The members that fit a page.
pub open spec fn shown_ids(ids: Seq<Seq<char>>, limit: int) -> Seq<Seq<char>> {
    if ids.len() > limit {
        ids.take(limit)
    } else {
        ids
    }
}

/// The statements that ask for the names of each member.
pub open spec fn names_script(
    conversation: Seq<char>,
    ids: Seq<Seq<char>>,
    snapshot: i64,
) -> Seq<StatementV> {
    Seq::new(
        ids.len(),
        |i: int|
            crate::sql::st3(
                Form::MemberNames,
                SqlV::Text(conversation),
                SqlV::Text(ids[i]),
                SqlV::Int(snapshot),
            ),
    ).push(crate::sql::st0(Form::Generation))
}

/// What follows from the members found: their names to ask for.
pub open spec fn members_found(
    conversation: Seq<char>,
    scope: Seq<char>,
    snapshot: i64,
    limit: usize,
    ids: Seq<Seq<char>>,
) -> StepV {
    let shown = shown_ids(ids, limit as int);
    StepV::Ask {
        script: names_script(conversation, shown, snapshot),
        next: NextV::MembersNames { ids: shown, more: ids.len() > limit, scope, snapshot },
    }
}

/// The first name that says more than the identifier, or the identifier.
pub open spec fn display_name(id: Seq<char>, names: Seq<Seq<char>>) -> Seq<char>
    decreases names.len(),
{
    if names.len() == 0 {
        id
    } else if names[0].len() > 0 && names[0] != id {
        names[0]
    } else {
        display_name(id, names.skip(1))
    }
}

/// One member, as it is listed.
pub open spec fn listed_member(id: Seq<char>, names: Seq<Seq<char>>) -> JsonV {
    crate::json::object(
        seq![
            crate::json::field_v("member_id", JsonV::Str(id)),
            crate::json::field_v("name", JsonV::Str(display_name(id, names))),
            crate::json::field_v("seen_names", crate::json::text_list(names)),
        ],
    )
}

/// Whether a name says more of a member than the identifier does.
pub open spec fn says_more(id: Seq<char>, name: Seq<char>) -> bool {
    name.len() > 0 && name != id
}

/// A member is shown under the first of its names that says more than its
/// identifier, and under the identifier only where no name does.
pub proof fn law_first_telling_name_is_shown(id: Seq<char>, names: Seq<Seq<char>>)
    ensures
        (exists|k: int| 0 <= k < names.len() && says_more(id, #[trigger] names[k])) ==> exists|
            k: int,
        |
            0 <= k < names.len() && says_more(id, #[trigger] names[k]) && display_name(id, names)
                == names[k] && forall|l: int| 0 <= l < k ==> !says_more(id, #[trigger] names[l]),
        (forall|k: int| 0 <= k < names.len() ==> !says_more(id, #[trigger] names[k]))
            ==> display_name(id, names) == id,
    decreases names.len(),
{
    if names.len() > 0 {
        if says_more(id, names[0]) {
            assert(display_name(id, names) == names[0]);
        } else {
            let rest = names.skip(1);
            law_first_telling_name_is_shown(id, rest);
            assert(forall|k: int| 0 <= k < rest.len() ==> #[trigger] rest[k] == names[k + 1]);
            if exists|k: int| 0 <= k < names.len() && says_more(id, #[trigger] names[k]) {
                let k = choose|k: int| 0 <= k < names.len() && says_more(id, #[trigger] names[k]);
                assert(says_more(id, rest[k - 1]));
                let j = choose|j: int|
                    0 <= j < rest.len() && says_more(id, #[trigger] rest[j]) && display_name(
                        id,
                        rest,
                    ) == rest[j] && forall|l: int| 0 <= l < j ==> !says_more(id, #[trigger] rest[l]);
                assert(says_more(id, names[j + 1]));
                assert forall|l: int| 0 <= l < j + 1 implies !says_more(
                    id,
                    #[trigger] names[l],
                ) by {
                    if l > 0 {
                        assert(!says_more(id, rest[l - 1]));
                    }
                }
            } else {
                assert forall|k: int| 0 <= k < rest.len() implies !says_more(
                    id,
                    #[trigger] rest[k],
                ) by {
                    assert(!says_more(id, names[k + 1]));
                }
            }
        }
    }
}

/// A member is listed with its identifier, the name it is shown under, and every
/// name it was seen under, in order.
pub proof fn law_members_are_listed_whole(id: Seq<char>, names: Seq<Seq<char>>)
    ensures
        listed_member(id, names).at("member_id"@) == JsonV::Str(id),
        listed_member(id, names).at("name"@) == JsonV::Str(display_name(id, names)),
        listed_member(id, names).at("seen_names"@) matches JsonV::Arr(seen) && seen.len()
            == names.len() && forall|i: int|
            0 <= i < names.len() ==> #[trigger] seen[i] == JsonV::Str(names[i]),
{
    let o = listed_member(id, names)->Obj_0;
    reveal_strlit("member_id");
    reveal_strlit("name");
    reveal_strlit("seen_names");
    assert("member_id"@.len() == 9 && "name"@.len() == 4 && "seen_names"@.len() == 10);
    assert(crate::json::names_differ(o));
    crate::json::lemma_member_at(o, 0);
    crate::json::lemma_member_at(o, 1);
    crate::json::lemma_member_at(o, 2);
}

/// The answer that holds a page of members.
pub open spec fn member_page(items: Seq<JsonV>, more: bool, cursor: Option<Seq<char>>) -> JsonV {
    crate::json::object(
        seq![
            crate::json::field_v("items", JsonV::Arr(items)),
            crate::json::field_v("has_more", JsonV::Bool(more)),
            crate::json::field_v("next_cursor", crate::json::text_or_null(cursor)),
        ],
    )
}

/// Whether the answers are the names of each member and the generation.
pub open spec fn names_fit(answers: Seq<AnswerV>, ids: nat) -> bool {
    &&& answers.len() == ids + 1
    &&& forall|i: int| 0 <= i < ids ==> (#[trigger] answers[i]) is Texts
    &&& answers[ids as int] is Number
}

/// The page that the members and their names make. Where there is more, the
/// cursor stands at the last member shown.
pub open spec fn members_page(
    index: IndexV,
    ids: Seq<Seq<char>>,
    more: bool,
    scope: Seq<char>,
    snapshot: i64,
    answers: Seq<AnswerV>,
) -> JsonV {
    member_page(
        Seq::new(ids.len(), |i: int| listed_member(ids[i], answers[i]->Texts_0)),
        more,
        if more {
            Some(
                crate::cursor::sealed(
                    index.secret,
                    CursorV {
                        account: index.account,
                        generation: answers[ids.len() as int]->Number_0,
                        scope,
                        snapshot,
                        time: 0,
                        id: if ids.len() > 0 {
                            ids.last()
                        } else {
                            Seq::empty()
                        },
                    },
                ),
            )
        } else {
            None
        },
    )
}

// -------------------------------------------------------------------- steps

/// What comes after each stage of an operation on the archive.
pub open spec fn index_step(index: IndexV, next: NextV, answers: Seq<AnswerV>) -> StepV {
    match next {
        NextV::Listing => if answers.len() == 1 && answers[0] is Conversations {
            StepV::Done(Outcome::Ok(items_answer(listed_items(answers[0]->Conversations_0))))
        } else {
            refused("unexpected_answer"@)
        },
        NextV::Conversation { p, updates } => if answers.len() == 1 && answers[0] is Texts {
            match resolved(answers[0]->Texts_0) {
                Err(e) => refused(e),
                Ok(conversation) => StepV::Ask {
                    script: facts_script(p, conversation),
                    next: NextV::Facts { p, updates, conversation },
                },
            }
        } else {
            refused("unexpected_answer"@)
        },
        NextV::Facts { p, updates, conversation } => if facts_fit(
            answers,
            crate::query::member_names(p).len(),
        ) {
            query_planned(
                index,
                p,
                updates,
                conversation,
                answers[0]->Text_0,
                answers[1]->Number_0,
                answers[2]->Number_0,
                found_in(answers),
            )
        } else {
            refused("unexpected_answer"@)
        },
        NextV::Rows { updates, limit, scope, snapshot, since } => if answers.len() == 2
            && answers[0] is Messages && answers[1] is Number {
            StepV::Done(
                query_page(
                    index,
                    updates,
                    limit,
                    scope,
                    snapshot,
                    since,
                    answers[0]->Messages_0,
                    answers[1]->Number_0,
                ),
            )
        } else {
            refused("unexpected_answer"@)
        },
        NextV::MembersConversation { p } => if answers.len() == 1 && answers[0] is Texts {
            match resolved(answers[0]->Texts_0) {
                Err(e) => refused(e),
                Ok(conversation) => StepV::Ask {
                    script: members_facts_script(),
                    next: NextV::MembersFacts { p, conversation },
                },
            }
        } else {
            refused("unexpected_answer"@)
        },
        NextV::MembersFacts { p, conversation } => if answers.len() == 2 && answers[0] is Number
            && answers[1] is Number {
            members_planned(
                index,
                p,
                conversation,
                answers[0]->Number_0,
                answers[1]->Number_0,
            )
        } else {
            refused("unexpected_answer"@)
        },
        NextV::MembersPage { conversation, scope, snapshot, limit } => if answers.len() == 1
            && answers[0] is Texts {
            members_found(conversation, scope, snapshot, limit, answers[0]->Texts_0)
        } else {
            refused("unexpected_answer"@)
        },
        NextV::MembersNames { ids, more, scope, snapshot } => if names_fit(answers, ids.len()) {
            StepV::Done(
                Outcome::Ok(members_page(index, ids, more, scope, snapshot, answers)),
            )
        } else {
            refused("unexpected_answer"@)
        },
    }
}

/// Whether a page hands back the cursor that goes on behind it: a token that
/// opens, under the same permissions, to the place where the page stopped.
pub open spec fn hands_back(
    index: IndexV,
    page: JsonV,
    scope: Seq<char>,
    snapshot: i64,
    generation: i64,
    place: Option<(i64, Seq<char>)>,
) -> bool {
    match place {
        Some((time, id)) => page.at("next_cursor"@) matches JsonV::Str(token)
            && crate::cursor::unsealed(index.secret, index.account, scope, generation, token)
            == CursorRead::Ok(
            CursorV { account: index.account, generation, scope, snapshot, time, id },
        ),
        None => page.at("next_cursor"@) == JsonV::Null,
    }
}

/// Whether a step that ends in a page hands back the cursor that goes on
/// behind it.
pub open spec fn can_go_on(index: IndexV, next: NextV, answers: Seq<AnswerV>, step: StepV) -> bool {
    match (next, step) {
        (
            NextV::Rows { updates, limit, scope, snapshot, since },
            StepV::Done(Ok(page)),
        ) => hands_back(
            index,
            page,
            scope,
            snapshot,
            answers[1]->Number_0,
            crate::query::stopped(
                crate::query::shown(answers[0]->Messages_0, limit as int),
                updates,
                since,
            ),
        ),
        (
            NextV::MembersNames { ids, more, scope, snapshot },
            StepV::Done(Ok(page)),
        ) => ids.len() > 0 ==> hands_back(
            index,
            page,
            scope,
            snapshot,
            answers[ids.len() as int]->Number_0,
            if more {
                Some((0i64, ids.last()))
            } else {
                None
            },
        ),
        _ => true,
    }
}

proof fn lemma_cursor_of_message_page(items: Seq<JsonV>, more: bool, cursor: Option<Seq<char>>)
    ensures
        crate::query::message_page(items, more, cursor).at("next_cursor"@)
            == crate::json::text_or_null(cursor),
{
    reveal_strlit("items");
    reveal_strlit("has_more");
    reveal_strlit("next_cursor");
    reveal_with_fuel(crate::json::member, 4);
    assert("items"@.len() != "next_cursor"@.len());
    assert("has_more"@.len() != "next_cursor"@.len());
}

proof fn lemma_cursor_of_member_page(items: Seq<JsonV>, more: bool, cursor: Option<Seq<char>>)
    ensures
        member_page(items, more, cursor).at("next_cursor"@) == crate::json::text_or_null(cursor),
{
    reveal_strlit("items");
    reveal_strlit("has_more");
    reveal_strlit("next_cursor");
    reveal_with_fuel(crate::json::member, 4);
    assert("items"@.len() != "next_cursor"@.len());
    assert("has_more"@.len() != "next_cursor"@.len());
}

fn unexpected() -> (r: Step)
    ensures
        r@ == refused("unexpected_answer"@),
{
    Step::Done(Err(Fault::UnexpectedAnswer))
}

impl Index {
    /// Begins to answer a request for messages: what matches, newest first or
    /// oldest first, or what was filed since.
    pub fn query(&self, p: &Json, updates: bool) -> (r: Step)
        ensures
            r@ == query_begin(p@, updates),
    {
        let name = text(p, "conversation");
        Step::Ask {
            script: script1(Statement::of1(Form::Resolve, SqlValue::Text(name))),
            next: Next::Conversation { p: p.copy(), updates },
        }
    }

    /// Begins to answer a request for the members of a conversation.
    pub fn members(&self, p: &Json) -> (r: Step)
        ensures
            r@ == members_begin(p@),
    {
        let name = text(p, "conversation");
        Step::Ask {
            script: script1(Statement::of1(Form::Resolve, SqlValue::Text(name))),
            next: Next::MembersConversation { p: p.copy() },
        }
    }

    /// The cursor that a request presents, where it presents one.
    fn presented_cursor(&self, p: &Json, scope: &str, generation: i64) -> (r: Result<
        Option<Cursor>,
        Fault,
    >)
        ensures
            match r {
                Ok(old) => presented(self@, p@, scope@, generation) == Presented::Ok(
                    crate::query::old_view(old),
                ),
                Err(f) => presented(self@, p@, scope@, generation) == Presented::Err(f@),
            },
    {
        let token = text(p, "cursor");
        if token.as_str().is_empty() {
            return Ok(None);
        }
        match unseal(&self.secret, self.account.as_str(), scope, generation, token.as_str()) {
            Ok(c) => Ok(Some(c)),
            Err(f) => Err(f),
        }
    }

    fn on_conversation(&self, p: Json, updates: bool, ids: &Vec<String>) -> (r: Step)
        ensures
            r@ == match resolved(crate::text::texts_view(ids@)) {
                Err(e) => refused(e),
                Ok(conversation) => StepV::Ask {
                    script: facts_script(p@, conversation),
                    next: NextV::Facts { p: p@, updates, conversation },
                },
            },
    {
        let conversation = match self.resolve(ids) {
            Ok(c) => c,
            Err(f) => {
                return Step::Done(Err(f));
            },
        };
        let mut script = vec![
            Statement::of1(Form::State, bind(conversation.as_str())),
            Statement::of0(Form::Generation),
            Statement::of0(Form::NewestMessage),
        ];
        let names = names_of_members(&p);
        let ghost all = crate::text::texts_view(names@);
        let ghost head = script@;
        let mut i: usize = 0;
        while i < names.len()
            invariant
                all == crate::text::texts_view(names@),
                i <= names@.len(),
                head.len() == 3,
                script@.len() == 3 + i,
                forall|k: int| 0 <= k < 3 ==> #[trigger] script@[k] == head[k],
                forall|k: int|
                    3 <= k < script@.len() ==> (#[trigger] script@[k])@ == crate::sql::st2(
                        Form::MemberIds,
                        SqlV::Text(conversation@),
                        SqlV::Text(all[k - 3]),
                    ),
            decreases names@.len() - i,
        {
            script.push(
                Statement::of2(
                    Form::MemberIds,
                    bind(conversation.as_str()),
                    bind(names[i].as_str()),
                ),
            );
            i = i + 1;
        }
        assert(crate::sql::script_view(script@) =~= facts_script(p@, conversation@));
        Step::Ask { script, next: Next::Facts { p, updates, conversation } }
    }

    fn on_facts(
        &self,
        p: &Json,
        updates: bool,
        conversation: &str,
        answers: &Vec<Answer>,
    ) -> (r: Step)
        ensures
            r@ == index_step(
                self@,
                NextV::Facts { p: p@, updates, conversation: conversation@ },
                crate::sql::answers_view(answers@),
            ),
    {
        let names = names_of_members(p);
        let ghost all = crate::sql::answers_view(answers@);
        if answers.len() < 3 || answers.len() - 3 != names.len() {
            return unexpected();
        }
        assert(all[0] == answers@[0]@ && all[1] == answers@[1]@ && all[2] == answers@[2]@);
        let (state, generation, newest) = match (&answers[0], &answers[1], &answers[2]) {
            (Answer::Text(s), Answer::Number(g), Answer::Number(n)) => (s, *g, *n),
            _ => {
                return unexpected();
            },
        };
        let mut found: Vec<Vec<String>> = Vec::new();
        let mut i: usize = 3;
        while i < answers.len()
            invariant
                all == crate::sql::answers_view(answers@),
                3 <= i <= answers@.len(),
                found@.len() == i - 3,
                forall|k: int| 3 <= k < i ==> (#[trigger] all[k]) is Texts,
                forall|k: int|
                    0 <= k < found@.len() ==> crate::text::texts_view((#[trigger] found@[k])@)
                        == all[3 + k]->Texts_0,
                all.len() == 3 + crate::query::member_names(p@).len(),
            decreases answers@.len() - i,
        {
            assert(all[i as int] == answers@[i as int]@);
            match &answers[i] {
                Answer::Texts(v) => {
                    found.push(copy_texts(v));
                },
                _ => {
                    return unexpected();
                },
            }
            i = i + 1;
        }
        assert(crate::query::found_view(found@) =~= found_in(all));
        if !same(state.as_str(), "ready") {
            return Step::Done(Ok(not_ready_json(state.as_str())));
        }
        let scope = scope_of_query(p, updates);
        let old = match self.presented_cursor(p, scope.as_str(), generation) {
            Ok(old) => old,
            Err(f) => {
                return Step::Done(Err(f));
            },
        };
        let snapshot: i64 = if updates {
            i64::MAX
        } else {
            match &old {
                Some(c) => c.snapshot,
                None => newest,
            }
        };
        let since: i64 = match &old {
            Some(c) => c.time,
            None => 0,
        };
        let limit: i64 = clamp_at(p, "limit", 50, 500);
        match plan_query(p, updates, conversation, snapshot, &old, &found) {
            Ok(q) => Step::Ask {
                script: script2(Statement::Messages(q), Statement::of0(Form::Generation)),
                next: Next::Rows { updates, limit: limit as usize, scope, snapshot, since },
            },
            Err(f) => Step::Done(Err(f)),
        }
    }

    fn on_rows(
        &self,
        updates: bool,
        limit: usize,
        scope: String,
        snapshot: i64,
        since: i64,
        rows: &Vec<MessageRow>,
        generation: i64,
    ) -> (r: Result<Json, Fault>)
        ensures
            outcome_view(r) == query_page(
                self@,
                updates,
                limit,
                scope@,
                snapshot,
                since,
                crate::sql::rows_view(rows@),
                generation,
            ),
            r matches Ok(page) ==> hands_back(
                self@,
                page@,
                scope@,
                snapshot,
                generation,
                crate::query::stopped(
                    crate::query::shown(crate::sql::rows_view(rows@), limit as int),
                    updates,
                    since,
                ),
            ),
    {
        let ghost all = crate::sql::rows_view(rows@);
        let data = shown_data(rows, limit);
        let items = match parse_items(&data) {
            Ok(v) => v,
            Err(f) => {
                return Err(f);
            },
        };
        let more = rows.len() > limit;
        let n: usize = if more {
            limit
        } else {
            rows.len()
        };
        assert(crate::query::shown(all, limit as int).len() == n);
        let place: Option<(i64, String)> = if n > 0 {
            assert(crate::query::shown(all, limit as int).last() == rows@[n - 1]@);
            Some(
                (
                    if updates {
                        rows[n - 1].seq
                    } else {
                        rows[n - 1].time
                    },
                    rows[n - 1].id.clone(),
                ),
            )
        } else if updates {
            Some((since, String::new()))
        } else {
            None
        };
        let cursor = match place {
            Some((time, id)) => {
                let c = Cursor {
                    account: self.account.clone(),
                    generation,
                    scope,
                    snapshot,
                    time,
                    id,
                };
                Some(seal(&self.secret, &c))
            },
            None => None,
        };
        proof {
            lemma_cursor_of_message_page(
                crate::json::items_view(items@),
                more,
                crate::text::maybe_view(cursor),
            );
        }
        Ok(page_json(items, more, cursor))
    }

    fn on_member_facts(&self, p: &Json, conversation: String, generation: i64, newest: i64) -> (r:
        Step)
        ensures
            r@ == members_planned(self@, p@, conversation@, generation, newest),
    {
        let query = text(p, "query");
        let scope = scope_of_members(conversation.as_str(), query.as_str());
        let old = match self.presented_cursor(p, scope.as_str(), generation) {
            Ok(old) => old,
            Err(f) => {
                return Step::Done(Err(f));
            },
        };
        let snapshot: i64 = match &old {
            Some(c) => c.snapshot,
            None => newest,
        };
        let after = match &old {
            Some(c) => c.id.clone(),
            None => String::new(),
        };
        let limit: i64 = clamp_at(p, "limit", 100, 500);
        let args = vec![
            bind(conversation.as_str()),
            SqlValue::Text(after),
            SqlValue::Int(snapshot),
            SqlValue::Text(query),
            SqlValue::Int(limit + 1),
        ];
        assert(crate::sql::values_view(args@) =~= seq![
            SqlV::Text(conversation@),
            SqlV::Text(after@),
            SqlV::Int(snapshot),
            SqlV::Text(query@),
            SqlV::Int((limit + 1) as i64),
        ]);
        Step::Ask {
            script: script1(Statement::of(Form::MemberPage, args)),
            next: Next::MembersPage { conversation, scope, snapshot, limit: limit as usize },
        }
    }

    fn on_member_ids(
        conversation: &str,
        scope: String,
        snapshot: i64,
        limit: usize,
        ids: &Vec<String>,
    ) -> (r: Step)
        ensures
            r@ == members_found(
                conversation@,
                scope@,
                snapshot,
                limit,
                crate::text::texts_view(ids@),
            ),
    {
        let ghost all = crate::text::texts_view(ids@);
        let more = ids.len() > limit;
        let n: usize = if more {
            limit
        } else {
            ids.len()
        };
        let mut shown: Vec<String> = Vec::new();
        let mut script: Vec<Statement> = Vec::new();
        let mut i: usize = 0;
        while i < n
            invariant
                i <= n <= ids@.len(),
                all == crate::text::texts_view(ids@),
                shown@.len() == i,
                script@.len() == i,
                forall|k: int| 0 <= k < i ==> (#[trigger] shown@[k])@ == all[k],
                forall|k: int|
                    0 <= k < i ==> (#[trigger] script@[k])@ == crate::sql::st3(
                        Form::MemberNames,
                        SqlV::Text(conversation@),
                        SqlV::Text(all[k]),
                        SqlV::Int(snapshot),
                    ),
            decreases n - i,
        {
            shown.push(ids[i].clone());
            script.push(
                Statement::of3(
                    Form::MemberNames,
                    bind(conversation),
                    bind(ids[i].as_str()),
                    SqlValue::Int(snapshot),
                ),
            );
            i = i + 1;
        }
        script.push(Statement::of0(Form::Generation));
        assert(crate::text::texts_view(shown@) =~= shown_ids(all, limit as int));
        assert(crate::sql::script_view(script@) =~= names_script(
            conversation@,
            shown_ids(all, limit as int),
            snapshot,
        ));
        Step::Ask { script, next: Next::MembersNames { ids: shown, more, scope, snapshot } }
    }

    fn on_member_names(
        &self,
        ids: &Vec<String>,
        more: bool,
        scope: String,
        snapshot: i64,
        answers: &Vec<Answer>,
    ) -> (r: Step)
        ensures
            r@ == index_step(
                self@,
                NextV::MembersNames {
                    ids: crate::text::texts_view(ids@),
                    more,
                    scope: scope@,
                    snapshot,
                },
                crate::sql::answers_view(answers@),
            ),
            can_go_on(
                self@,
                NextV::MembersNames {
                    ids: crate::text::texts_view(ids@),
                    more,
                    scope: scope@,
                    snapshot,
                },
                crate::sql::answers_view(answers@),
                r@,
            ),
    {
        let ghost all = crate::sql::answers_view(answers@);
        let ghost people = crate::text::texts_view(ids@);
        if answers.len() == 0 || answers.len() - 1 != ids.len() {
            return unexpected();
        }
        let mut items: Vec<Json> = Vec::new();
        let mut i: usize = 0;
        while i < ids.len()
            invariant
                all == crate::sql::answers_view(answers@),
                people == crate::text::texts_view(ids@),
                answers@.len() == ids@.len() + 1,
                i <= ids@.len(),
                items@.len() == i,
                forall|k: int| 0 <= k < i ==> (#[trigger] all[k]) is Texts,
                forall|k: int|
                    0 <= k < i ==> (#[trigger] items@[k])@ == listed_member(
                        people[k],
                        all[k]->Texts_0,
                    ),
            decreases ids@.len() - i,
        {
            assert(all[i as int] == answers@[i as int]@);
            match &answers[i] {
                Answer::Texts(names) => items.push(member_json(ids[i].as_str(), names)),
                _ => {
                    return unexpected();
                },
            }
            i = i + 1;
        }
        assert(all[i as int] == answers@[i as int]@);
        let generation: i64 = match &answers[i] {
            Answer::Number(g) => *g,
            _ => {
                return unexpected();
            },
        };
        let ghost list = crate::json::items_view(items@);
        assert(list =~= Seq::new(
            people.len(),
            |i: int| listed_member(people[i], all[i]->Texts_0),
        ));
        let cursor = if more {
            let c = Cursor {
                account: self.account.clone(),
                generation,
                scope,
                snapshot,
                time: 0,
                id: if ids.len() > 0 {
                    ids[ids.len() - 1].clone()
                } else {
                    String::new()
                },
            };
            Some(seal(&self.secret, &c))
        } else {
            None
        };
        proof {
            lemma_cursor_of_member_page(
                list,
                more,
                crate::text::maybe_view(cursor),
            );
        }
        let mut o: Vec<Field> = Vec::new();
        put(&mut o, "items", list_of(items));
        put(&mut o, "has_more", Json::Bool(more));
        put(&mut o, "next_cursor", text_or_null_json(cursor));
        assert(crate::json::fields_view(o@) =~= members_page(
            self@,
            people,
            more,
            scope@,
            snapshot,
            all,
        )->Obj_0);
        Step::Done(Ok(object_of(o)))
    }

    /// Goes on with an operation, given what the statements it asked for gave
    /// back. A page hands back the cursor that goes on behind it.
    pub fn resume(&self, next: Next, answers: Vec<Answer>) -> (r: Step)
        ensures
            r@ == index_step(self@, next@, crate::sql::answers_view(answers@)),
            can_go_on(self@, next@, crate::sql::answers_view(answers@), r@),
    {
        let ghost all = crate::sql::answers_view(answers@);
        assert(answers@.len() > 0 ==> all[0] == answers@[0]@);
        assert(answers@.len() > 1 ==> all[1] == answers@[1]@);
        match next {
            Next::Listing => {
                if answers.len() != 1 {
                    return unexpected();
                }
                match &answers[0] {
                    Answer::Conversations(rows) => Step::Done(Ok(items_json(listed(rows)))),
                    _ => unexpected(),
                }
            },
            Next::Conversation { p, updates } => {
                if answers.len() != 1 {
                    return unexpected();
                }
                match &answers[0] {
                    Answer::Texts(ids) => self.on_conversation(p, updates, ids),
                    _ => unexpected(),
                }
            },
            Next::Facts { p, updates, conversation } => self.on_facts(
                &p,
                updates,
                conversation.as_str(),
                &answers,
            ),
            Next::Rows { updates, limit, scope, snapshot, since } => {
                if answers.len() != 2 {
                    return unexpected();
                }
                match (&answers[0], &answers[1]) {
                    (Answer::Messages(rows), Answer::Number(g)) => Step::Done(
                        self.on_rows(updates, limit, scope, snapshot, since, rows, *g),
                    ),
                    _ => unexpected(),
                }
            },
            Next::MembersConversation { p } => {
                if answers.len() != 1 {
                    return unexpected();
                }
                match &answers[0] {
                    Answer::Texts(ids) => match self.resolve(ids) {
                        Ok(conversation) => Step::Ask {
                            script: script2(
                                Statement::of0(Form::Generation),
                                Statement::of0(Form::NewestMember),
                            ),
                            next: Next::MembersFacts { p, conversation },
                        },
                        Err(f) => Step::Done(Err(f)),
                    },
                    _ => unexpected(),
                }
            },
            Next::MembersFacts { p, conversation } => {
                if answers.len() != 2 {
                    return unexpected();
                }
                match (&answers[0], &answers[1]) {
                    (Answer::Number(g), Answer::Number(n)) => self.on_member_facts(
                        &p,
                        conversation,
                        *g,
                        *n,
                    ),
                    _ => unexpected(),
                }
            },
            Next::MembersPage { conversation, scope, snapshot, limit } => {
                if answers.len() != 1 {
                    return unexpected();
                }
                match &answers[0] {
                    Answer::Texts(ids) => Index::on_member_ids(
                        conversation.as_str(),
                        scope,
                        snapshot,
                        limit,
                        ids,
                    ),
                    _ => unexpected(),
                }
            },
            Next::MembersNames { ids, more, scope, snapshot } => self.on_member_names(
                &ids,
                more,
                scope,
                snapshot,
                &answers,
            ),
        }
    }
}

fn name_shown(id: &str, names: &Vec<String>) -> (r: String)
    ensures
        r@ == display_name(id@, crate::text::texts_view(names@)),
{
    let ghost all = crate::text::texts_view(names@);
    let mut i: usize = 0;
    assert(all.skip(0) =~= all);
    while i < names.len()
        invariant
            all == crate::text::texts_view(names@),
            i <= names@.len(),
            display_name(id@, all) == display_name(id@, all.skip(i as int)),
        decreases names@.len() - i,
    {
        assert(all.skip(i as int)[0] == names@[i as int]@);
        if !names[i].as_str().is_empty() && !same(names[i].as_str(), id) {
            return names[i].clone();
        }
        assert(all.skip(i as int).skip(1) =~= all.skip(i + 1));
        i = i + 1;
    }
    id.to_owned()
}

fn member_json(id: &str, names: &Vec<String>) -> (r: Json)
    ensures
        r@ == listed_member(id@, crate::text::texts_view(names@)),
{
    let mut o: Vec<Field> = Vec::new();
    put(&mut o, "member_id", str_json(id));
    put(&mut o, "name", Json::Str(name_shown(id, names)));
    put(&mut o, "seen_names", texts_json(names));
    assert(crate::json::fields_view(o@) =~= listed_member(
        id@,
        crate::text::texts_view(names@),
    )->Obj_0);
    object_of(o)
}

/// A message is filed under its identifier, its conversation, its sender, its
/// time and its type, with its text as it is and as it is indexed, and with all
/// that is stored of it.
pub proof fn law_messages_are_filed_whole(source: SourceMessageV)
    ensures
        file_message(source) matches StatementV::Fixed { form, args } && {
            &&& form == Form::InsertMessage
            &&& args.len() == 9
            &&& args[0] == SqlV::Text(message_id(source))
            &&& args[1] == SqlV::Text(source.message.talker@)
            &&& args[2] == SqlV::Text(source.message.sender@)
            &&& args[3] == SqlV::Int(source.message.create_time)
            &&& args[4] == SqlV::Int(source.message.sort_seq)
            &&& args[5] == SqlV::Text(crate::content::kind_of(source.message.content))
            &&& args[6] == SqlV::Text(crate::content::body_of(source.message.content))
            &&& args[7] == SqlV::Text(
                crate::search::tokenized(crate::content::body_of(source.message.content)),
            )
            &&& args[8] == SqlV::Text(crate::json::json_text(message_data(source)))
        },
{
}

/// The identifier of a message names its conversation first, then the number
/// that the server gave it or, while it has none, the shard and the row where it
/// lies, with colons between.
pub proof fn law_identifiers_name_the_conversation(source: SourceMessageV)
    ensures
        source.message.server_id != 0 ==> message_id(source) == crate::text::joined(
            seq![source.message.talker@, crate::text::decimal(source.message.server_id as int)],
            ":"@,
        ),
        source.message.server_id == 0 ==> message_id(source) == crate::text::joined(
            seq![
                source.message.talker@,
                source.shard_id,
                crate::text::decimal(source.position.local_id as int),
            ],
            ":"@,
        ),
{
    let talker = source.message.talker@;
    let number = crate::text::decimal(source.message.server_id as int);
    let place = crate::text::decimal(source.position.local_id as int);
    crate::text::law_parts_are_joined(Seq::empty(), talker, ":"@);
    crate::text::law_parts_are_joined(seq![talker], number, ":"@);
    crate::text::law_parts_are_joined(seq![talker], source.shard_id, ":"@);
    crate::text::law_parts_are_joined(seq![talker, source.shard_id], place, ":"@);
    assert(seq![talker].push(number) =~= seq![talker, number]);
    assert(seq![talker].push(source.shard_id) =~= seq![talker, source.shard_id]);
    assert(seq![talker, source.shard_id].push(place) =~= seq![talker, source.shard_id, place]);
}

/// A page of members shows every member found, in order, each with the names
/// that were found for it, and no more than the page may hold.
pub proof fn law_members_are_shown_with_their_names(
    index: IndexV,
    conversation: Seq<char>,
    scope: Seq<char>,
    snapshot: i64,
    limit: usize,
    ids: Seq<Seq<char>>,
    answers: Seq<AnswerV>,
)
    ensures
        members_found(conversation, scope, snapshot, limit, ids) matches StepV::Ask { script, next }
            && {
            let shown = if ids.len() > limit {
                ids.take(limit as int)
            } else {
                ids
            };
            &&& script.len() == shown.len() + 1
            &&& forall|i: int|
                0 <= i < shown.len() ==> #[trigger] script[i] == crate::sql::st3(
                    Form::MemberNames,
                    SqlV::Text(conversation),
                    SqlV::Text(shown[i]),
                    SqlV::Int(snapshot),
                )
            &&& script.last() == crate::sql::st0(Form::Generation)
            &&& names_fit(answers, shown.len()) ==> (index_step(
                index,
                next,
                answers,
            ) matches StepV::Done(Ok(page)) && page == members_page(
                index,
                shown,
                ids.len() > limit,
                scope,
                snapshot,
                answers,
            ))
        },
        names_fit(answers, ids.len()) ==> (members_page(
            index,
            ids,
            true,
            scope,
            snapshot,
            answers,
        ).at("items"@) matches JsonV::Arr(items) && items.len() == ids.len() && forall|i: int|
            0 <= i < ids.len() ==> #[trigger] items[i] == listed_member(
                ids[i],
                answers[i]->Texts_0,
            )),
{
    reveal_with_fuel(crate::json::member, 2);
}

/// A page of members is shown once the names of each and the permissions have
/// been told: true answers to what was asked are never turned away.
pub proof fn law_told_names_are_shown(
    a: crate::model::Archive,
    index: IndexV,
    conversation: Seq<char>,
    scope: Seq<char>,
    snapshot: i64,
    ids: Seq<Seq<char>>,
    more: bool,
    answers: Seq<AnswerV>,
)
    requires
        answers.len() == names_script(conversation, ids, snapshot).len(),
        forall|i: int|
            0 <= i < answers.len() ==> crate::model::tells(
                a,
                #[trigger] names_script(conversation, ids, snapshot)[i],
                answers[i],
            ),
    ensures
        index_step(index, NextV::MembersNames { ids, more, scope, snapshot }, answers)
            == StepV::Done(Outcome::Ok(members_page(index, ids, more, scope, snapshot, answers))),
        forall|i: int|
            0 <= i < ids.len() ==> crate::model::tells(
                a,
                crate::sql::st3(
                    Form::MemberNames,
                    SqlV::Text(conversation),
                    SqlV::Text(#[trigger] ids[i]),
                    SqlV::Int(snapshot),
                ),
                answers[i],
            ),
        answers.last() matches AnswerV::Number(n) && n == a.generation,
{
    let script = names_script(conversation, ids, snapshot);
    assert forall|i: int| 0 <= i < ids.len() implies (#[trigger] answers[i]) is Texts
        && crate::model::tells(
        a,
        crate::sql::st3(
            Form::MemberNames,
            SqlV::Text(conversation),
            SqlV::Text(ids[i]),
            SqlV::Int(snapshot),
        ),
        answers[i],
    ) by {
        assert(crate::model::tells(a, script[i], answers[i]));
    }
    assert(crate::model::tells(a, script[ids.len() as int], answers[ids.len() as int]));
}

/// A page of messages says that there are more exactly when more rows were found
/// than it may hold.
pub proof fn law_more_is_said_where_more_was_found(
    index: IndexV,
    updates: bool,
    limit: usize,
    scope: Seq<char>,
    snapshot: i64,
    since: i64,
    rows: Seq<MessageRowV>,
    generation: i64,
)
    ensures
        query_page(
            index,
            updates,
            limit,
            scope,
            snapshot,
            since,
            rows,
            generation,
        ) matches Ok(page) ==> page.at("has_more"@) == JsonV::Bool(rows.len() > limit),
{
    reveal_strlit("items");
    reveal_strlit("has_more");
    reveal_with_fuel(crate::json::member, 3);
    assert("items"@.len() != "has_more"@.len());
}

} // verus!
