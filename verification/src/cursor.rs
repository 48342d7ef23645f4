//! Cursors: where a listing stopped, sealed so that only the archive that made
//! one can read it.
use vstd::prelude::*;

use serde::ser::{SerializeStruct, Serializer};

use crate::fault::Fault;
use crate::json::{parse, Json, JsonRead, JsonV};
use crate::primitives::{hex_decode, hex_encode, tag, tag_matches};
use crate::text::{chars_of, concat, same, string_of};

verus! {

/// Where a listing stopped, and what it was a listing of.
pub struct Cursor {
    pub account: String,
    pub generation: i64,
    pub scope: String,
    pub snapshot: i64,
    pub time: i64,
    pub id: String,
}

/// The mathematical view of a cursor.
pub struct CursorV {
    pub account: Seq<char>,
    pub generation: i64,
    pub scope: Seq<char>,
    pub snapshot: i64,
    pub time: i64,
    pub id: Seq<char>,
}

impl View for Cursor {
    type V = CursorV;

    open spec fn view(&self) -> CursorV {
        CursorV {
            account: self.account@,
            generation: self.generation,
            scope: self.scope@,
            snapshot: self.snapshot,
            time: self.time,
            id: self.id@,
        }
    }
}

/// The JSON text, in bytes, that `serde_json` writes for a cursor.
pub uninterp spec fn cursor_json(c: CursorV) -> Seq<u8>;

/// A cursor as a JSON object, its members in the order of their names.
pub open spec fn cursor_object(c: CursorV) -> JsonV {
    crate::json::object(
        seq![
            crate::json::field_v("account", JsonV::Str(c.account)),
            crate::json::field_v("generation", JsonV::Num(c.generation as int)),
            crate::json::field_v("id", JsonV::Str(c.id)),
            crate::json::field_v("scope", JsonV::Str(c.scope)),
            crate::json::field_v("snapshot", JsonV::Num(c.snapshot as int)),
            crate::json::field_v("time", JsonV::Num(c.time as int)),
        ],
    )
}

/// `serde_json::Serializer` on a structure of six members, in the order of the
/// fields. The bytes depend on the cursor alone, and hold the object with those
/// members. Writing text and whole numbers to memory does not fail.
#[verifier::external_body]
fn write_cursor(c: &Cursor) -> (r: Vec<u8>)
    ensures
        r@ == cursor_json(c@),
        crate::json::json_value(r@) == JsonRead::Ok(cursor_object(c@)),
{
    let mut out = Vec::new();
    let mut json = serde_json::Serializer::new(&mut out);
    let mut s = json.serialize_struct("Cursor", 6).expect("memory");
    s.serialize_field("account", &c.account).expect("memory");
    s.serialize_field("generation", &c.generation).expect("memory");
    s.serialize_field("scope", &c.scope).expect("memory");
    s.serialize_field("snapshot", &c.snapshot).expect("memory");
    s.serialize_field("time", &c.time).expect("memory");
    s.serialize_field("id", &c.id).expect("memory");
    s.end().expect("memory");
    out
}

/// A cursor that was read, or the text of the refusal.
pub type CursorRead = Result<CursorV, Seq<char>>;

/// The cursor that six values make, each of its type.
pub open spec fn cursor_of(
    account: JsonV,
    generation: JsonV,
    scope: JsonV,
    snapshot: JsonV,
    time: JsonV,
    id: JsonV,
) -> Option<CursorV> {
    match (
        account.as_text(),
        generation.as_signed(),
        scope.as_text(),
        snapshot.as_signed(),
        time.as_signed(),
        id.as_text(),
    ) {
        (
            Some(account),
            Some(generation),
            Some(scope),
            Some(snapshot),
            Some(time),
            Some(id),
        ) => Some(
            CursorV {
                account,
                generation: generation as i64,
                scope,
                snapshot: snapshot as i64,
                time: time as i64,
                id,
            },
        ),
        _ => None,
    }
}

/// The cursor that a JSON value holds: as the members of an object, or as the
/// items of a list in the order of the fields.
pub open spec fn cursor_in(j: JsonV) -> Option<CursorV> {
    match j {
        JsonV::Arr(a) => if a.len() == 6 {
            cursor_of(a[0], a[1], a[2], a[3], a[4], a[5])
        } else {
            None
        },
        _ => cursor_of(
            j.at("account"@),
            j.at("generation"@),
            j.at("scope"@),
            j.at("snapshot"@),
            j.at("time"@),
            j.at("id"@),
        ),
    }
}

/// The cursor that the bytes of a JSON text hold. The text is read as a value
/// first: of members with one name the last counts, and a value that holds no
/// cursor is refused in one way, whatever it lacks.
pub open spec fn json_cursor(data: Seq<u8>) -> CursorRead {
    match crate::json::json_value(data) {
        Err(e) => CursorRead::Err(e),
        Ok(j) => match cursor_in(j) {
            Some(c) => CursorRead::Ok(c),
            None => CursorRead::Err("invalid_cursor"@),
        },
    }
}

proof fn lemma_cursor_comes_back(c: CursorV)
    ensures
        cursor_in(cursor_object(c)) == Some(c),
{
    reveal_strlit("account");
    reveal_strlit("generation");
    reveal_strlit("id");
    reveal_strlit("scope");
    reveal_strlit("snapshot");
    reveal_strlit("time");
    reveal_with_fuel(crate::json::member, 7);
    assert("account"@.len() == 7);
    assert("generation"@.len() == 10);
    assert("id"@.len() == 2);
    assert("scope"@.len() == 5);
    assert("snapshot"@.len() == 8);
    assert("time"@.len() == 4);
}

fn made_of(
    account: Option<&String>,
    generation: Option<i64>,
    scope: Option<&String>,
    snapshot: Option<i64>,
    time: Option<i64>,
    id: Option<&String>,
) -> (r: Option<Cursor>)
    ensures
        r is Some <==> account is Some && generation is Some && scope is Some && snapshot is Some
            && time is Some && id is Some,
        r matches Some(c) ==> c@ == (CursorV {
            account: account->0@,
            generation: generation->0,
            scope: scope->0@,
            snapshot: snapshot->0,
            time: time->0,
            id: id->0@,
        }),
{
    match (account, generation, scope, snapshot, time, id) {
        (
            Some(account),
            Some(generation),
            Some(scope),
            Some(snapshot),
            Some(time),
            Some(id),
        ) => Some(
            Cursor {
                account: account.clone(),
                generation,
                scope: scope.clone(),
                snapshot,
                time,
                id: id.clone(),
            },
        ),
        _ => None,
    }
}

fn read_cursor(data: &[u8]) -> (r: Result<Cursor, Fault>)
    ensures
        match r {
            Ok(c) => json_cursor(data@) == CursorRead::Ok(c@),
            Err(f) => json_cursor(data@) == CursorRead::Err(f@),
        },
{
    let j = match parse(data) {
        Ok(j) => j,
        Err(e) => {
            return Err(Fault::Other(e));
        },
    };
    let c = match &j {
        Json::Arr(a) => if a.len() == 6 {
            made_of(
                a[0].as_str(),
                a[1].as_signed(),
                a[2].as_str(),
                a[3].as_signed(),
                a[4].as_signed(),
                a[5].as_str(),
            )
        } else {
            None
        },
        _ => made_of(
            j.str_at("account"),
            j.signed_at("generation"),
            j.str_at("scope"),
            j.signed_at("snapshot"),
            j.signed_at("time"),
            j.str_at("id"),
        ),
    };
    match c {
        Some(c) => Ok(c),
        None => Err(Fault::InvalidCursor),
    }
}

/// How many characters stand before the first full stop.
pub open spec fn before_dot(s: Seq<char>) -> nat
    decreases s.len(),
{
    if s.len() == 0 || s[0] == '.' {
        0
    } else {
        1 + before_dot(s.skip(1))
    }
}

/// What stands before the first full stop and what stands after it.
pub open spec fn halves(s: Seq<char>) -> Option<(Seq<char>, Seq<char>)> {
    let n = before_dot(s) as int;
    if n < s.len() {
        Some((s.take(n), s.skip(n + 1)))
    } else {
        None
    }
}

/// The payload of a token whose tag is genuine, or the text of the refusal.
pub type Payload = Result<Seq<u8>, Seq<char>>;

/// What a token carries, in the eyes of the holder of `secret`.
pub open spec fn opened(secret: Seq<u8>, token: Seq<char>) -> Payload {
    match halves(token) {
        None => Payload::Err("invalid_cursor"@),
        Some((payload, sig)) => if !crate::primitives::is_hex(payload) {
            Payload::Err("invalid_cursor"@)
        } else if !crate::primitives::is_hex(sig) {
            Payload::Err(crate::primitives::hex_error(sig))
        } else if crate::primitives::hex_bytes(sig) != crate::primitives::hmac_sha256(
            secret,
            crate::primitives::hex_bytes(payload),
        ) {
            Payload::Err("invalid_cursor"@)
        } else {
            Payload::Ok(crate::primitives::hex_bytes(payload))
        },
    }
}

/// The token that stands for a cursor: its JSON text and the tag of that text,
/// both in hexadecimal, a full stop between them.
pub open spec fn sealed(secret: Seq<u8>, c: CursorV) -> Seq<char> {
    crate::primitives::hex_text(cursor_json(c)) + "."@ + crate::primitives::hex_text(
        crate::primitives::hmac_sha256(secret, cursor_json(c)),
    )
}

/// The cursor that a token stands for where it is presented for `scope`, by
/// `account`, while the permissions are at `generation`.
pub open spec fn unsealed(
    secret: Seq<u8>,
    account: Seq<char>,
    scope: Seq<char>,
    generation: i64,
    token: Seq<char>,
) -> CursorRead {
    match opened(secret, token) {
        Err(e) => CursorRead::Err(e),
        Ok(data) => match json_cursor(data) {
            Err(e) => CursorRead::Err(e),
            Ok(c) => if c.account != account || c.scope != scope || c.generation != generation {
                CursorRead::Err("cursor_scope_changed"@)
            } else {
                CursorRead::Ok(c)
            },
        },
    }
}

proof fn lemma_before_dot(head: Seq<char>, tail: Seq<char>)
    requires
        forall|i: int| 0 <= i < head.len() ==> head[i] != '.',
    ensures
        before_dot(head + seq!['.'] + tail) == head.len(),
    decreases head.len(),
{
    let s = head + seq!['.'] + tail;
    if head.len() > 0 {
        assert(s.skip(1) =~= head.skip(1) + seq!['.'] + tail);
        lemma_before_dot(head.skip(1), tail);
    }
}

/// A token opens to the payload that it was made of, for whoever holds the
/// secret that it was made with.
pub proof fn law_genuine_token_opens(secret: Seq<u8>, data: Seq<u8>)
    ensures
        opened(
            secret,
            crate::primitives::hex_text(data) + "."@ + crate::primitives::hex_text(
                crate::primitives::hmac_sha256(secret, data),
            ),
        ) == Payload::Ok(data),
{
    reveal_strlit(".");
    let head = crate::primitives::hex_text(data);
    let tail = crate::primitives::hex_text(crate::primitives::hmac_sha256(secret, data));
    let token = head + "."@ + tail;
    assert("."@ =~= seq!['.']);
    crate::primitives::law_hex_round_trip(data);
    crate::primitives::law_hex_round_trip(crate::primitives::hmac_sha256(secret, data));
    assert forall|i: int| 0 <= i < head.len() implies head[i] != '.' by {
        assert(crate::primitives::hex_value(head[i]) is Some);
    }
    lemma_before_dot(head, tail);
    assert(token.take(head.len() as int) =~= head);
    assert(token.skip(head.len() as int + 1) =~= tail);
}

/// Seals a cursor. The token opens to the same cursor for the account, scope
/// and generation that it names.
pub fn seal(secret: &Vec<u8>, c: &Cursor) -> (r: String)
    ensures
        r@ == sealed(secret@, c@),
        unsealed(secret@, c@.account, c@.scope, c@.generation, r@) == CursorRead::Ok(c@),
{
    let data = write_cursor(c);
    let sig = tag(secret.as_slice(), data.as_slice());
    let head = hex_encode(data.as_slice());
    let stem = concat(head.as_str(), ".");
    let tail = hex_encode(sig.as_slice());
    proof {
        law_genuine_token_opens(secret@, data@);
        lemma_cursor_comes_back(c@);
    }
    concat(stem.as_str(), tail.as_str())
}

/// Opens a token that is presented for `scope`. One that was not sealed with
/// the secret is refused, and so is one sealed for another account or scope or
/// at another generation of permissions.
pub fn unseal(
    secret: &Vec<u8>,
    account: &str,
    scope: &str,
    generation: i64,
    token: &str,
) -> (r: Result<Cursor, Fault>)
    ensures
        match r {
            Ok(c) => unsealed(secret@, account@, scope@, generation, token@) == CursorRead::Ok(c@),
            Err(f) => unsealed(secret@, account@, scope@, generation, token@) == CursorRead::Err(
                f@,
            ),
        },
{
    let v = chars_of(token);
    let mut n: usize = 0;
    assert(token@.skip(0) =~= token@);
    while n < v.len() && v[n] != '.'
        invariant
            v@ == token@,
            n <= v@.len(),
            before_dot(token@) == n + before_dot(token@.skip(n as int)),
        decreases v@.len() - n,
    {
        assert(token@.skip(n as int).skip(1) =~= token@.skip(n + 1));
        n = n + 1;
    }
    if n == v.len() {
        return Err(Fault::InvalidCursor);
    }
    let payload = string_of(&v, 0, n);
    let sig = string_of(&v, n + 1, v.len());
    assert(payload@ =~= token@.take(n as int));
    assert(sig@ =~= token@.skip(n + 1));
    let data = match hex_decode(payload.as_str()) {
        Ok(b) => b,
        Err(_) => {
            return Err(Fault::InvalidCursor);
        },
    };
    let given = match hex_decode(sig.as_str()) {
        Ok(b) => b,
        Err(e) => {
            return Err(Fault::Other(e));
        },
    };
    if !tag_matches(secret.as_slice(), data.as_slice(), given.as_slice()) {
        return Err(Fault::InvalidCursor);
    }
    match read_cursor(data.as_slice()) {
        Ok(c) => {
            if !same(c.account.as_str(), account) || !same(c.scope.as_str(), scope) || c.generation
                != generation {
                Err(Fault::CursorScopeChanged)
            } else {
                Ok(c)
            }
        },
        Err(f) => Err(f),
    }
}

/// A token is accepted only with the genuine tag of its payload.
pub proof fn law_forged_cursor_is_refused(
    secret: Seq<u8>,
    account: Seq<char>,
    scope: Seq<char>,
    generation: i64,
    payload: Seq<char>,
    sig: Seq<char>,
)
    requires
        forall|i: int| 0 <= i < payload.len() ==> payload[i] != '.',
        crate::primitives::is_hex(sig) ==> crate::primitives::hex_bytes(sig)
            != crate::primitives::hmac_sha256(secret, crate::primitives::hex_bytes(payload)),
    ensures
        unsealed(secret, account, scope, generation, payload + seq!['.'] + sig) is Err,
{
    let token = payload + seq!['.'] + sig;
    lemma_before_dot(payload, sig);
    assert(token.take(payload.len() as int) =~= payload);
    assert(token.skip(payload.len() as int + 1) =~= sig);
}

/// A token is accepted for one account, one scope and one generation at most:
/// every change of permissions ends all cursors that were out.
pub proof fn law_cursor_is_bound(
    secret: Seq<u8>,
    account: Seq<char>,
    scope: Seq<char>,
    generation: i64,
    other_account: Seq<char>,
    other_scope: Seq<char>,
    other_generation: i64,
    token: Seq<char>,
)
    requires
        unsealed(secret, account, scope, generation, token) is Ok,
        account != other_account || scope != other_scope || generation != other_generation,
    ensures
        unsealed(secret, other_account, other_scope, other_generation, token) == CursorRead::Err(
            "cursor_scope_changed"@,
        ),
{
}

/// A cursor is read from six values of their types and from nothing else: from
/// the members of an object by their names, or from a list of exactly six in
/// order.
pub proof fn law_cursors_are_read_whole(j: JsonV, c: CursorV)
    ensures
        !(j is Arr) ==> (cursor_in(j) == Some(c) <==> {
            &&& j.at("account"@) == JsonV::Str(c.account)
            &&& j.at("scope"@) == JsonV::Str(c.scope)
            &&& j.at("id"@) == JsonV::Str(c.id)
            &&& is_number(j.at("generation"@), c.generation)
            &&& is_number(j.at("snapshot"@), c.snapshot)
            &&& is_number(j.at("time"@), c.time)
        }),
        j matches JsonV::Arr(a) ==> (cursor_in(j) == Some(c) <==> {
            &&& a.len() == 6
            &&& a[0] == JsonV::Str(c.account)
            &&& is_number(a[1], c.generation)
            &&& a[2] == JsonV::Str(c.scope)
            &&& is_number(a[3], c.snapshot)
            &&& is_number(a[4], c.time)
            &&& a[5] == JsonV::Str(c.id)
        }),
{
}

/// Whether a value is a number of 64 bits with a sign, and which.
pub open spec fn is_number(j: JsonV, n: i64) -> bool {
    j matches JsonV::Num(k) && k <= i64::MAX && k as i64 == n
}

/// A token that is not made of two parts, a full stop between them, is refused,
/// and so is one whose first part is not hexadecimal, whose second part is not,
/// or is not the tag of the first.
pub proof fn law_tokens_are_refused_for(secret: Seq<u8>, payload: Seq<char>, sig: Seq<char>)
    requires
        forall|i: int| 0 <= i < payload.len() ==> payload[i] != '.',
    ensures
        opened(secret, payload) == Payload::Err("invalid_cursor"@),
        ({
            let token = payload + seq!['.'] + sig;
            let genuine = crate::primitives::hex_bytes(sig) == crate::primitives::hmac_sha256(
                secret,
                crate::primitives::hex_bytes(payload),
            );
            &&& !crate::primitives::is_hex(payload) ==> opened(secret, token) == Payload::Err(
                "invalid_cursor"@,
            )
            &&& crate::primitives::is_hex(payload) && !crate::primitives::is_hex(sig) ==> opened(
                secret,
                token,
            ) == Payload::Err(crate::primitives::hex_error(sig))
            &&& crate::primitives::is_hex(payload) && crate::primitives::is_hex(sig) && !genuine
                ==> opened(secret, token) == Payload::Err("invalid_cursor"@)
            &&& crate::primitives::is_hex(payload) && crate::primitives::is_hex(sig) && genuine
                ==> opened(secret, token) == Payload::Ok(crate::primitives::hex_bytes(payload))
        }),
{
    let token = payload + seq!['.'] + sig;
    lemma_before_dot(payload, sig);
    lemma_no_dot(payload);
    assert(token.take(payload.len() as int) =~= payload);
    assert(token.skip(payload.len() as int + 1) =~= sig);
}

proof fn lemma_no_dot(s: Seq<char>)
    requires
        forall|i: int| 0 <= i < s.len() ==> s[i] != '.',
    ensures
        before_dot(s) == s.len(),
    decreases s.len(),
{
    if s.len() > 0 {
        lemma_no_dot(s.skip(1));
    }
}

/// What was sealed opens to the text of the cursor, and a text that holds no
/// cursor is refused, as is one that is no JSON.
pub proof fn law_sealed_cursors_open(secret: Seq<u8>, c: CursorV, data: Seq<u8>)
    ensures
        opened(secret, sealed(secret, c)) == Payload::Ok(cursor_json(c)),
        crate::json::json_value(data) matches Ok(j) ==> (cursor_in(j) is None ==> json_cursor(data)
            == CursorRead::Err("invalid_cursor"@)),
        crate::json::json_value(data) matches Ok(j) ==> (cursor_in(j) matches Some(c)
            ==> json_cursor(data) == CursorRead::Ok(c)),
        crate::json::json_value(data) matches Err(e) ==> json_cursor(data) == CursorRead::Err(e),
{
    law_genuine_token_opens(secret, cursor_json(c));
}

} // verus!
