//! The service around the backend: what a message that arrives asks for, how
//! it is answered, and when the import goes on.
use vstd::prelude::*;

use crate::backend::{Backend, BackendV};
use crate::fault::Fault;
use crate::index::{outcome_view, Outcome};
use crate::json::{object_of, put, str_json, text, Field, Json, JsonV};

verus! {

/// A request, taken out of the message that brought it.
pub struct Call {
    pub id: Json,
    pub method: String,
    pub params: Json,
}

/// The mathematical view of a request.
pub struct CallV {
    pub id: JsonV,
    pub method: Seq<char>,
    pub params: JsonV,
}

impl View for Call {
    type V = CallV;

    open spec fn view(&self) -> CallV {
        CallV { id: self.id@, method: self.method@, params: self.params@ }
    }
}

/// The request that a message holds.
pub open spec fn call_in(v: JsonV) -> CallV {
    CallV { id: v.at("id"@), method: v.text_at("method"@), params: v.at("params"@) }
}

/// What happened while the service waited.
pub enum Arrival {
    /// A message came.
    Message(Json),
    /// None came in time.
    Timeout,
    /// None will come any more.
    Closed,
}

/// The mathematical view of that.
pub enum ArrivalV {
    Message(JsonV),
    Timeout,
    Closed,
}

impl View for Arrival {
    type V = ArrivalV;

    open spec fn view(&self) -> ArrivalV {
        match self {
            Arrival::Message(v) => ArrivalV::Message(v@),
            Arrival::Timeout => ArrivalV::Timeout,
            Arrival::Closed => ArrivalV::Closed,
        }
    }
}

/// What the service does next.
pub enum Duty {
    /// Answer a request, and then import.
    Serve(Call),
    /// Import.
    Import,
    /// Stop.
    Stop,
}

/// The mathematical view of that.
pub enum DutyV {
    Serve(CallV),
    Import,
    Stop,
}

impl View for Duty {
    type V = DutyV;

    open spec fn view(&self) -> DutyV {
        match self {
            Duty::Serve(c) => DutyV::Serve(c@),
            Duty::Import => DutyV::Import,
            Duty::Stop => DutyV::Stop,
        }
    }
}

/// What follows from what happened.
pub open spec fn duty_after(arrival: ArrivalV) -> DutyV {
    match arrival {
        ArrivalV::Message(v) => DutyV::Serve(call_in(v)),
        ArrivalV::Timeout => DutyV::Import,
        ArrivalV::Closed => DutyV::Stop,
    }
}

/// The message that answers a request.
pub open spec fn response_to(id: JsonV, r: Outcome) -> JsonV {
    crate::json::object(
        seq![
            crate::json::field_v("jsonrpc", JsonV::Str("2.0"@)),
            crate::json::field_v("id", id),
            match r {
                Ok(result) => crate::json::field_v("result", result),
                Err(message) => crate::json::field_v(
                    "error",
                    crate::json::object(
                        seq![
                            crate::json::field_v("code", JsonV::Num(-32000)),
                            crate::json::field_v("message", JsonV::Str(message)),
                        ],
                    ),
                ),
            },
        ],
    )
}

/// How long to wait for a message, in milliseconds; without end while there is
/// nothing to import.
pub open spec fn patience(b: BackendV) -> Option<u64> {
    if b.has_import_work {
        Some(100)
    } else {
        None
    }
}

/// The backend after an import that could not be filed: no more is tried.
pub open spec fn import_given_up(b: BackendV) -> BackendV {
    BackendV { has_import_work: false, error: Some("index_write_failed"@), ..b }
}

/// Every answer carries the identifier of its request, and either a result or
/// an error, never both.
pub proof fn law_response_fits_its_request(id: JsonV, r: Outcome)
    ensures
        response_to(id, r).at("jsonrpc"@) == JsonV::Str("2.0"@),
        response_to(id, r).at("id"@) == id,
        r matches Ok(result) ==> response_to(id, r).at("result"@) == result && response_to(
            id,
            r,
        ).at("error"@) == JsonV::Null,
        r matches Err(message) ==> response_to(id, r).at("result"@) == JsonV::Null && response_to(
            id,
            r,
        ).at("error"@).at("message"@) == JsonV::Str(message) && response_to(id, r).at("error"@).at(
            "code"@,
        ) == JsonV::Num(-32000),
{
    reveal_strlit("jsonrpc");
    reveal_strlit("id");
    reveal_strlit("result");
    reveal_strlit("error");
    reveal_strlit("code");
    reveal_strlit("message");
    reveal_with_fuel(crate::json::member, 4);
    assert("jsonrpc"@.len() != "id"@.len());
    assert("result"@.len() != "id"@.len());
    assert("error"@.len() != "id"@.len());
    assert("jsonrpc"@.len() != "result"@.len());
    assert("jsonrpc"@.len() != "error"@.len());
    assert("result"@.len() != "error"@.len());
    assert("code"@.len() != "message"@.len());
}

/// After an import that could not be filed the service waits without end, and
/// imports nothing until work is found anew.
pub proof fn law_given_up_import_is_idle(b: BackendV)
    ensures
        patience(import_given_up(b)) is None,
        crate::import::import_begin(import_given_up(b)) == crate::import::rest(
            import_given_up(b),
        ),
{
}

fn member_or_null(v: &Json, name: &str) -> (r: Json)
    ensures
        r@ == v@.at(name@),
{
    match v.get(name) {
        Some(j) => j.copy(),
        None => Json::Null,
    }
}

/// What the service does about what happened.
pub fn duty(arrival: Arrival) -> (r: Duty)
    ensures
        r@ == duty_after(arrival@),
{
    match arrival {
        Arrival::Message(v) => Duty::Serve(
            Call {
                id: member_or_null(&v, "id"),
                method: text(&v, "method"),
                params: member_or_null(&v, "params"),
            },
        ),
        Arrival::Timeout => Duty::Import,
        Arrival::Closed => Duty::Stop,
    }
}

/// The message that answers a request.
pub fn response(id: Json, result: Result<Json, Fault>) -> (r: Json)
    ensures
        r@ == response_to(id@, outcome_view(result)),
{
    let ghost outcome = outcome_view(result);
    let mut o: Vec<Field> = Vec::new();
    put(&mut o, "jsonrpc", str_json("2.0"));
    put(&mut o, "id", id);
    match result {
        Ok(j) => put(&mut o, "result", j),
        Err(f) => {
            let mut e: Vec<Field> = Vec::new();
            put(&mut e, "code", Json::Int(-32000));
            put(&mut e, "message", Json::Str(f.message()));
            assert(crate::json::fields_view(e@) =~= seq![
                crate::json::field_v("code", JsonV::Num(-32000)),
                crate::json::field_v("message", JsonV::Str(f@)),
            ]);
            put(&mut o, "error", object_of(e));
        },
    }
    assert(crate::json::fields_view(o@) =~= response_to(id@, outcome)->Obj_0);
    object_of(o)
}

impl Backend {
    /// How long to wait for a message, in milliseconds; without end while there
    /// is nothing to import.
    pub fn waits(&self) -> (r: Option<u64>)
        ensures
            r == patience(self@),
    {
        if self.has_import_work {
            Some(100)
        } else {
            None
        }
    }

    /// Takes note that an import could not be filed.
    pub fn give_up_import(&mut self)
        ensures
            final(self)@ == import_given_up(old(self)@),
    {
        self.has_import_work = false;
        self.error = Some("index_write_failed".to_owned());
    }
}

/// A message that comes is taken as a request: its identifier, its method and
/// its parameters are those members of it, and a member that is missing is
/// nothing. While none comes, the import goes on; once none will come, the
/// service stops.
pub proof fn law_messages_are_requests(v: JsonV)
    ensures
        duty_after(ArrivalV::Message(v)) matches DutyV::Serve(call) && {
            &&& call.id == v.at("id"@)
            &&& v.at("method"@) is Str ==> JsonV::Str(call.method) == v.at("method"@)
            &&& !(v.at("method"@) is Str) ==> call.method.len() == 0
            &&& call.params == v.at("params"@)
        },
        duty_after(ArrivalV::Timeout) == DutyV::Import,
        duty_after(ArrivalV::Closed) == DutyV::Stop,
{
}

/// The service waits a tenth of a second for a message while there is something
/// to import, and without end while there is not. An import that could not be
/// filed ends the work, and the state says so.
pub proof fn law_waiting_leaves_time_to_import(b: BackendV)
    ensures
        b.has_import_work ==> patience(b) == Some(100u64),
        !b.has_import_work ==> patience(b) is None,
        import_given_up(b) == (BackendV {
            has_import_work: false,
            error: Some("index_write_failed"@),
            ..b
        }),
{
}

} // verus!
