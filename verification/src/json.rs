//! JSON values: what requests carry and what answers are made of.
use vstd::prelude::*;

use crate::text::same;

verus! {

/// `serde_json::Number`, carried as it is: the library never looks at a number
/// with a fraction.
#[verifier::external_type_specification]
#[verifier::external_body]
pub struct ExNumber(serde_json::Number);

/// A JSON value.
#[derive(Debug)]
pub enum Json {
    Null,
    Bool(bool),
    /// A whole number that fits 64 bits with a sign.
    Int(i64),
    /// A whole number above that range.
    Uint(u64),
    /// Any other number, as `serde_json` holds it.
    Real(serde_json::Number),
    Str(String),
    Arr(Vec<Json>),
    Obj(Vec<Field>),
}

/// One member of a JSON object.
#[derive(Debug)]
pub struct Field {
    pub name: String,
    pub value: Json,
}

/// The mathematical view of a JSON value.
pub enum JsonV {
    Null,
    Bool(bool),
    Num(int),
    Real(serde_json::Number),
    Str(Seq<char>),
    Arr(Seq<JsonV>),
    Obj(Seq<FieldV>),
}

/// The mathematical view of one member of a JSON object.
pub struct FieldV {
    pub name: Seq<char>,
    pub value: JsonV,
}

/// The views of a list of values.
pub open spec fn items_view(a: Seq<Json>) -> Seq<JsonV>
    decreases a,
{
    Seq::new(
        a.len(),
        |i: int|
            if 0 <= i < a.len() {
                a[i].view()
            } else {
                JsonV::Null
            },
    )
}

/// The views of the members of an object.
pub open spec fn fields_view(a: Seq<Field>) -> Seq<FieldV>
    decreases a,
{
    Seq::new(
        a.len(),
        |i: int|
            if 0 <= i < a.len() {
                FieldV { name: a[i].name@, value: a[i].value.view() }
            } else {
                FieldV { name: Seq::empty(), value: JsonV::Null }
            },
    )
}

impl View for Json {
    type V = JsonV;

    open spec fn view(&self) -> JsonV
        decreases self,
    {
        match self {
            Json::Null => JsonV::Null,
            Json::Bool(b) => JsonV::Bool(*b),
            Json::Int(n) => JsonV::Num(*n as int),
            Json::Uint(n) => JsonV::Num(*n as int),
            Json::Real(n) => JsonV::Real(*n),
            Json::Str(s) => JsonV::Str(s@),
            Json::Arr(a) => JsonV::Arr(items_view(a@)),
            Json::Obj(o) => JsonV::Obj(fields_view(o@)),
        }
    }
}

/// The value of the first member called `name`, `Null` where there is none.
pub open spec fn member(fields: Seq<FieldV>, name: Seq<char>) -> JsonV
    decreases fields.len(),
{
    if fields.len() == 0 {
        JsonV::Null
    } else if fields[0].name == name {
        fields[0].value
    } else {
        member(fields.skip(1), name)
    }
}

impl JsonV {
    /// The member called `name`; `Null` where there is none or the value is no
    /// object.
    pub open spec fn at(self, name: Seq<char>) -> JsonV {
        match self {
            JsonV::Obj(fields) => member(fields, name),
            _ => JsonV::Null,
        }
    }

    pub open spec fn as_text(self) -> Option<Seq<char>> {
        match self {
            JsonV::Str(s) => Some(s),
            _ => None,
        }
    }

    pub open spec fn as_items(self) -> Option<Seq<JsonV>> {
        match self {
            JsonV::Arr(a) => Some(a),
            _ => None,
        }
    }

    pub open spec fn as_unsigned(self) -> Option<int> {
        match self {
            JsonV::Num(n) => if 0 <= n {
                Some(n)
            } else {
                None
            },
            _ => None,
        }
    }

    pub open spec fn as_signed(self) -> Option<int> {
        match self {
            JsonV::Num(n) => if n <= i64::MAX {
                Some(n)
            } else {
                None
            },
            _ => None,
        }
    }

    pub open spec fn as_flag(self) -> Option<bool> {
        match self {
            JsonV::Bool(b) => Some(b),
            _ => None,
        }
    }

    /// The text of the member called `name`, empty where it holds no text.
    pub open spec fn text_at(self, name: Seq<char>) -> Seq<char> {
        match self.at(name).as_text() {
            Some(s) => s,
            None => Seq::empty(),
        }
    }
}

/// An object with these members.
pub open spec fn object(fields: Seq<FieldV>) -> JsonV {
    JsonV::Obj(fields)
}

/// A member of an object.
pub open spec fn field_v(name: &str, value: JsonV) -> FieldV {
    FieldV { name: name@, value }
}

/// A text, or `Null` where there is none.
pub open spec fn text_or_null(s: Option<Seq<char>>) -> JsonV {
    match s {
        Some(s) => JsonV::Str(s),
        None => JsonV::Null,
    }
}

/// A list of texts.
pub open spec fn text_list(v: Seq<Seq<char>>) -> JsonV {
    JsonV::Arr(v.map_values(|s: Seq<char>| JsonV::Str(s)))
}

/// Whether a value is nested no deeper than `depth` and holds whole numbers of
/// 64 bits only.
pub open spec fn readable(j: JsonV, depth: nat) -> bool
    decreases depth,
{
    match j {
        JsonV::Real(_) => false,
        JsonV::Num(n) => i64::MIN <= n <= u64::MAX,
        JsonV::Arr(a) => depth > 0 && forall|i: int|
            0 <= i < a.len() ==> readable(#[trigger] a[i], (depth - 1) as nat),
        JsonV::Obj(o) => depth > 0 && forall|i: int|
            0 <= i < o.len() ==> readable((#[trigger] o[i]).value, (depth - 1) as nat),
        _ => true,
    }
}

/// The members with one more among them: where its name puts it, in place of
/// a member of that name.
pub open spec fn placed(fields: Seq<FieldV>, f: FieldV) -> Seq<FieldV>
    decreases fields.len(),
{
    if fields.len() == 0 {
        seq![f]
    } else if fields[0].name == f.name {
        seq![f] + fields.skip(1)
    } else if crate::text::text_lt(f.name, fields[0].name) {
        seq![f] + fields
    } else {
        seq![fields[0]] + placed(fields.skip(1), f)
    }
}

/// The same value with the members of every object in the order of their
/// names, each name once.
pub open spec fn settled(j: JsonV) -> JsonV
    decreases j,
{
    match j {
        JsonV::Arr(a) => JsonV::Arr(
            Seq::new(
                a.len(),
                |i: int|
                    if 0 <= i < a.len() {
                        settled(a[i])
                    } else {
                        JsonV::Null
                    },
            ),
        ),
        JsonV::Obj(o) => JsonV::Obj(settled_fields(o)),
        _ => j,
    }
}

/// The members in the order of their names, each name once.
pub open spec fn settled_fields(o: Seq<FieldV>) -> Seq<FieldV>
    decreases o,
{
    if o.len() == 0 {
        o
    } else {
        placed(
            settled_fields(o.drop_last()),
            FieldV { name: o.last().name, value: settled(o.last().value) },
        )
    }
}

/// Whether no two members have one name.
pub open spec fn names_differ(o: Seq<FieldV>) -> bool {
    forall|i: int, k: int| 0 <= i < k < o.len() ==> (#[trigger] o[i]).name != (#[trigger] o[k]).name
}

proof fn lemma_member_of_placed(fields: Seq<FieldV>, f: FieldV, name: Seq<char>)
    ensures
        member(placed(fields, f), name) == if name == f.name {
            f.value
        } else {
            member(fields, name)
        },
    decreases fields.len(),
{
    reveal_with_fuel(member, 2);
    if fields.len() == 0 {
        assert(seq![f].skip(1) =~= Seq::<FieldV>::empty());
    } else if fields[0].name == f.name {
        assert((seq![f] + fields.skip(1)).skip(1) =~= fields.skip(1));
    } else if crate::text::text_lt(f.name, fields[0].name) {
        assert((seq![f] + fields).skip(1) =~= fields);
    } else {
        lemma_member_of_placed(fields.skip(1), f, name);
        assert((seq![fields[0]] + placed(fields.skip(1), f)).skip(1) =~= placed(
            fields.skip(1),
            f,
        ));
    }
}

proof fn lemma_member_of_front(o: Seq<FieldV>, name: Seq<char>)
    requires
        o.len() > 0,
        o.last().name != name,
    ensures
        member(o, name) == member(o.drop_last(), name),
    decreases o.len(),
{
    reveal_with_fuel(member, 2);
    if o.len() == 1 {
        assert(o.skip(1).len() == 0);
    } else if o[0].name != name {
        lemma_member_of_front(o.skip(1), name);
        assert(o.skip(1).drop_last() =~= o.drop_last().skip(1));
    }
}

pub(crate) proof fn lemma_member_at(o: Seq<FieldV>, i: int)
    requires
        names_differ(o),
        0 <= i < o.len(),
    ensures
        member(o, o[i].name) == o[i].value,
    decreases o.len(),
{
    if i > 0 {
        assert(o[0].name != o[i].name);
        lemma_member_at(o.skip(1), i - 1);
    }
}

proof fn lemma_member_of_settled(o: Seq<FieldV>, name: Seq<char>)
    requires
        names_differ(o),
    ensures
        member(settled_fields(o), name) == settled(member(o, name)),
    decreases o.len(),
{
    if o.len() > 0 {
        let f = FieldV { name: o.last().name, value: settled(o.last().value) };
        lemma_member_of_placed(settled_fields(o.drop_last()), f, name);
        if name == o.last().name {
            lemma_member_at(o, o.len() - 1);
        } else {
            lemma_member_of_front(o, name);
            lemma_member_of_settled(o.drop_last(), name);
        }
    }
}

/// Settling keeps what is under each name, where no two members of the object
/// share one.
pub proof fn law_settling_keeps_members(j: JsonV, name: Seq<char>)
    requires
        j matches JsonV::Obj(o) ==> names_differ(o),
    ensures
        settled(j).at(name) == settled(j.at(name)),
{
    if let JsonV::Obj(o) = j {
        lemma_member_of_settled(o, name);
    }
}

/// The compact JSON text that `serde_json` writes for a value.
pub uninterp spec fn json_text(j: JsonV) -> Seq<char>;

/// A value that was read, or the text of the error.
pub type JsonRead = Result<JsonV, Seq<char>>;

/// What `serde_json` reads from the bytes of a JSON text: the value, or the
/// text of its error.
pub uninterp spec fn json_value(data: Seq<u8>) -> JsonRead;

/// `serde_json::Value`, carried between the two calls that make one text.
#[verifier::external_type_specification]
#[verifier::external_body]
pub struct ExValue(serde_json::Value);

/// The same value as `serde_json` holds it, variant by variant.
#[verifier::external_body]
fn to_value(j: &Json) -> (r: serde_json::Value) {
    match j {
        Json::Null => serde_json::Value::Null,
        Json::Bool(b) => serde_json::Value::Bool(*b),
        Json::Int(n) => serde_json::Value::from(*n),
        Json::Uint(n) => serde_json::Value::from(*n),
        Json::Real(n) => serde_json::Value::Number(n.clone()),
        Json::Str(s) => serde_json::Value::String(s.clone()),
        Json::Arr(a) => serde_json::Value::Array(a.iter().map(to_value).collect()),
        Json::Obj(o) => serde_json::Value::Object(
            o.iter().map(|f| (f.name.clone(), to_value(&f.value))).collect(),
        ),
    }
}

/// The value that `serde_json` holds, variant by variant; a number other than
/// a whole one of 64 bits is kept as it is.
#[verifier::external_body]
fn from_value(v: serde_json::Value) -> (r: Json) {
    match v {
        serde_json::Value::Null => Json::Null,
        serde_json::Value::Bool(b) => Json::Bool(b),
        serde_json::Value::Number(n) => n.as_i64().map(Json::Int).or(n.as_u64().map(Json::Uint)).unwrap_or(
            Json::Real(n),
        ),
        serde_json::Value::String(s) => Json::Str(s),
        serde_json::Value::Array(a) => Json::Arr(a.into_iter().map(from_value).collect()),
        serde_json::Value::Object(o) => Json::Obj(
            o.into_iter().map(|(name, v)| Field { name, value: from_value(v) }).collect(),
        ),
    }
}

/// `serde_json::Value`'s `Display`: compact JSON, never empty, the members of an
/// object in the order of their names. The text depends on the value alone.
/// Reading it gives the settled value back, unless the value holds a number
/// with a fraction or is nested 128 deep, which the reader refuses.
#[verifier::external_body]
pub(crate) fn render(j: &Json) -> (r: String)
    ensures
        r@ == json_text(j@),
        r@.len() > 0,
        readable(j@, 127) ==> json_value(vstd::utf8::encode_utf8(r@)) == JsonRead::Ok(
            settled(j@),
        ),
{
    to_value(j).to_string()
}

/// `serde_json::from_slice`: what the bytes hold, or the text of the error.
/// Either depends on the bytes alone.
#[verifier::external_body]
pub(crate) fn parse(data: &[u8]) -> (r: Result<Json, String>)
    ensures
        match r {
            Ok(j) => json_value(data@) == JsonRead::Ok(j@),
            Err(e) => json_value(data@) == JsonRead::Err(e@),
        },
{
    match serde_json::from_slice::<serde_json::Value>(data) {
        Ok(v) => Ok(from_value(v)),
        Err(e) => Err(e.to_string()),
    }
}

/// `serde_json::Number`'s `Clone`: the same number.
#[verifier::external_body]
fn copy_number(n: &serde_json::Number) -> (r: serde_json::Number)
    ensures
        r == *n,
{
    n.clone()
}

impl Json {
    /// The member called `name`.
    pub fn get(&self, name: &str) -> (r: Option<&Json>)
        ensures
            match r {
                Some(j) => self@.at(name@) == j@,
                None => self@.at(name@) == JsonV::Null,
            },
    {
        match self {
            Json::Obj(o) => {
                let ghost all = fields_view(o@);
                let mut i: usize = 0;
                assert(all.skip(0) =~= all);
                while i < o.len()
                    invariant
                        all == fields_view(o@),
                        i <= o@.len(),
                        self@ == JsonV::Obj(all),
                        member(all, name@) == member(all.skip(i as int), name@),
                    decreases o@.len() - i,
                {
                    assert(all.skip(i as int)[0] == all[i as int]);
                    if same(o[i].name.as_str(), name) {
                        return Some(&o[i].value);
                    }
                    assert(all.skip(i as int).skip(1) =~= all.skip(i + 1));
                    i = i + 1;
                }
                None
            },
            _ => None,
        }
    }

    /// The text that the value is, where it is one.
    pub fn as_str(&self) -> (r: Option<&String>)
        ensures
            match r {
                Some(s) => self@.as_text() == Some(s@),
                None => self@.as_text() is None,
            },
    {
        match self {
            Json::Str(s) => Some(s),
            _ => None,
        }
    }

    /// The number of 64 bits with a sign that the value is, where it is one.
    pub fn as_signed(&self) -> (r: Option<i64>)
        ensures
            match r {
                Some(n) => self@.as_signed() == Some(n as int),
                None => self@.as_signed() is None,
            },
    {
        match self {
            Json::Int(n) => Some(*n),
            Json::Uint(n) => if *n <= i64::MAX as u64 {
                Some(*n as i64)
            } else {
                None
            },
            _ => None,
        }
    }

    /// The text of the member called `name`, where it holds one.
    pub fn str_at(&self, name: &str) -> (r: Option<&String>)
        ensures
            match r {
                Some(s) => self@.at(name@).as_text() == Some(s@),
                None => self@.at(name@).as_text() is None,
            },
    {
        match self.get(name) {
            Some(j) => j.as_str(),
            None => None,
        }
    }

    /// The items of the member called `name`, where it is a list.
    pub fn items_at(&self, name: &str) -> (r: Option<&Vec<Json>>)
        ensures
            match r {
                Some(a) => self@.at(name@).as_items() == Some(items_view(a@)),
                None => self@.at(name@).as_items() is None,
            },
    {
        match self.get(name) {
            Some(j) => match j {
                Json::Arr(a) => Some(a),
                _ => None,
            },
            None => None,
        }
    }

    /// The member called `name` as a number without a sign.
    pub fn unsigned_at(&self, name: &str) -> (r: Option<u64>)
        ensures
            match r {
                Some(n) => self@.at(name@).as_unsigned() == Some(n as int),
                None => self@.at(name@).as_unsigned() is None,
            },
    {
        match self.get(name) {
            Some(j) => match j {
                Json::Int(n) => if *n >= 0 {
                    Some(*n as u64)
                } else {
                    None
                },
                Json::Uint(n) => Some(*n),
                _ => None,
            },
            None => None,
        }
    }

    /// The member called `name` as a number of 64 bits with a sign.
    pub fn signed_at(&self, name: &str) -> (r: Option<i64>)
        ensures
            match r {
                Some(n) => self@.at(name@).as_signed() == Some(n as int),
                None => self@.at(name@).as_signed() is None,
            },
    {
        match self.get(name) {
            Some(j) => j.as_signed(),
            None => None,
        }
    }

    /// The member called `name` as a truth value.
    pub fn flag_at(&self, name: &str) -> (r: Option<bool>)
        ensures
            r == self@.at(name@).as_flag(),
    {
        match self.get(name) {
            Some(j) => match j {
                Json::Bool(b) => Some(*b),
                _ => None,
            },
            None => None,
        }
    }

    /// Copies a value.
    pub fn copy(&self) -> (r: Json)
        ensures
            r@ == self@,
        decreases self,
    {
        match self {
            Json::Null => Json::Null,
            Json::Bool(b) => Json::Bool(*b),
            Json::Int(n) => Json::Int(*n),
            Json::Uint(n) => Json::Uint(*n),
            Json::Real(n) => Json::Real(copy_number(n)),
            Json::Str(s) => Json::Str(s.clone()),
            Json::Arr(a) => {
                let mut out: Vec<Json> = Vec::new();
                let mut i: usize = 0;
                while i < a.len()
                    invariant
                        *self == Json::Arr(*a),
                        i <= a@.len(),
                        out@.len() == i,
                        forall|k: int| 0 <= k < i ==> (#[trigger] out@[k])@ == a@[k]@,
                    decreases a@.len() - i,
                {
                    proof {
                        assert(decreases_to!(*self => (*self)->Arr_0));
                        assert(decreases_to!(*a => a@));
                        assert(decreases_to!(a@ => a@[i as int]));
                    }
                    out.push(a[i].copy());
                    i = i + 1;
                }
                assert(items_view(out@) =~= items_view(a@));
                Json::Arr(out)
            },
            Json::Obj(o) => {
                let mut out: Vec<Field> = Vec::new();
                let mut i: usize = 0;
                while i < o.len()
                    invariant
                        *self == Json::Obj(*o),
                        i <= o@.len(),
                        out@.len() == i,
                        forall|k: int|
                            0 <= k < i ==> (#[trigger] out@[k]).name@ == o@[k].name@
                                && out@[k].value@ == o@[k].value@,
                    decreases o@.len() - i,
                {
                    proof {
                        assert(decreases_to!(*self => (*self)->Obj_0));
                        assert(decreases_to!(*o => o@));
                        assert(decreases_to!(o@ => o@[i as int]));
                        assert(decreases_to!(o@[i as int] => o@[i as int].value));
                    }
                    out.push(Field { name: o[i].name.clone(), value: o[i].value.copy() });
                    i = i + 1;
                }
                assert(fields_view(out@) =~= fields_view(o@));
                Json::Obj(out)
            },
        }
    }
}

/// The text of the member called `key`, empty where it holds no text.
pub fn text(p: &Json, key: &str) -> (r: String)
    ensures
        r@ == p@.text_at(key@),
{
    match p.str_at(key) {
        Some(s) => s.clone(),
        None => String::new(),
    }
}

/// Adds one member at the end.
pub fn put(o: &mut Vec<Field>, name: &str, value: Json)
    ensures
        fields_view(final(o)@) == fields_view(old(o)@).push(FieldV { name: name@, value: value@ }),
{
    o.push(Field { name: name.to_owned(), value });
    assert(fields_view(o@) =~= fields_view(old(o)@).push(FieldV { name: name@, value: value@ }));
}

/// An object with these members.
pub fn object_of(o: Vec<Field>) -> (r: Json)
    ensures
        r@ == object(fields_view(o@)),
{
    Json::Obj(o)
}

/// A list of these items.
pub fn list_of(a: Vec<Json>) -> (r: Json)
    ensures
        r@ == JsonV::Arr(items_view(a@)),
{
    Json::Arr(a)
}

/// A JSON text.
pub fn str_json(s: &str) -> (r: Json)
    ensures
        r@ == JsonV::Str(s@),
{
    Json::Str(s.to_owned())
}

/// A list of JSON texts.
pub fn texts_json(v: &Vec<String>) -> (r: Json)
    ensures
        r@ == text_list(crate::text::texts_view(v@)),
{
    let mut out: Vec<Json> = Vec::new();
    let mut i: usize = 0;
    while i < v.len()
        invariant
            i <= v@.len(),
            out@.len() == i,
            forall|k: int| 0 <= k < i ==> (#[trigger] out@[k])@ == JsonV::Str(v@[k]@),
        decreases v@.len() - i,
    {
        out.push(Json::Str(v[i].clone()));
        i = i + 1;
    }
    assert(items_view(out@) =~= crate::text::texts_view(v@).map_values(
        |s: Seq<char>| JsonV::Str(s),
    ));
    Json::Arr(out)
}

} // verus!
