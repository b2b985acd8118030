//! The commands: for each action, the call to make on the server, and what the
//! command makes of the server's reply.
pub mod capture;
pub mod card;
pub mod coin;
pub mod control;
pub mod info;
pub mod analogs;
pub mod buttons;
pub mod keypads;
pub mod lights;

use vstd::prelude::*;

use crate::connection::data_result_view;
use crate::error::{CommandError, CommandErrorView, ProtocolError, ProtocolErrorView};
use crate::json::{items_view, Json, JsonView, Member, MemberView};
use crate::strings::{decimal, i64_to_decimal, signed_decimal, u64_to_decimal};

verus! {

/// The mathematical value of a call.
pub struct CallView {
    pub module: Seq<char>,
    pub function: Seq<char>,
    pub params: Seq<JsonView>,
}

/// A call to make on the server: a function of a module, with its parameters.
pub struct Call {
    pub module: String,
    pub function: String,
    pub params: Vec<Json>,
}

impl View for Call {
    type V = CallView;

    open spec fn view(&self) -> CallView {
        CallView { module: self.module@, function: self.function@, params: items_view(self.params@) }
    }
}

/// A call of `function` of `module` with `params`.
pub fn make_call(module: &str, function: &str, params: Vec<Json>) -> (c: Call)
    ensures
        c@ == (CallView { module: module@, function: function@, params: items_view(params@) }),
{
    Call { module: String::from_str(module), function: String::from_str(function), params }
}

/// The JSON number with the value `n`.
pub open spec fn number(n: int) -> JsonView {
    JsonView::Number(signed_decimal(n))
}

/// The JSON number for `n`.
pub fn unsigned_number(n: u64) -> (j: Json)
    ensures
        j@ == number(n as int),
{
    Json::Number(u64_to_decimal(n))
}

/// The JSON number for `n`.
pub fn signed_number(n: i64) -> (j: Json)
    ensures
        j@ == number(n as int),
{
    Json::Number(i64_to_decimal(n))
}

/// The JSON string for `s`.
pub fn string_value(s: &str) -> (j: Json)
    ensures
        j@ == JsonView::Str(s@),
{
    Json::Str(String::from_str(s))
}

/// The value of the result of a command.
pub open spec fn command_result_view(r: Result<Json, CommandError>) -> Result<JsonView, CommandErrorView> {
    match r {
        Ok(j) => Ok(j@),
        Err(e) => Err(e@),
    }
}

/// A call that succeeded yields `null`; a failed one its error.
pub open spec fn acknowledged(outcome: Result<Seq<JsonView>, ProtocolErrorView>) -> Result<JsonView, CommandErrorView> {
    match outcome {
        Ok(_) => Ok(JsonView::Null),
        Err(e) => Err(CommandErrorView::Protocol(e)),
    }
}

/// A call that succeeded yields its data as an array; a failed one its error.
pub open spec fn all_data(outcome: Result<Seq<JsonView>, ProtocolErrorView>) -> Result<JsonView, CommandErrorView> {
    match outcome {
        Ok(data) => Ok(JsonView::Array(data)),
        Err(e) => Err(CommandErrorView::Protocol(e)),
    }
}

/// A call that succeeded yields its first datum, or, with no data, the error that
/// the response for `what` was empty; a failed one its error.
pub open spec fn first_datum(outcome: Result<Seq<JsonView>, ProtocolErrorView>, what: Seq<char>) -> Result<JsonView, CommandErrorView> {
    match outcome {
        Ok(data) => if data.len() > 0 {
            Ok(data[0])
        } else {
            Err(CommandErrorView::EmptyResponse(what))
        },
        Err(e) => Err(CommandErrorView::Protocol(e)),
    }
}

/// Yields `null` for a call that succeeded.
pub fn acknowledge(outcome: Result<Vec<Json>, ProtocolError>) -> (r: Result<Json, CommandError>)
    ensures
        command_result_view(r) == acknowledged(data_result_view(outcome)),
{
    match outcome {
        Ok(_) => Ok(Json::Null),
        Err(e) => Err(CommandError::Protocol(e)),
    }
}

/// Yields the data of a call that succeeded as an array.
pub fn data_as_array(outcome: Result<Vec<Json>, ProtocolError>) -> (r: Result<Json, CommandError>)
    ensures
        command_result_view(r) == all_data(data_result_view(outcome)),
{
    match outcome {
        Ok(data) => {
            let r = Json::Array(data);
            assert(r@ == JsonView::Array(items_view(data@))) by {
                assert(r@->Array_0 =~= items_view(data@));
            }
            Ok(r)
        },
        Err(e) => Err(CommandError::Protocol(e)),
    }
}

/// Yields the first datum of a call that succeeded; `what` names the call in the
/// error for an empty response.
pub fn take_first_datum(outcome: Result<Vec<Json>, ProtocolError>, what: String) -> (r: Result<Json, CommandError>)
    ensures
        command_result_view(r) == first_datum(data_result_view(outcome), what@),
{
    match outcome {
        Ok(data) => {
            let mut data = data;
            if data.len() > 0 {
                let first = data.remove(0);
                Ok(first)
            } else {
                Err(CommandError::EmptyResponse(what))
            }
        },
        Err(e) => Err(CommandError::Protocol(e)),
    }
}

/// Whether `v` has the shape of a state tuple: an array of at least three items.
pub open spec fn is_state_tuple(v: JsonView) -> bool {
    v is Array && v->Array_0.len() >= 3
}

/// The object for a state tuple `[name, state, active]` (members in key order, as
/// JSON objects are kept).
pub open spec fn state_object(t: Seq<JsonView>) -> JsonView {
    JsonView::Object(
        seq![
            MemberView { key: "active"@, value: t[2] },
            MemberView { key: "name"@, value: t[0] },
            MemberView { key: "state"@, value: t[1] },
        ],
    )
}

/// The state tuples of `data` as objects, in order; items that are not state
/// tuples are skipped.
pub open spec fn state_objects(data: Seq<JsonView>) -> Seq<JsonView>
    decreases data.len(),
{
    if data.len() == 0 {
        Seq::empty()
    } else {
        let rest = state_objects(data.drop_last());
        if is_state_tuple(data.last()) {
            rest.push(state_object(data.last()->Array_0))
        } else {
            rest
        }
    }
}

/// A state tuple `[name, state, active]` becomes the object whose `name` member
/// holds the tuple's first item, `state` its second and `active` its third.
pub proof fn lemma_state_object_members(t: Seq<JsonView>)
    ensures
        state_object(t) is Object,
        state_object(t)->Object_0.len() == 3,
        state_object(t)->Object_0[0] == (MemberView { key: "active"@, value: t[2] }),
        state_object(t)->Object_0[1] == (MemberView { key: "name"@, value: t[0] }),
        state_object(t)->Object_0[2] == (MemberView { key: "state"@, value: t[1] }),
{
}

/// Every item that is a state tuple gives one object, in order, and every other
/// item is dropped: where all items are state tuples, the `k`-th object is that of
/// the `k`-th tuple, and there are never more objects than items.
pub proof fn lemma_state_objects_follow_tuples(data: Seq<JsonView>)
    ensures
        state_objects(data).len() <= data.len(),
        (forall|k: int| 0 <= k < data.len() ==> is_state_tuple(#[trigger] data[k])) ==> {
            &&& state_objects(data).len() == data.len()
            &&& forall|k: int| 0 <= k < data.len() ==> #[trigger] state_objects(data)[k] == state_object(data[k]->Array_0)
        },
        (forall|k: int| 0 <= k < data.len() ==> !is_state_tuple(#[trigger] data[k])) ==> state_objects(data).len() == 0,
    decreases data.len(),
{
    if data.len() > 0 {
        let init = data.drop_last();
        lemma_state_objects_follow_tuples(init);
        if forall|k: int| 0 <= k < data.len() ==> is_state_tuple(#[trigger] data[k]) {
            assert forall|k: int| 0 <= k < init.len() implies is_state_tuple(#[trigger] init[k]) by {
                assert(init[k] == data[k]);
            }
            assert(is_state_tuple(data[data.len() - 1]));
        }
        if forall|k: int| 0 <= k < data.len() ==> !is_state_tuple(#[trigger] data[k]) {
            assert forall|k: int| 0 <= k < init.len() implies !is_state_tuple(#[trigger] init[k]) by {
                assert(init[k] == data[k]);
            }
            assert(!is_state_tuple(data[data.len() - 1]));
        }
    }
}

/// A call that succeeded yields its state tuples as an array of objects; a failed one its error.
pub open spec fn states(outcome: Result<Seq<JsonView>, ProtocolErrorView>) -> Result<JsonView, CommandErrorView> {
    match outcome {
        Ok(data) => Ok(JsonView::Array(state_objects(data))),
        Err(e) => Err(CommandErrorView::Protocol(e)),
    }
}

/// The member `key: value`.
pub fn member(key: &str, value: Json) -> (m: Member)
    ensures
        m.key@ == key@,
        m.value@ == value@,
{
    Member { key: String::from_str(key), value }
}

/// Convert raw `[name, state, active]` tuples into structured objects; entries of
/// another shape are skipped.
pub fn format_states(data: &Vec<Json>) -> (r: Json)
    ensures
        r@ == JsonView::Array(state_objects(items_view(data@))),
{
    let ghost views = items_view(data@);
    let mut out: Vec<Json> = Vec::new();
    for k in 0..data.len()
        invariant
            views == items_view(data@),
            items_view(out@) == state_objects(views.take(k as int)),
    {
        assert(views.take(k + 1).drop_last() =~= views.take(k as int));
        assert(views.take(k + 1).last() == data@[k as int]@);
        match &data[k] {
            Json::Array(tuple) => {
                if tuple.len() >= 3 {
                    let t = tuple[0].copy();
                    let ghost tv = data@[k as int]@->Array_0;
                    assert(tv == items_view(tuple@)) by {
                        assert(tv =~= items_view(tuple@));
                    }
                    let members = vec![
                        member("active", tuple[2].copy()),
                        member("name", t),
                        member("state", tuple[1].copy()),
                    ];
                    let obj = Json::Object(members);
                    proof {
                        reveal_strlit("active");
                        reveal_strlit("name");
                        reveal_strlit("state");
                    }
                    assert(obj@ == state_object(tv)) by {
                        assert(obj@->Object_0 =~= state_object(tv)->Object_0);
                    }
                    let ghost before = items_view(out@);
                    out.push(obj);
                    assert(items_view(out@) =~= before.push(state_object(tv)));
                }
            },
            _ => {},
        }
    }
    assert(views.take(data.len() as int) =~= views);
    let r = Json::Array(out);
    assert(r@->Array_0 =~= items_view(out@));
    r
}

/// Yields the state tuples of a call that succeeded as an array of objects.
pub fn states_of(outcome: Result<Vec<Json>, ProtocolError>) -> (r: Result<Json, CommandError>)
    ensures
        command_result_view(r) == states(data_result_view(outcome)),
{
    match outcome {
        Ok(data) => Ok(format_states(&data)),
        Err(e) => Err(CommandError::Protocol(e)),
    }
}

/// Each string as a JSON string.
pub open spec fn strings_as_params(names: Seq<String>) -> Seq<JsonView> {
    Seq::new(names.len(), |k: int| JsonView::Str(names[k]@))
}

/// Each string as a JSON array that holds just that string.
pub open spec fn strings_as_singletons(names: Seq<String>) -> Seq<JsonView> {
    Seq::new(names.len(), |k: int| JsonView::Array(seq![JsonView::Str(names[k]@)]))
}

/// The JSON strings for `names`, in order.
pub fn names_as_params(names: &Vec<String>) -> (r: Vec<Json>)
    ensures
        items_view(r@) == strings_as_params(names@),
{
    let mut out: Vec<Json> = Vec::new();
    for k in 0..names.len()
        invariant
            items_view(out@) == strings_as_params(names@).take(k as int),
    {
        let item = Json::Str(names[k].clone());
        assert(item@ == JsonView::Str(names@[k as int]@));
        let ghost before = items_view(out@);
        out.push(item);
        assert(items_view(out@) =~= before.push(JsonView::Str(names@[k as int]@)));
        assert(strings_as_params(names@).take(k + 1) =~= strings_as_params(names@).take(k as int).push(JsonView::Str(names@[k as int]@)));
    }
    assert(strings_as_params(names@).take(names.len() as int) =~= strings_as_params(names@));
    out
}

/// One JSON array `[name]` per name, in order.
pub fn names_as_singletons(names: &Vec<String>) -> (r: Vec<Json>)
    ensures
        items_view(r@) == strings_as_singletons(names@),
{
    let mut out: Vec<Json> = Vec::new();
    for k in 0..names.len()
        invariant
            items_view(out@) == strings_as_singletons(names@).take(k as int),
    {
        let item = Json::Str(names[k].clone());
        assert(item@ == JsonView::Str(names@[k as int]@));
        let one = Json::Array(vec![item]);
        assert(one@ == JsonView::Array(seq![JsonView::Str(names@[k as int]@)])) by {
            assert(one@->Array_0 =~= seq![JsonView::Str(names@[k as int]@)]);
        }
        let ghost before = items_view(out@);
        out.push(one);
        assert(items_view(out@) =~= before.push(one@));
        assert(strings_as_singletons(names@).take(k + 1) =~= strings_as_singletons(names@).take(k as int).push(JsonView::Array(seq![JsonView::Str(names@[k as int]@)])));
    }
    assert(strings_as_singletons(names@).take(names.len() as int) =~= strings_as_singletons(names@));
    out
}

} // verus!
