//! Light states.
use vstd::prelude::*;

use super::{make_call, names_as_params, states, states_of, strings_as_params, Call, CallView, command_result_view};
use crate::cli::LightsAction;
use crate::connection::data_result_view;
use crate::error::{CommandError, ProtocolError};
use crate::json::{Json, JsonView};

verus! {

/// The call for `action`: `lights read` with the names to read (all lights when none is given).
pub open spec fn lights_call(action: LightsAction) -> CallView {
    match action {
        LightsAction::Read { names } => CallView { module: "lights"@, function: "read"@, params: strings_as_params(names@) },
    }
}

/// Reading lights calls `lights read` with one string parameter per requested
/// name, in the order given.
pub proof fn lemma_lights_calls(action: LightsAction)
    ensures
        lights_call(action).module == "lights"@,
        lights_call(action).function == "read"@,
        match action {
            LightsAction::Read { names } => lights_call(action).params.len() == names@.len()
                && forall|k: int| 0 <= k < names@.len() ==> #[trigger] lights_call(action).params[k] == JsonView::Str(names@[k]@),
        },
{
}

/// The call for `action`.
pub fn call(action: &LightsAction) -> (c: Call)
    ensures
        c@ == lights_call(*action),
{
    match action {
        LightsAction::Read { names } => make_call("lights", "read", names_as_params(names)),
    }
}

/// The result of `action`: the light state tuples of the reply as objects.
pub fn finish(action: &LightsAction, outcome: Result<Vec<Json>, ProtocolError>) -> (r: Result<Json, CommandError>)
    ensures
        command_result_view(r) == states(data_result_view(outcome)),
{
    states_of(outcome)
}

} // verus!
