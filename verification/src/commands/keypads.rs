//! Keypad input.
use vstd::prelude::*;

use super::{acknowledge, acknowledged, all_data, data_as_array, make_call, names_as_params, number, string_value, strings_as_params, unsigned_number, Call, CallView, command_result_view};
use crate::cli::KeypadsAction;
use crate::connection::data_result_view;
use crate::error::{CommandError, ProtocolError};
use crate::json::{items_view, Json, JsonView};

verus! {

/// The call for `action`; the keypad index comes first in every call.
pub open spec fn keypads_call(action: KeypadsAction) -> CallView {
    match action {
        KeypadsAction::Get { keypad } => CallView { module: "keypads"@, function: "get"@, params: seq![number(keypad as int)] },
        KeypadsAction::Write { keypad, input } => CallView {
            module: "keypads"@,
            function: "write"@,
            params: seq![number(keypad as int), JsonView::Str(input@)],
        },
        KeypadsAction::SetKeys { keypad, keys } => CallView {
            module: "keypads"@,
            function: "set"@,
            params: seq![number(keypad as int)] + strings_as_params(keys@),
        },
    }
}

/// The keypad index that `action` addresses.
pub open spec fn addressed_keypad(action: KeypadsAction) -> u32 {
    match action {
        KeypadsAction::Get { keypad } => keypad,
        KeypadsAction::Write { keypad, .. } => keypad,
        KeypadsAction::SetKeys { keypad, .. } => keypad,
    }
}

/// Every keypads call goes to the `keypads` function of the action's name and
/// sends the keypad index first: `get` sends only the index, `write` the index and
/// the input, `set` the index followed by the keys in order.
pub proof fn lemma_keypads_calls(action: KeypadsAction)
    ensures
        keypads_call(action).module == "keypads"@,
        keypads_call(action).params.len() >= 1,
        keypads_call(action).params[0] == number(addressed_keypad(action) as int),
        match action {
            KeypadsAction::Get { .. } => keypads_call(action).function == "get"@ && keypads_call(action).params.len() == 1,
            KeypadsAction::Write { input, .. } => keypads_call(action).function == "write"@
                && keypads_call(action).params.len() == 2 && keypads_call(action).params[1] == JsonView::Str(input@),
            KeypadsAction::SetKeys { keys, .. } => keypads_call(action).function == "set"@
                && keypads_call(action).params.len() == keys@.len() + 1
                && forall|k: int| 0 <= k < keys@.len() ==> #[trigger] keypads_call(action).params[k + 1] == JsonView::Str(keys@[k]@),
        },
{
    match action {
        KeypadsAction::SetKeys { keypad, keys } => {
            let p = keypads_call(action).params;
            assert forall|k: int| 0 <= k < keys@.len() implies #[trigger] p[k + 1] == JsonView::Str(keys@[k]@) by {
                assert(p[k + 1] == strings_as_params(keys@)[k]);
            }
        },
        _ => {},
    }
}

/// The call for `action`.
pub fn call(action: &KeypadsAction) -> (c: Call)
    ensures
        c@ == keypads_call(*action),
{
    match action {
        KeypadsAction::Get { keypad } => {
            let c = make_call("keypads", "get", vec![unsigned_number(*keypad as u64)]);
            assert(c@.params =~= seq![number(*keypad as int)]);
            c
        },
        KeypadsAction::Write { keypad, input } => {
            let c = make_call("keypads", "write", vec![unsigned_number(*keypad as u64), string_value(input.as_str())]);
            assert(c@.params =~= seq![number(*keypad as int), JsonView::Str(input@)]);
            c
        },
        KeypadsAction::SetKeys { keypad, keys } => {
            let mut params: Vec<Json> = vec![unsigned_number(*keypad as u64)];
            let mut rest = names_as_params(keys);
            let ghost first = items_view(params@);
            let ghost others = items_view(rest@);
            params.append(&mut rest);
            assert(items_view(params@) =~= first + others);
            let c = make_call("keypads", "set", params);
            assert(c@.params =~= seq![number(*keypad as int)] + strings_as_params(keys@));
            c
        },
    }
}

/// The result of `action`: for `get`, the pressed keys of the reply as an array; otherwise `null`.
pub fn finish(action: &KeypadsAction, outcome: Result<Vec<Json>, ProtocolError>) -> (r: Result<Json, CommandError>)
    ensures
        command_result_view(r) == match *action {
            KeypadsAction::Get { .. } => all_data(data_result_view(outcome)),
            _ => acknowledged(data_result_view(outcome)),
        },
{
    match action {
        KeypadsAction::Get { .. } => data_as_array(outcome),
        _ => acknowledge(outcome),
    }
}

} // verus!
