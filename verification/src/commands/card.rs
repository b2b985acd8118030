//! Virtual card insertion.
use vstd::prelude::*;

use super::{acknowledge, acknowledged, make_call, number, string_value, unsigned_number, Call, CallView, command_result_view};
use crate::cli::CardAction;
use crate::connection::data_result_view;
use crate::error::{CommandError, ProtocolError};
use crate::json::{Json, JsonView};

verus! {

/// The call for `action`: `card insert` with the reader unit and the card ID.
pub open spec fn card_call(action: CardAction) -> CallView {
    match action {
        CardAction::Insert { unit, card_id } => CallView {
            module: "card"@,
            function: "insert"@,
            params: seq![number(unit as int), JsonView::Str(card_id@)],
        },
    }
}

/// Inserting a card calls `card insert` with exactly two parameters: the reader
/// unit first, then the card ID.
pub proof fn lemma_card_calls(action: CardAction)
    ensures
        card_call(action).module == "card"@,
        card_call(action).function == "insert"@,
        card_call(action).params.len() == 2,
        match action {
            CardAction::Insert { unit, card_id } => card_call(action).params[0] == number(unit as int)
                && card_call(action).params[1] == JsonView::Str(card_id@),
        },
{
}

/// The call for `action`.
pub fn call(action: &CardAction) -> (c: Call)
    ensures
        c@ == card_call(*action),
{
    match action {
        CardAction::Insert { unit, card_id } => {
            let c = make_call("card", "insert", vec![unsigned_number(*unit as u64), string_value(card_id.as_str())]);
            assert(c@.params =~= seq![number(*unit as int), JsonView::Str(card_id@)]);
            c
        },
    }
}

/// The result of `action`: `null`.
pub fn finish(action: &CardAction, outcome: Result<Vec<Json>, ProtocolError>) -> (r: Result<Json, CommandError>)
    ensures
        command_result_view(r) == acknowledged(data_result_view(outcome)),
{
    acknowledge(outcome)
}

} // verus!
