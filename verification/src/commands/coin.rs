//! Coin count: get, set, insert.
use vstd::prelude::*;

use super::{acknowledge, acknowledged, first_datum, make_call, number, take_first_datum, unsigned_number, Call, CallView, command_result_view};
use crate::cli::CoinAction;
use crate::connection::data_result_view;
use crate::error::{CommandError, ProtocolError};
use crate::json::{Json, JsonView};

verus! {

/// The call for `action`. Inserting one coin, the default, sends no parameter;
/// any other amount is sent.
pub open spec fn coin_call(action: CoinAction) -> CallView {
    match action {
        CoinAction::Get => CallView { module: "coin"@, function: "get"@, params: Seq::empty() },
        CoinAction::SetAmount { amount } => CallView { module: "coin"@, function: "set"@, params: seq![number(amount as int)] },
        CoinAction::Insert { amount } => CallView {
            module: "coin"@,
            function: "insert"@,
            params: if amount != 1 { seq![number(amount as int)] } else { Seq::empty() },
        },
    }
}

/// Each coin action calls the `coin` function of its own name: `get` sends nothing,
/// `set` sends the amount, and `insert` sends the amount unless it is one coin.
pub proof fn lemma_coin_calls(action: CoinAction)
    ensures
        coin_call(action).module == "coin"@,
        match action {
            CoinAction::Get => coin_call(action).function == "get"@ && coin_call(action).params.len() == 0,
            CoinAction::SetAmount { amount } => coin_call(action).function == "set"@
                && coin_call(action).params.len() == 1 && coin_call(action).params[0] == number(amount as int),
            CoinAction::Insert { amount } => coin_call(action).function == "insert"@
                && (amount == 1 ==> coin_call(action).params.len() == 0)
                && (amount != 1 ==> coin_call(action).params.len() == 1 && coin_call(action).params[0] == number(amount as int)),
        },
        "get"@ != "set"@ && "get"@ != "insert"@ && "set"@ != "insert"@,
{
    reveal_strlit("get");
    reveal_strlit("set");
    reveal_strlit("insert");
    assert("get"@[0] != "set"@[0]);
    assert("get"@[0] != "insert"@[0]);
    assert("set"@[0] != "insert"@[0]);
}

/// The call for `action`.
pub fn call(action: &CoinAction) -> (c: Call)
    ensures
        c@ == coin_call(*action),
{
    match action {
        CoinAction::Get => {
            let c = make_call("coin", "get", Vec::new());
            assert(c@.params =~= Seq::<JsonView>::empty());
            c
        },
        CoinAction::SetAmount { amount } => {
            let c = make_call("coin", "set", vec![unsigned_number(*amount as u64)]);
            assert(c@.params =~= seq![number(*amount as int)]);
            c
        },
        CoinAction::Insert { amount } => {
            if *amount != 1 {
                let c = make_call("coin", "insert", vec![unsigned_number(*amount as u64)]);
                assert(c@.params =~= seq![number(*amount as int)]);
                c
            } else {
                let c = make_call("coin", "insert", Vec::new());
                assert(c@.params =~= Seq::<JsonView>::empty());
                c
            }
        },
    }
}

/// The result of `action`: for `get`, the first datum of the reply (an error
/// naming `coin get` when there is none); otherwise `null`.
pub fn finish(action: &CoinAction, outcome: Result<Vec<Json>, ProtocolError>) -> (r: Result<Json, CommandError>)
    ensures
        command_result_view(r) == match *action {
            CoinAction::Get => first_datum(data_result_view(outcome), "coin get"@),
            _ => acknowledged(data_result_view(outcome)),
        },
{
    match action {
        CoinAction::Get => take_first_datum(outcome, String::from_str("coin get")),
        _ => acknowledge(outcome),
    }
}

} // verus!
