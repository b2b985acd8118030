//! System information queries.
use vstd::prelude::*;

use super::{first_datum, make_call, take_first_datum, Call, CallView, command_result_view};
use crate::cli::InfoAction;
use crate::connection::data_result_view;
use crate::error::{CommandError, ProtocolError};
use crate::json::{Json, JsonView};

verus! {

/// The name of the `info` function for `action`.
pub open spec fn info_function(action: InfoAction) -> Seq<char> {
    match action {
        InfoAction::Avs => "avs"@,
        InfoAction::Launcher => "launcher"@,
        InfoAction::Memory => "memory"@,
    }
}

/// Each query asks for the `info` function of its own name, and different queries
/// ask for different functions.
pub proof fn lemma_info_functions(a: InfoAction, b: InfoAction)
    ensures
        a is Avs ==> info_function(a) == "avs"@,
        a is Launcher ==> info_function(a) == "launcher"@,
        a is Memory ==> info_function(a) == "memory"@,
        a != b ==> info_function(a) != info_function(b),
{
    reveal_strlit("avs");
    reveal_strlit("launcher");
    reveal_strlit("memory");
    assert("avs"@[0] != "launcher"@[0]);
    assert("avs"@[0] != "memory"@[0]);
    assert("launcher"@[0] != "memory"@[0]);
}

fn function_name(action: &InfoAction) -> (f: &'static str)
    ensures
        f@ == info_function(*action),
{
    match action {
        InfoAction::Avs => "avs",
        InfoAction::Launcher => "launcher",
        InfoAction::Memory => "memory",
    }
}

/// The call for `action`: the `info` function of that name, without parameters.
pub fn call(action: &InfoAction) -> (c: Call)
    ensures
        c@ == (CallView { module: "info"@, function: info_function(*action), params: Seq::empty() }),
{
    let c = make_call("info", function_name(action), Vec::new());
    assert(c@.params =~= Seq::<JsonView>::empty());
    c
}

/// The result of `action`: the first datum of the reply, or an error naming
/// `info <function>` when the reply holds no data.
pub fn finish(action: &InfoAction, outcome: Result<Vec<Json>, ProtocolError>) -> (r: Result<Json, CommandError>)
    ensures
        command_result_view(r) == first_datum(data_result_view(outcome), "info "@ + info_function(*action)),
{
    let mut what = String::from_str("info ");
    what.append(function_name(action));
    take_first_datum(outcome, what)
}

} // verus!
