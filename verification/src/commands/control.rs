//! Process lifecycle control.
use vstd::prelude::*;

use super::{acknowledge, acknowledged, make_call, number, signed_number, string_value, Call, CallView, command_result_view};
use crate::cli::ControlAction;
use crate::connection::data_result_view;
use crate::error::{CommandError, CommandErrorView, ProtocolError, ProtocolErrorView};
use crate::json::{Json, JsonView};

verus! {

/// The call for `action`. Exiting with code 0, the default, sends no parameter.
pub open spec fn control_call(action: ControlAction) -> CallView {
    match action {
        ControlAction::Raise { signal } => CallView { module: "control"@, function: "raise"@, params: seq![JsonView::Str(signal@)] },
        ControlAction::Exit { code } => CallView {
            module: "control"@,
            function: "exit"@,
            params: if code != 0 { seq![number(code as int)] } else { Seq::empty() },
        },
        ControlAction::Restart => CallView { module: "control"@, function: "restart"@, params: Seq::empty() },
        ControlAction::Shutdown => CallView { module: "control"@, function: "shutdown"@, params: Seq::empty() },
        ControlAction::Reboot => CallView { module: "control"@, function: "reboot"@, params: Seq::empty() },
    }
}

/// Whether the server is expected to close the connection on `action`.
pub open spec fn expects_disconnect(action: ControlAction) -> bool {
    !(action is Raise)
}

/// For a call after which the server closes the connection: a connection error,
/// or running out of attempts, is the expected outcome and yields `null` like a
/// reply does; any other error (such as an API error) is the command's error.
pub open spec fn disconnect_tolerant(outcome: Result<Seq<JsonView>, ProtocolErrorView>) -> Result<JsonView, CommandErrorView> {
    match outcome {
        Ok(_) => Ok(JsonView::Null),
        Err(e) => if e is Connection || e is RetriesExhausted {
            Ok(JsonView::Null)
        } else {
            Err(CommandErrorView::Protocol(e))
        },
    }
}

/// Every control action calls the `control` function of its own name: `raise` with
/// the signal, `exit` with the code (none for code 0), and `restart`, `shutdown` and
/// `reboot` without parameters; no two actions call the same function.
pub proof fn lemma_control_calls(action: ControlAction)
    ensures
        control_call(action).module == "control"@,
        match action {
            ControlAction::Raise { signal } => control_call(action).function == "raise"@
                && control_call(action).params.len() == 1 && control_call(action).params[0] == JsonView::Str(signal@),
            ControlAction::Exit { code } => control_call(action).function == "exit"@
                && (code == 0 ==> control_call(action).params.len() == 0)
                && (code != 0 ==> control_call(action).params.len() == 1 && control_call(action).params[0] == number(code as int)),
            ControlAction::Restart => control_call(action).function == "restart"@ && control_call(action).params.len() == 0,
            ControlAction::Shutdown => control_call(action).function == "shutdown"@ && control_call(action).params.len() == 0,
            ControlAction::Reboot => control_call(action).function == "reboot"@ && control_call(action).params.len() == 0,
        },
        "raise"@ != "exit"@ && "raise"@ != "restart"@ && "raise"@ != "shutdown"@ && "raise"@ != "reboot"@,
        "exit"@ != "restart"@ && "exit"@ != "shutdown"@ && "exit"@ != "reboot"@,
        "restart"@ != "shutdown"@ && "restart"@ != "reboot"@ && "shutdown"@ != "reboot"@,
{
    reveal_strlit("raise");
    reveal_strlit("exit");
    reveal_strlit("restart");
    reveal_strlit("shutdown");
    reveal_strlit("reboot");
    assert("raise"@[0] != "exit"@[0]);
    assert("raise"@[1] != "restart"@[1]);
    assert("raise"@[0] != "shutdown"@[0]);
    assert("raise"@[1] != "reboot"@[1]);
    assert("exit"@[0] != "restart"@[0]);
    assert("exit"@[0] != "shutdown"@[0]);
    assert("exit"@[0] != "reboot"@[0]);
    assert("restart"@[0] != "shutdown"@[0]);
    assert("restart"@.len() != "reboot"@.len());
    assert("shutdown"@[0] != "reboot"@[0]);
}

/// The call for `action`.
pub fn call(action: &ControlAction) -> (c: Call)
    ensures
        c@ == control_call(*action),
{
    let c = match action {
        ControlAction::Raise { signal } => make_call("control", "raise", vec![string_value(signal.as_str())]),
        ControlAction::Exit { code } => if *code != 0 {
            make_call("control", "exit", vec![signed_number(*code as i64)])
        } else {
            make_call("control", "exit", Vec::new())
        },
        ControlAction::Restart => make_call("control", "restart", Vec::new()),
        ControlAction::Shutdown => make_call("control", "shutdown", Vec::new()),
        ControlAction::Reboot => make_call("control", "reboot", Vec::new()),
    };
    assert(c@.params =~= control_call(*action).params);
    c
}

/// The result of a call after which the server is expected to close the connection.
pub fn expect_disconnect(outcome: Result<Vec<Json>, ProtocolError>) -> (r: Result<Json, CommandError>)
    ensures
        command_result_view(r) == disconnect_tolerant(data_result_view(outcome)),
{
    match outcome {
        Ok(_) => Ok(Json::Null),
        Err(ProtocolError::Connection(..)) => Ok(Json::Null),
        Err(ProtocolError::RetriesExhausted { .. }) => Ok(Json::Null),
        Err(e) => Err(CommandError::Protocol(e)),
    }
}

/// The result of `action`: `null`; for every action but `raise`, the server closing
/// the connection counts as success.
pub fn finish(action: &ControlAction, outcome: Result<Vec<Json>, ProtocolError>) -> (r: Result<Json, CommandError>)
    ensures
        command_result_view(r) == if expects_disconnect(*action) {
            disconnect_tolerant(data_result_view(outcome))
        } else {
            acknowledged(data_result_view(outcome))
        },
{
    match action {
        ControlAction::Raise { .. } => acknowledge(outcome),
        _ => expect_disconnect(outcome),
    }
}

} // verus!
