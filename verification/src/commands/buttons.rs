//! Digital buttons: read all states, set one, reset some or all.
use vstd::prelude::*;

use super::{make_call, names_as_singletons, strings_as_singletons, Call, CallView};
use crate::json::{items_view, Json, JsonView};

verus! {

/// The call that reads all button states; its reply goes through `states_of`.
pub fn read_call() -> (c: Call)
    ensures
        c@ == (CallView { module: "buttons"@, function: "read"@, params: Seq::empty() }),
{
    let c = make_call("buttons", "read", Vec::new());
    assert(c@.params =~= Seq::<JsonView>::empty());
    c
}

/// The call that sets button `name` to `state`: one parameter, `[name, state]`.
pub fn write_call(name: String, state: Json) -> (c: Call)
    ensures
        c@ == (CallView {
            module: "buttons"@,
            function: "write"@,
            params: seq![JsonView::Array(seq![JsonView::Str(name@), state@])],
        }),
{
    let ghost sv = state@;
    let ghost nv = name@;
    let first = Json::Str(name);
    assert(first@ == JsonView::Str(nv));
    let param = Json::Array(vec![first, state]);
    assert(param@ == JsonView::Array(seq![JsonView::Str(nv), sv])) by {
        assert(param@->Array_0 =~= seq![JsonView::Str(nv), sv]);
    }
    let c = make_call("buttons", "write", vec![param]);
    assert(c@.params =~= seq![JsonView::Array(seq![JsonView::Str(nv), sv])]);
    c
}

/// The call that resets the named buttons (all of them where no name is given):
/// one parameter `[name]` per name.
pub fn write_reset_call(names: &Vec<String>) -> (c: Call)
    ensures
        c@ == (CallView { module: "buttons"@, function: "write_reset"@, params: strings_as_singletons(names@) }),
{
    make_call("buttons", "write_reset", names_as_singletons(names))
}

} // verus!
