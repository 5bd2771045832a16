//! The tool calls of a turn: what was observed of them, and which are shown.

use vstd::prelude::*;
use vstd::string::*;
use crate::acp_turn::{ObservedToolCall, ObservedToolCallStatus};
use crate::acp_turn_driver::display;
use crate::acp_turn_driver::display::{EntryModel, ToolEntry, ToolState};
use crate::text;

verus! {

/// An observed tool call as a mathematical value.
#[verifier::ext_equal]
pub struct CallModel {
    pub id: Seq<char>,
    pub title: Seq<char>,
    pub status: ObservedToolCallStatus,
}

pub open spec fn call_models(calls: Seq<ObservedToolCall>) -> Seq<CallModel> {
    calls.map_values(
        |c: ObservedToolCall| CallModel { id: c.id@, title: c.title@, status: c.status },
    )
}

/// Where the call with the given id stands.
pub open spec fn call_index(calls: Seq<CallModel>, id: Seq<char>) -> Option<int>
    decreases calls.len(),
{
    if calls.len() == 0 {
        None
    } else {
        match call_index(calls.drop_last(), id) {
            Some(i) => Some(i),
            None => if calls.last().id == id {
                Some(calls.len() - 1)
            } else {
                None
            },
        }
    }
}

/// The observed calls after another observation. A call that was observed before keeps its place,
/// and its title where the observation has none.
pub open spec fn observing(
    calls: Seq<CallModel>,
    id: Seq<char>,
    title: Seq<char>,
    status: ObservedToolCallStatus,
) -> Seq<CallModel> {
    match call_index(calls, id) {
        Some(i) => calls.update(
            i,
            CallModel {
                id: calls[i].id,
                title: if title.len() > 0 {
                    display::shown_title(title)
                } else {
                    calls[i].title
                },
                status,
            },
        ),
        None => calls.push(CallModel { id, title: display::shown_title(title), status }),
    }
}

fn find_call(calls: &Vec<ObservedToolCall>, id: &str) -> (r: Option<usize>)
    ensures
        match r {
            Some(i) => call_index(call_models(calls@), id@) == Some(i as int) && i < calls@.len(),
            None => call_index(call_models(calls@), id@) is None,
        },
{
    let ghost all = call_models(calls@);
    let mut found: Option<usize> = None;
    let mut i: usize = 0;
    assert(all.take(0) =~= Seq::empty());
    while i < calls.len()
        invariant
            i <= calls@.len(),
            all == call_models(calls@),
            match found {
                Some(k) => call_index(all.take(i as int), id@) == Some(k as int) && k < i,
                None => call_index(all.take(i as int), id@) is None,
            },
        decreases calls@.len() - i,
    {
        assert(all.take(i + 1).drop_last() =~= all.take(i as int));
        assert(all.take(i + 1).last().id == calls@[i as int].id@);
        if found.is_none() && text::str_eq(calls[i].id.as_str(), id) {
            found = Some(i);
        }
        i = i + 1;
    }
    assert(all.take(all.len() as int) =~= all);
    found
}

/// Records what was observed of a tool call.
pub fn observe_tool_call(
    observed_tools: &mut Vec<ObservedToolCall>,
    id: &str,
    title: &str,
    status: ObservedToolCallStatus,
)
    ensures
        call_models(final(observed_tools)@) == observing(
            call_models(old(observed_tools)@),
            id@,
            title@,
            status,
        ),
{
    let ghost before = observed_tools@;
    match find_call(observed_tools, id) {
        Some(i) => {
            let shown = if title.is_empty() {
                observed_tools[i].title.clone()
            } else {
                display::sanitize_title(title)
            };
            let call = ObservedToolCall {
                id: observed_tools[i].id.clone(),
                title: shown,
                status,
            };
            observed_tools.set(i, call);
            assert(call_models(observed_tools@) =~= observing(
                call_models(before),
                id@,
                title@,
                status,
            ));
        },
        None => {
            let call = ObservedToolCall {
                id: String::from_str(id),
                title: display::sanitize_title(title),
                status,
            };
            observed_tools.push(call);
            assert(call_models(observed_tools@) =~= observing(
                call_models(before),
                id@,
                title@,
                status,
            ));
        },
    }
}

/// Where the shown call with the given id stands.
pub open spec fn entry_index(tools: Seq<EntryModel>, id: Seq<char>) -> Option<int>
    decreases tools.len(),
{
    if tools.len() == 0 {
        None
    } else {
        match entry_index(tools.drop_last(), id) {
            Some(i) => Some(i),
            None => if tools.last().id == id {
                Some(tools.len() - 1)
            } else {
                None
            },
        }
    }
}

/// The shown calls after a call entered a state. A call without a title is not shown, but one
/// that is shown keeps its title where it gets no other.
pub open spec fn showing(
    tools: Seq<EntryModel>,
    id: Seq<char>,
    title: Seq<char>,
    state: ToolState,
) -> Seq<EntryModel> {
    match entry_index(tools, id) {
        Some(i) => tools.update(
            i,
            EntryModel {
                id: tools[i].id,
                title: if title.len() > 0 {
                    display::shown_title(title)
                } else {
                    tools[i].title
                },
                state,
            },
        ),
        None => if title.len() > 0 {
            tools.push(EntryModel { id, title: display::shown_title(title), state })
        } else {
            tools
        },
    }
}

fn find_entry(tools: &Vec<ToolEntry>, id: &str) -> (r: Option<usize>)
    ensures
        match r {
            Some(i) => entry_index(display::entry_models(tools@), id@) == Some(i as int) && i < tools@.len(),
            None => entry_index(display::entry_models(tools@), id@) is None,
        },
{
    let ghost all = display::entry_models(tools@);
    let mut found: Option<usize> = None;
    let mut i: usize = 0;
    assert(all.take(0) =~= Seq::empty());
    while i < tools.len()
        invariant
            i <= tools@.len(),
            all == display::entry_models(tools@),
            match found {
                Some(k) => entry_index(all.take(i as int), id@) == Some(k as int) && k < i,
                None => entry_index(all.take(i as int), id@) is None,
            },
        decreases tools@.len() - i,
    {
        assert(all.take(i + 1).drop_last() =~= all.take(i as int));
        assert(all.take(i + 1).last().id == tools@[i as int].id@);
        if found.is_none() && text::str_eq(tools[i].id.as_str(), id) {
            found = Some(i);
        }
        i = i + 1;
    }
    assert(all.take(all.len() as int) =~= all);
    found
}

/// Updates the shown calls after a call entered a state.
pub fn show_tool_call(tools: &mut Vec<ToolEntry>, id: &str, title: &str, state: ToolState)
    ensures
        display::entry_models(final(tools)@) == showing(display::entry_models(old(tools)@), id@, title@, state),
{
    let ghost before = tools@;
    match find_entry(tools, id) {
        Some(i) => {
            let shown = if title.is_empty() {
                tools[i].title.clone()
            } else {
                display::sanitize_title(title)
            };
            let entry = ToolEntry { id: tools[i].id.clone(), title: shown, state };
            tools.set(i, entry);
        },
        None => {
            if !title.is_empty() {
                let entry = ToolEntry {
                    id: String::from_str(id),
                    title: display::sanitize_title(title),
                    state,
                };
                tools.push(entry);
            }
        },
    }
    assert(display::entry_models(tools@) =~= showing(display::entry_models(before), id@, title@, state));
}

/// Each observed call has an id of its own.
pub open spec fn distinct_calls(calls: Seq<CallModel>) -> bool {
    forall|i: int, j: int| 0 <= i < j < calls.len() ==> calls[i].id != calls[j].id
}

proof fn lemma_call_index(calls: Seq<CallModel>, id: Seq<char>)
    ensures
        match call_index(calls, id) {
            Some(i) => 0 <= i < calls.len() && calls[i].id == id,
            None => forall|i: int| 0 <= i < calls.len() ==> (#[trigger] calls[i]).id != id,
        },
    decreases calls.len(),
{
    if calls.len() > 0 {
        lemma_call_index(calls.drop_last(), id);
        match call_index(calls.drop_last(), id) {
            Some(i) => {
                assert(calls.drop_last()[i] == calls[i]);
            },
            None => {
                assert forall|i: int| 0 <= i < calls.len() - 1 implies (#[trigger] calls[i]).id
                    != id by {
                    assert(calls.drop_last()[i] == calls[i]);
                }
            },
        }
    }
}

/// A call is observed once however often it is reported, and its latest status is kept.
pub proof fn lemma_observing_keeps_calls_distinct(
    calls: Seq<CallModel>,
    id: Seq<char>,
    title: Seq<char>,
    status: ObservedToolCallStatus,
)
    requires
        distinct_calls(calls),
    ensures
        distinct_calls(observing(calls, id, title, status)),
        exists|i: int|
            0 <= i < observing(calls, id, title, status).len() && (#[trigger] observing(
                calls,
                id,
                title,
                status,
            )[i]).id == id && observing(calls, id, title, status)[i].status == status,
{
    lemma_call_index(calls, id);
    let after = observing(calls, id, title, status);
    match call_index(calls, id) {
        Some(i) => {
            assert(after[i].id == id && after[i].status == status);
        },
        None => {
            assert(after[after.len() - 1].id == id && after[after.len() - 1].status == status);
        },
    }
}

} // verus!
