use vstd::prelude::*;
use std::collections::VecDeque;

verus! {

/// What a message carries besides its payload: whether the sender attached a
/// channel on which it waits for a response.
#[derive(Debug, Clone, Copy, PartialEq, Eq, Structural)]
pub struct Header {
    pub tx_response: bool,
}

/// The messages that the state machine understands.
#[derive(Debug, Clone, Copy, PartialEq, Eq, Structural)]
pub enum Protocol1 {
    Add { hdr: Header, f1: i32 },
    Get { hdr: Header, data1: i32 },
}

/// What a state's process function reports back to the dispatcher.
#[derive(Debug, Clone, Copy, PartialEq, Eq, Structural)]
pub enum StateResult {
    NotHandled,
    Handled,
    TransitionTo(usize),
}

/// The process functions that a row of the state table can name.
#[derive(Debug, Clone, Copy, PartialEq, Eq, Structural)]
pub enum StateFn {
    StateBase,
    StateIntermediate,
    StateProcessAdd,
}

/// The enter functions that a row of the state table can name.
#[derive(Debug, Clone, Copy, PartialEq, Eq, Structural)]
pub enum EnterFn {
    StateEnterBase,
    StateEnterIntermediate,
    StateEnterAdd,
}

/// The exit functions that a row of the state table can name.
#[derive(Debug, Clone, Copy, PartialEq, Eq, Structural)]
pub enum ExitFn {
    StateExitBase,
    StateExitIntermediate,
    StateExitAdd,
}

/// One row of the state table: a state, the state it nests in, its functions,
/// and whether it has been entered.
pub struct StateFns {
    pub name: String,
    pub parent: Option<usize>,
    pub enter: Option<EnterFn>,
    pub process: StateFn,
    pub exit: Option<ExitFn>,
    pub active: bool,
}

/// The number of rows of the state table.
pub const MAX_STATE_FNS: usize = 3;

/// The handle of the outermost state, which answers `Get`.
pub const STATE_BASE_HDL: usize = 0;

/// The handle of the state nested in the base state, which handles nothing.
pub const STATE_INTERMEDIATE_HDL: usize = 1;

/// The handle of the innermost state, which handles `Add`.
pub const STATE_ADD_HDL: usize = 2;

/// A hierarchical state machine: a message that a state leaves unhandled goes
/// on to its parent. `enter_fns_hdls` holds the states still to be entered,
/// innermost first; `exit_fns_hdls` the states still to be exited, innermost
/// first.
pub struct StateMachine {
    pub state_fns: [StateFns; 3],
    pub enter_fns_hdls: Vec<usize>,
    pub exit_fns_hdls: VecDeque<usize>,
    pub current_state_fns_hdl: usize,
    pub previous_state_fns_hdl: usize,
    pub current_state_changed: bool,
    pub data1: i32,
}

/// A row of the state table without its name.
pub struct StateFnsView {
    pub parent: Option<usize>,
    pub enter: Option<EnterFn>,
    pub process: StateFn,
    pub exit: Option<ExitFn>,
    pub active: bool,
}

impl View for StateFns {
    type V = StateFnsView;

    open spec fn view(&self) -> StateFnsView {
        StateFnsView {
            parent: self.parent,
            enter: self.enter,
            process: self.process,
            exit: self.exit,
            active: self.active,
        }
    }
}

/// The state machine as the contracts see it.
pub struct HsmView {
    pub fns: Seq<StateFnsView>,
    pub enter_hdls: Seq<usize>,
    pub exit_hdls: Seq<usize>,
    pub current: usize,
    pub previous: usize,
    pub changed: bool,
    pub data1: i32,
}

impl View for StateMachine {
    type V = HsmView;

    open spec fn view(&self) -> HsmView {
        HsmView {
            fns: self.state_fns@.map_values(|f: StateFns| f@),
            enter_hdls: self.enter_fns_hdls@,
            exit_hdls: self.exit_fns_hdls@,
            current: self.current_state_fns_hdl,
            previous: self.previous_state_fns_hdl,
            changed: self.current_state_changed,
            data1: self.data1,
        }
    }
}

/// Following parents from the row `h`, a state without a parent is reached
/// within `fuel` steps, and every parent on the way names a row.
pub open spec fn chain_ends_within(fns: Seq<StateFnsView>, h: int, fuel: nat) -> bool
    decreases fuel,
{
    &&& 0 <= h < fns.len()
    &&& match fns[h].parent {
        Some(p) => fuel > 0 && chain_ends_within(fns, p as int, (fuel - 1) as nat),
        None => true,
    }
}

/// Every chain of parents ends: from every row, a state without a parent is
/// reached within as many steps as the table has rows.
pub open spec fn chains_end(fns: Seq<StateFnsView>) -> bool {
    forall|h: int| 0 <= h < fns.len() ==> #[trigger] chain_ends_within(fns, h, fns.len())
}

/// The number of steps from the row `h` up to a state without a parent,
/// counting at most `fuel` of them.
pub open spec fn hops(fns: Seq<StateFnsView>, h: int, fuel: nat) -> nat
    decreases fuel,
{
    match fns[h].parent {
        Some(p) => if fuel > 0 {
            1 + hops(fns, p as int, (fuel - 1) as nat)
        } else {
            0
        },
        None => 0,
    }
}

/// How deep the state `h` is nested: the number of its ancestors.
pub open spec fn depth(fns: Seq<StateFnsView>, h: usize) -> nat {
    hops(fns, h as int, fns.len())
}

/// Allowing more steps changes neither whether a chain ends nor its length.
proof fn lemma_more_fuel(fns: Seq<StateFnsView>, h: int, f: nat, g: nat)
    requires
        chain_ends_within(fns, h, f),
        f <= g,
    ensures
        chain_ends_within(fns, h, g),
        hops(fns, h, f) == hops(fns, h, g),
    decreases f,
{
    match fns[h].parent {
        Some(p) => lemma_more_fuel(fns, p as int, (f - 1) as nat, (g - 1) as nat),
        None => {},
    }
}

/// Where chains end, a state's parent names a row and is less deeply nested.
pub proof fn lemma_parent_closer(fns: Seq<StateFnsView>, h: usize)
    requires
        chains_end(fns),
        h < fns.len(),
    ensures
        match fns[h as int].parent {
            Some(p) => p < fns.len() && depth(fns, p) < depth(fns, h),
            None => depth(fns, h) == 0,
        },
{
    assert(chain_ends_within(fns, h as int, fns.len()));
    match fns[h as int].parent {
        Some(p) => {
            lemma_more_fuel(fns, p as int, (fns.len() - 1) as nat, fns.len());
        },
        None => {},
    }
}

/// Two tables with the same parents agree on which chains end and how long
/// they are.
proof fn lemma_hops_same_parents(f1: Seq<StateFnsView>, f2: Seq<StateFnsView>, h: int, fuel: nat)
    requires
        f1.len() == f2.len(),
        forall|i: int| 0 <= i < f1.len() ==> #[trigger] f1[i].parent == f2[i].parent,
    ensures
        chain_ends_within(f1, h, fuel) == chain_ends_within(f2, h, fuel),
        chain_ends_within(f1, h, fuel) ==> hops(f1, h, fuel) == hops(f2, h, fuel),
    decreases fuel,
{
    if 0 <= h < f1.len() {
        match f1[h].parent {
            Some(p) => if fuel > 0 {
                lemma_hops_same_parents(f1, f2, p as int, (fuel - 1) as nat);
            },
            None => {},
        }
    }
}

/// Two tables with the same parents agree on whether all chains end and on
/// how deep each state is nested.
pub proof fn lemma_same_parents(f1: Seq<StateFnsView>, f2: Seq<StateFnsView>)
    requires
        f1.len() == f2.len(),
        forall|i: int| 0 <= i < f1.len() ==> #[trigger] f1[i].parent == f2[i].parent,
    ensures
        chains_end(f1) == chains_end(f2),
        chains_end(f1) ==> forall|h: usize| h < f1.len() ==> #[trigger] depth(f1, h) == depth(f2, h),
{
    assert forall|h: int|
        #![trigger chain_ends_within(f1, h, f1.len())]
        #![trigger chain_ends_within(f2, h, f2.len())]
        0 <= h < f1.len() implies chain_ends_within(f1, h, f1.len()) == chain_ends_within(
            f2,
            h,
            f2.len(),
        ) by {
        lemma_hops_same_parents(f1, f2, h, f1.len());
    }
    if chains_end(f1) {
        assert forall|h: usize| h < f1.len() implies #[trigger] depth(f1, h) == depth(f2, h) by {
            assert(chain_ends_within(f1, h as int, f1.len()));
            lemma_hops_same_parents(f1, f2, h as int, f1.len());
        }
    }
}

/// Every handle in `hdls` is a row of a table of `n` rows.
pub open spec fn hdls_in_range(hdls: Seq<usize>, n: nat) -> bool {
    forall|i: int| 0 <= i < hdls.len() ==> #[trigger] hdls[i] < n
}

/// `h`, its parent, its parent's parent, and so on up to the outermost state.
pub open spec fn ancestors(fns: Seq<StateFnsView>, h: usize) -> Seq<usize>
    decreases depth(fns, h),
{
    match fns[h as int].parent {
        Some(p) => if depth(fns, p) < depth(fns, h) {
            seq![h] + ancestors(fns, p)
        } else {
            seq![h]
        },
        None => seq![h],
    }
}

/// The states to exit when leaving `h` for a state nested in `sentinel`:
/// `h` and its ancestors up to but excluding `sentinel`; just `h` when `h` is
/// itself the sentinel; `h` and all its ancestors when there is no sentinel.
pub open spec fn exit_path(fns: Seq<StateFnsView>, h: usize, sentinel: Option<usize>) -> Seq<usize>
    decreases depth(fns, h),
{
    if sentinel == Some(h) {
        seq![h]
    } else {
        match fns[h as int].parent {
            Some(p) => if depth(fns, p) < depth(fns, h) && sentinel != Some(p) {
                seq![h] + exit_path(fns, p, sentinel)
            } else {
                seq![h]
            },
            None => seq![h],
        }
    }
}

/// The states to enter on the way to `h`: `h` and its ancestors up to but
/// excluding the first one already active.
pub open spec fn enter_path(fns: Seq<StateFnsView>, h: usize) -> Seq<usize>
    decreases depth(fns, h),
{
    match fns[h as int].parent {
        Some(p) => if depth(fns, p) < depth(fns, h) && !fns[p as int].active {
            seq![h] + enter_path(fns, p)
        } else {
            seq![h]
        },
        None => seq![h],
    }
}

/// The nearest active proper ancestor of `h`, if any: the state that a
/// transition to `h` stays inside.
pub open spec fn enter_sentinel(fns: Seq<StateFnsView>, h: usize) -> Option<usize>
    decreases depth(fns, h),
{
    match fns[h as int].parent {
        Some(p) => if depth(fns, p) < depth(fns, h) {
            if fns[p as int].active {
                Some(p)
            } else {
                enter_sentinel(fns, p)
            }
        } else {
            None
        },
        None => None,
    }
}

/// What the process function `f` returns for `msg`.
pub open spec fn process_result(f: StateFn, msg: Protocol1) -> StateResult {
    match f {
        StateFn::StateBase => StateResult::Handled,
        StateFn::StateIntermediate => StateResult::NotHandled,
        StateFn::StateProcessAdd => if msg is Add {
            StateResult::TransitionTo(STATE_ADD_HDL)
        } else {
            StateResult::NotHandled
        },
    }
}

/// The value that the process function `f` makes of `data1` on `msg`, in
/// unbounded integers: only the `Add` state changes it.
pub open spec fn process_data1(f: StateFn, data1: int, msg: Protocol1) -> int {
    match msg {
        Protocol1::Add { f1, .. } => if f == StateFn::StateProcessAdd {
            data1 + f1
        } else {
            data1
        },
        Protocol1::Get { .. } => data1,
    }
}

/// The response owed to `msg` when `data1` is the machine's value: a `Get`
/// whose sender waits for a response is answered with a `Get` holding `data1`.
pub open spec fn response(msg: Protocol1, data1: i32) -> Option<Protocol1> {
    match msg {
        Protocol1::Get { hdr, .. } => if hdr.tx_response {
            Some(Protocol1::Get { hdr: Header { tx_response: false }, data1 })
        } else {
            None
        },
        _ => None,
    }
}

/// The response that the process function `f` itself sends for `msg`: only
/// the base state answers.
pub open spec fn process_reply(f: StateFn, msg: Protocol1, data1: i32) -> Option<Protocol1> {
    if f == StateFn::StateBase {
        response(msg, data1)
    } else {
        None
    }
}

/// Whether `x` is a value of `i32`.
pub open spec fn fits_i32(x: int) -> bool {
    i32::MIN <= x <= i32::MAX
}

/// The state that ends up with `msg` when it is given to `hdl`: the first of
/// `hdl` and its ancestors whose process function does not leave it
/// unhandled, or the outermost one.
pub open spec fn handler_of(fns: Seq<StateFnsView>, hdl: usize, msg: Protocol1) -> usize
    decreases depth(fns, hdl),
{
    if process_result(fns[hdl as int].process, msg) is NotHandled {
        match fns[hdl as int].parent {
            Some(p) => if depth(fns, p) < depth(fns, hdl) {
                handler_of(fns, p, msg)
            } else {
                hdl
            },
            None => hdl,
        }
    } else {
        hdl
    }
}

/// Whether the handle `i` occurs in `hdls`.
pub open spec fn holds_hdl(hdls: Seq<usize>, i: int) -> bool {
    exists|j: int| 0 <= j < hdls.len() && hdls[j] == i
}

/// The table after entering the states in `hdls`: a state with an enter
/// function becomes active when entered.
pub open spec fn activate(fns: Seq<StateFnsView>, hdls: Seq<usize>) -> Seq<StateFnsView> {
    Seq::new(
        fns.len(),
        |i: int|
            StateFnsView {
                parent: fns[i].parent,
                enter: fns[i].enter,
                process: fns[i].process,
                exit: fns[i].exit,
                active: fns[i].active || (fns[i].enter is Some && holds_hdl(hdls, i)),
            },
    )
}

/// The machine after the states queued to be entered have been entered, which
/// happens when the current state has just changed.
pub open spec fn enter_pending(v: HsmView) -> HsmView {
    if v.changed {
        HsmView { fns: activate(v.fns, v.enter_hdls), enter_hdls: Seq::empty(), changed: false, ..v }
    } else {
        v
    }
}

/// Whether the value that handling `msg` at `hdl` makes of `data1` is an `i32`.
pub open spec fn fits_step(v: HsmView, msg: Protocol1, hdl: usize) -> bool {
    fits_i32(process_data1(v.fns[handler_of(v.fns, hdl, msg) as int].process, v.data1 as int, msg))
}

/// One dispatch of `msg` to the state `hdl`: pending enters happen, the
/// message goes up from `hdl` to the state that handles it, a `Get` that no
/// state handles is answered anyway, and a transition queues the states to
/// enter next and exits the states it leaves. The second component is the
/// response owed to the sender.
pub open spec fn step(v: HsmView, msg: Protocol1, hdl: usize) -> (HsmView, Option<Protocol1>) {
    let v1 = enter_pending(v);
    let f = v1.fns[handler_of(v.fns, hdl, msg) as int].process;
    let r = process_result(f, msg);
    let data1 = process_data1(f, v1.data1 as int, msg) as i32;
    let reply = if r is NotHandled {
        response(msg, data1)
    } else {
        process_reply(f, msg, v1.data1)
    };
    match r {
        StateResult::TransitionTo(next) => (
            HsmView {
                fns: v1.fns,
                enter_hdls: v1.enter_hdls + enter_path(v1.fns, next),
                exit_hdls: Seq::empty(),
                current: next,
                previous: v1.current,
                changed: true,
                data1,
            },
            reply,
        ),
        _ => (HsmView { data1, ..v1 }, reply),
    }
}

/// The handler found for `msg` depends only on the parents and process
/// functions of the table, not on which states are active.
pub proof fn lemma_handler_of_same_shape(
    f1: Seq<StateFnsView>,
    f2: Seq<StateFnsView>,
    hdl: usize,
    msg: Protocol1,
)
    requires
        chains_end(f1),
        f1.len() == f2.len(),
        hdl < f1.len(),
        forall|i: int|
            0 <= i < f1.len() ==> #[trigger] f1[i].parent == f2[i].parent && f1[i].process
                == f2[i].process,
    ensures
        handler_of(f1, hdl, msg) == handler_of(f2, hdl, msg),
    decreases depth(f1, hdl),
{
    assert forall|i: int| 0 <= i < f1.len() implies #[trigger] f1[i].parent == f2[i].parent by {}
    lemma_same_parents(f1, f2);
    lemma_parent_closer(f1, hdl);
    match f1[hdl as int].parent {
        Some(p) => {
            assert(depth(f1, p) == depth(f2, p) && depth(f1, hdl) == depth(f2, hdl));
            lemma_handler_of_same_shape(f1, f2, p, msg);
        },
        None => {},
    }
}

/// The state that handles a message is the state it was given to or one of
/// its ancestors, so it names a row.
proof fn lemma_handler_of_in_range(fns: Seq<StateFnsView>, hdl: usize, msg: Protocol1)
    requires
        chains_end(fns),
        hdl < fns.len(),
    ensures
        handler_of(fns, hdl, msg) < fns.len(),
    decreases depth(fns, hdl),
{
    lemma_parent_closer(fns, hdl);
    match fns[hdl as int].parent {
        Some(p) => lemma_handler_of_in_range(fns, p, msg),
        None => {},
    }
}

/// Entering one more state `h` before the states of `s`.
proof fn lemma_activate_cons(fns: Seq<StateFnsView>, s: Seq<usize>, h: usize)
    requires
        h < fns.len(),
    ensures
        activate(fns, seq![h] + s) == (if fns[h as int].enter is Some {
            activate(fns, s).update(
                h as int,
                StateFnsView { active: true, ..activate(fns, s)[h as int] },
            )
        } else {
            activate(fns, s)
        }),
{
    let t = seq![h] + s;
    assert forall|i: int| holds_hdl(t, i) <==> (i == h || holds_hdl(s, i)) by {
        if i == h {
            assert(t[0] == h);
        }
        if holds_hdl(s, i) {
            let j = choose|j: int| 0 <= j < s.len() && s[j] == i;
            assert(t[j + 1] == i);
        }
        if holds_hdl(t, i) {
            let j = choose|j: int| 0 <= j < t.len() && t[j] == i;
            if j > 0 {
                assert(s[j - 1] == i);
            }
        }
    }
    let lhs = activate(fns, t);
    let rhs = if fns[h as int].enter is Some {
        activate(fns, s).update(h as int, StateFnsView { active: true, ..activate(fns, s)[h as int] })
    } else {
        activate(fns, s)
    };
    assert forall|i: int| 0 <= i < fns.len() implies #[trigger] lhs[i] == rhs[i] by {
        assert(holds_hdl(t, i) <==> (i == h || holds_hdl(s, i)));
    }
    assert(lhs =~= rhs);
}

/// Whether dispatching `msg` to `hdl` ends in a transition.
pub open spec fn step_transitions(v: HsmView, msg: Protocol1, hdl: usize) -> bool {
    process_result(v.fns[handler_of(v.fns, hdl, msg) as int].process, msg) is TransitionTo
}

/// The current state and every queued state name a row of the table.
pub open spec fn queues_in_range(v: HsmView) -> bool {
    &&& v.current < MAX_STATE_FNS
    &&& hdls_in_range(v.enter_hdls, MAX_STATE_FNS as nat)
    &&& hdls_in_range(v.exit_hdls, MAX_STATE_FNS as nat)
}

/// The inputs on which dispatching `msg` to `hdl` runs to its end: the parent
/// chains end, `hdl` names a row, `data1` does not overflow, the states to be
/// entered name rows when they are read (the current state has just
/// changed), and the current state and the states to be exited name rows when
/// they are read (on a transition).
pub open spec fn can_dispatch_at(v: HsmView, msg: Protocol1, hdl: usize) -> bool {
    &&& chains_end(v.fns)
    &&& v.fns.len() == MAX_STATE_FNS
    &&& hdl < MAX_STATE_FNS
    &&& fits_step(v, msg, hdl)
    &&& v.changed ==> hdls_in_range(v.enter_hdls, MAX_STATE_FNS as nat)
    &&& step_transitions(v, msg, hdl) ==> v.current < MAX_STATE_FNS && hdls_in_range(
        v.exit_hdls,
        MAX_STATE_FNS as nat,
    )
}

/// The inputs on which dispatching `msg` to the current state runs to its end.
pub open spec fn can_dispatch(v: HsmView, msg: Protocol1) -> bool {
    can_dispatch_at(v, msg, v.current)
}

/// What dispatching `msg` to the current state does: the new machine and the
/// response owed to the sender.
pub open spec fn dispatch_effect(v: HsmView, msg: Protocol1) -> (HsmView, Option<Protocol1>) {
    step(v, msg, v.current)
}

/// Law: dispatching to the current state is dispatching to the state whose
/// handle is current: the same inputs run to their end, with the same effect.
pub proof fn law_dispatch_msg_is_dispatch_at_current(v: HsmView, msg: Protocol1)
    ensures
        can_dispatch(v, msg) <==> can_dispatch_at(v, msg, v.current),
        dispatch_effect(v, msg) == step(v, msg, v.current),
{
}

/// The states on the way to `h` are `h` and its ancestors, so they name rows.
proof fn lemma_enter_path_in_range(fns: Seq<StateFnsView>, h: usize)
    requires
        chains_end(fns),
        h < fns.len(),
    ensures
        forall|i: int| 0 <= i < enter_path(fns, h).len() ==> #[trigger] enter_path(fns, h)[i] < fns.len(),
    decreases depth(fns, h),
{
    lemma_parent_closer(fns, h);
    match fns[h as int].parent {
        Some(p) => if !fns[p as int].active {
            lemma_enter_path_in_range(fns, p);
            let rest = enter_path(fns, p);
            assert forall|i: int| 0 <= i < enter_path(fns, h).len() implies #[trigger] enter_path(
                fns,
                h,
            )[i] < fns.len() by {
                if i > 0 {
                    assert(enter_path(fns, h)[i] == rest[i - 1]);
                }
            }
        },
        None => {},
    }
}

/// The states left on the way out of `h` are `h` and its ancestors, so they
/// name rows.
proof fn lemma_exit_path_in_range(fns: Seq<StateFnsView>, h: usize, sentinel: Option<usize>)
    requires
        chains_end(fns),
        h < fns.len(),
    ensures
        forall|i: int|
            0 <= i < exit_path(fns, h, sentinel).len() ==> #[trigger] exit_path(fns, h, sentinel)[i]
                < fns.len(),
    decreases depth(fns, h),
{
    lemma_parent_closer(fns, h);
    if sentinel != Some(h) {
        match fns[h as int].parent {
            Some(p) => if sentinel != Some(p) {
                lemma_exit_path_in_range(fns, p, sentinel);
                let rest = exit_path(fns, p, sentinel);
                assert forall|i: int|
                    0 <= i < exit_path(fns, h, sentinel).len() implies #[trigger] exit_path(
                    fns,
                    h,
                    sentinel,
                )[i] < fns.len() by {
                    if i > 0 {
                        assert(exit_path(fns, h, sentinel)[i] == rest[i - 1]);
                    }
                }
            },
            None => {},
        }
    }
}

/// A dispatch keeps the current state and the queued states within the table.
pub proof fn lemma_step_keeps_queues(v: HsmView, msg: Protocol1, hdl: usize)
    requires
        chains_end(v.fns),
        v.fns.len() == MAX_STATE_FNS,
        queues_in_range(v),
    ensures
        queues_in_range(step(v, msg, hdl).0),
{
    let v1 = enter_pending(v);
    lemma_same_parents(v.fns, v1.fns);
    lemma_enter_path_in_range(v1.fns, STATE_ADD_HDL);
    let e = v1.enter_hdls + enter_path(v1.fns, STATE_ADD_HDL);
    assert forall|i: int| 0 <= i < e.len() implies #[trigger] e[i] < MAX_STATE_FNS by {
        if i >= v1.enter_hdls.len() {
            assert(e[i] == enter_path(v1.fns, STATE_ADD_HDL)[i - v1.enter_hdls.len()]);
        }
    }
}

/// The row of the state table at `hdl`, not yet entered: the base state, the
/// intermediate state nested in it, and the `Add` state nested in that.
pub open spec fn table_row(hdl: int) -> StateFnsView {
    if hdl == STATE_BASE_HDL {
        StateFnsView {
            parent: None,
            enter: Some(EnterFn::StateEnterBase),
            process: StateFn::StateBase,
            exit: Some(ExitFn::StateExitBase),
            active: false,
        }
    } else if hdl == STATE_INTERMEDIATE_HDL {
        StateFnsView {
            parent: Some(STATE_BASE_HDL),
            enter: Some(EnterFn::StateEnterIntermediate),
            process: StateFn::StateIntermediate,
            exit: Some(ExitFn::StateExitIntermediate),
            active: false,
        }
    } else {
        StateFnsView {
            parent: Some(STATE_INTERMEDIATE_HDL),
            enter: Some(EnterFn::StateEnterAdd),
            process: StateFn::StateProcessAdd,
            exit: Some(ExitFn::StateExitAdd),
            active: false,
        }
    }
}

/// A new machine: in the `Add` state, which it is about to enter together
/// with its ancestors, nothing to exit, and `data1` zero.
pub open spec fn initial_view() -> HsmView {
    HsmView {
        fns: seq![table_row(0), table_row(1), table_row(2)],
        enter_hdls: seq![STATE_ADD_HDL, STATE_INTERMEDIATE_HDL, STATE_BASE_HDL],
        exit_hdls: Seq::empty(),
        current: STATE_ADD_HDL,
        previous: STATE_ADD_HDL,
        changed: true,
        data1: 0,
    }
}


/// The table has the rows that `new` builds, whichever of its states are active.
pub open spec fn standard_shape(fns: Seq<StateFnsView>) -> bool {
    &&& fns.len() == MAX_STATE_FNS
    &&& forall|i: int|
        0 <= i < MAX_STATE_FNS ==> #[trigger] fns[i] == StateFnsView {
            active: fns[i].active,
            ..table_row(i)
        }
}

/// The state of a machine built by `new` once it has handled a message: all
/// three states entered, the `Add` state current, nothing to exit, and at most
/// a re-entry of the `Add` state pending.
pub open spec fn settled(v: HsmView) -> bool {
    &&& standard_shape(v.fns)
    &&& forall|i: int| 0 <= i < MAX_STATE_FNS ==> #[trigger] v.fns[i].active
    &&& v.current == STATE_ADD_HDL
    &&& v.previous == STATE_ADD_HDL
    &&& v.exit_hdls == Seq::<usize>::empty()
    &&& v.enter_hdls == if v.changed {
        seq![STATE_ADD_HDL]
    } else {
        Seq::<usize>::empty()
    }
}

/// The machine after the messages `msgs` have been dispatched in order to
/// its current state.
pub open spec fn run(v: HsmView, msgs: Seq<Protocol1>) -> HsmView
    decreases msgs.len(),
{
    if msgs.len() == 0 {
        v
    } else {
        let u = run(v, msgs.drop_last());
        step(u, msgs.last(), u.current).0
    }
}

/// The sum of the operands of the `Add` messages in `msgs`.
pub open spec fn add_total(msgs: Seq<Protocol1>) -> int
    decreases msgs.len(),
{
    if msgs.len() == 0 {
        0
    } else {
        add_total(msgs.drop_last()) + match msgs.last() {
            Protocol1::Add { f1, .. } => f1 as int,
            Protocol1::Get { .. } => 0,
        }
    }
}

/// Whether `data1` stays an `i32` after every prefix of `msgs` is added to it.
pub open spec fn totals_fit(data1: int, msgs: Seq<Protocol1>) -> bool {
    forall|k: int| 0 <= k <= msgs.len() ==> fits_i32(data1 + #[trigger] add_total(msgs.take(k)))
}

/// The rows of the standard table, how deeply each of its states is nested,
/// and that its chains of parents end.
pub proof fn lemma_standard_table(fns: Seq<StateFnsView>)
    requires
        standard_shape(fns),
    ensures
        forall|i: int|
            0 <= i < MAX_STATE_FNS ==> #[trigger] fns[i] == (StateFnsView {
                active: fns[i].active,
                ..table_row(i)
            }),
        fns[0].parent == None::<usize>,
        fns[1].parent == Some(STATE_BASE_HDL),
        fns[2].parent == Some(STATE_INTERMEDIATE_HDL),
        fns[0].process == StateFn::StateBase,
        fns[1].process == StateFn::StateIntermediate,
        fns[2].process == StateFn::StateProcessAdd,
        depth(fns, STATE_BASE_HDL) == 0,
        depth(fns, STATE_INTERMEDIATE_HDL) == 1,
        depth(fns, STATE_ADD_HDL) == 2,
        chains_end(fns),
{
    assert(fns[0] == StateFnsView { active: fns[0].active, ..table_row(0) });
    assert(fns[1] == StateFnsView { active: fns[1].active, ..table_row(1) });
    assert(fns[2] == StateFnsView { active: fns[2].active, ..table_row(2) });
    assert(hops(fns, 0, 1) == 0);
    assert(hops(fns, 0, 2) == 0);
    assert(hops(fns, 0, 3) == 0);
    assert(hops(fns, 1, 2) == 1);
    assert(hops(fns, 1, 3) == 1);
    assert(hops(fns, 2, 3) == 2);
    assert(chain_ends_within(fns, 0, 1));
    assert(chain_ends_within(fns, 0, 2));
    assert(chain_ends_within(fns, 0, 3));
    assert(chain_ends_within(fns, 1, 2));
    assert(chain_ends_within(fns, 1, 3));
    assert(chain_ends_within(fns, 2, 3));
}

/// With the standard table, an `Add` given to the `Add` state is handled
/// there, and every other message given to any state ends at the base state.
pub proof fn lemma_standard_handler(fns: Seq<StateFnsView>, hdl: usize, msg: Protocol1)
    requires
        standard_shape(fns),
        hdl < MAX_STATE_FNS,
    ensures
        handler_of(fns, hdl, msg) == if hdl == STATE_ADD_HDL && msg is Add {
            STATE_ADD_HDL
        } else {
            STATE_BASE_HDL
        },
{
    lemma_standard_table(fns);
    reveal_with_fuel(handler_of, 3);
}

/// Entering states that are all active already changes nothing.
proof fn lemma_activate_all_active(fns: Seq<StateFnsView>, hdls: Seq<usize>)
    requires
        forall|i: int| 0 <= i < fns.len() ==> #[trigger] fns[i].active,
    ensures
        activate(fns, hdls) == fns,
{
    let a = activate(fns, hdls);
    assert forall|i: int| 0 <= i < fns.len() implies #[trigger] a[i] == fns[i] by {
        assert(a[i].active == fns[i].active);
    }
    assert(a =~= fns);
}

/// Law: a `Get` whose sender waits for a response is answered with the
/// current value of `data1`, whichever state of the standard table it is
/// given to, and it changes neither `data1` nor the current state.
pub proof fn law_get_answers_data1(v: HsmView, hdl: usize, hdr: Header, data1: i32)
    requires
        standard_shape(v.fns),
        hdl < MAX_STATE_FNS,
    ensures
        ({
            let msg = Protocol1::Get { hdr, data1 };
            let (w, reply) = step(v, msg, hdl);
            &&& reply == response(msg, v.data1)
            &&& w.data1 == v.data1
            &&& w.current == v.current
        }),
{
    let msg = Protocol1::Get { hdr, data1 };
    lemma_standard_handler(v.fns, hdl, msg);
    lemma_standard_table(v.fns);
}

/// Law: an `Add` given to the `Add` state of the standard table adds its
/// operand to `data1`, keeps the `Add` state current and sends no response.
pub proof fn law_add_accumulates(v: HsmView, hdr: Header, f1: i32)
    requires
        standard_shape(v.fns),
        fits_i32(v.data1 + f1),
    ensures
        ({
            let msg = Protocol1::Add { hdr, f1 };
            let (w, reply) = step(v, msg, STATE_ADD_HDL);
            &&& w.data1 == v.data1 + f1
            &&& w.current == STATE_ADD_HDL
            &&& reply == None::<Protocol1>
        }),
{
    let msg = Protocol1::Add { hdr, f1 };
    lemma_standard_handler(v.fns, STATE_ADD_HDL, msg);
    lemma_standard_table(v.fns);
}

/// Law: once settled, a machine stays settled: whatever it is given, the
/// table keeps its shape, every state stays entered, the `Add` state stays
/// current and nothing is left to exit.
pub proof fn law_step_keeps_settled(v: HsmView, msg: Protocol1)
    requires
        settled(v),
        fits_step(v, msg, v.current),
    ensures
        settled(step(v, msg, v.current).0),
{
    lemma_activate_all_active(v.fns, v.enter_hdls);
    let v1 = enter_pending(v);
    assert(v1.fns == v.fns);
    lemma_standard_handler(v.fns, STATE_ADD_HDL, msg);
    lemma_standard_table(v.fns);
    assert(v.fns[1].active);
    if msg is Add {
        assert(enter_path(v.fns, STATE_ADD_HDL) == seq![STATE_ADD_HDL]);
        assert(Seq::<usize>::empty() + seq![STATE_ADD_HDL] =~= seq![STATE_ADD_HDL]);
    }
}

/// Law: a new machine settles with its first message.
pub proof fn law_first_step_settles(msg: Protocol1)
    requires
        fits_step(initial_view(), msg, STATE_ADD_HDL),
    ensures
        settled(step(initial_view(), msg, STATE_ADD_HDL).0),
{
    let v = initial_view();
    assert(standard_shape(v.fns));
    let v1 = enter_pending(v);
    let all = seq![STATE_ADD_HDL, STATE_INTERMEDIATE_HDL, STATE_BASE_HDL];
    assert(holds_hdl(all, 0) && holds_hdl(all, 1) && holds_hdl(all, 2)) by {
        assert(all[2] == 0 && all[1] == 1 && all[0] == 2);
    }
    assert(v1.fns[0].active && v1.fns[1].active && v1.fns[2].active);
    assert(standard_shape(v1.fns)) by {
        assert forall|i: int| 0 <= i < MAX_STATE_FNS implies #[trigger] v1.fns[i] == StateFnsView {
            active: v1.fns[i].active,
            ..table_row(i)
        } by {}
    }
    lemma_standard_handler(v.fns, STATE_ADD_HDL, msg);
    if msg is Add {
        assert(enter_path(v1.fns, STATE_ADD_HDL) == seq![STATE_ADD_HDL]);
        assert(Seq::<usize>::empty() + seq![STATE_ADD_HDL] =~= seq![STATE_ADD_HDL]);
    }
}

/// Law: after a sequence of messages a new machine holds in `data1` the sum
/// of the operands of the `Add` messages, and once it has had a message it is
/// settled.
pub proof fn law_run_sums_adds(msgs: Seq<Protocol1>)
    requires
        totals_fit(0, msgs),
    ensures
        run(initial_view(), msgs).data1 == add_total(msgs),
        msgs.len() > 0 ==> settled(run(initial_view(), msgs)),
    decreases msgs.len(),
{
    if msgs.len() > 0 {
        let prev = msgs.drop_last();
        assert(totals_fit(0, prev)) by {
            assert forall|k: int| 0 <= k <= prev.len() implies fits_i32(
                0 + #[trigger] add_total(prev.take(k)),
            ) by {
                assert(prev.take(k) =~= msgs.take(k));
                assert(fits_i32(0 + add_total(msgs.take(k))));
            }
        }
        law_run_sums_adds(prev);
        let u = run(initial_view(), prev);
        let msg = msgs.last();
        assert(msgs.take(msgs.len() as int) =~= msgs);
        assert(fits_i32(0 + add_total(msgs.take(msgs.len() as int))));
        if prev.len() == 0 {
            assert(u == initial_view());
            assert(add_total(prev) == 0);
            lemma_standard_handler(u.fns, STATE_ADD_HDL, msg);
            lemma_standard_table(u.fns);
            law_first_step_settles(msg);
        } else {
            lemma_standard_handler(u.fns, STATE_ADD_HDL, msg);
            lemma_standard_table(u.fns);
            law_step_keeps_settled(u, msg);
        }
    }
}

/// Law: a `Get` that waits for a response, sent to a new machine after the
/// messages `msgs`, is answered with the sum of the operands of their `Add`
/// messages.
pub proof fn law_get_reports_add_total(msgs: Seq<Protocol1>, hdr: Header, data1: i32)
    requires
        totals_fit(0, msgs),
        hdr.tx_response,
    ensures
        ({
            let v = run(initial_view(), msgs);
            step(v, Protocol1::Get { hdr, data1 }, v.current).1 == Some(
                Protocol1::Get { hdr: Header { tx_response: false }, data1: add_total(msgs) as i32 },
            )
        }),
{
    law_run_sums_adds(msgs);
    let v = run(initial_view(), msgs);
    if msgs.len() == 0 {
        assert(v == initial_view());
        assert(standard_shape(v.fns));
    }
    law_get_answers_data1(v, v.current, hdr, data1);
}

impl StateMachine {
    /// The parent chains of the table end.
    pub open spec fn wf(&self) -> bool {
        chains_end(self@.fns)
    }

    /// The name of the current state.
    pub fn state_name(&self) -> (name: &str)
        requires
            self.current_state_fns_hdl < MAX_STATE_FNS,
        ensures
            name@ == self.state_fns@[self.current_state_fns_hdl as int].name@,
    {
        self.state_fns[self.current_state_fns_hdl].name.as_str()
    }

    /// Queues the current state and all its ancestors to be entered; at start
    /// there is nothing to exit.
    fn initial_enter_fns_hdls(&mut self)
        requires
            old(self).wf(),
            old(self).current_state_fns_hdl < MAX_STATE_FNS,
        ensures
            final(self).wf(),
            final(self).state_fns == old(self).state_fns,
            final(self).exit_fns_hdls@ == old(self).exit_fns_hdls@,
            final(self).current_state_fns_hdl == old(self).current_state_fns_hdl,
            final(self).previous_state_fns_hdl == old(self).previous_state_fns_hdl,
            final(self).current_state_changed == old(self).current_state_changed,
            final(self).data1 == old(self).data1,
            final(self).enter_fns_hdls@ == old(self).enter_fns_hdls@ + ancestors(
                old(self)@.fns,
                old(self).current_state_fns_hdl,
            ),
    {
        let ghost fns = self@.fns;
        let ghost start = self.enter_fns_hdls@;
        let mut enter_hdl = self.current_state_fns_hdl;
        loop
            invariant_except_break
                self.wf(),
                self@.fns == fns,
                enter_hdl < MAX_STATE_FNS,
                self.enter_fns_hdls@ + ancestors(fns, enter_hdl) == start + ancestors(
                    fns,
                    old(self).current_state_fns_hdl,
                ),
                self.state_fns == old(self).state_fns,
                self.exit_fns_hdls@ == old(self).exit_fns_hdls@,
                self.current_state_fns_hdl == old(self).current_state_fns_hdl,
                self.previous_state_fns_hdl == old(self).previous_state_fns_hdl,
                self.current_state_changed == old(self).current_state_changed,
                self.data1 == old(self).data1,
            ensures
                self.wf(),
                self.enter_fns_hdls@ == start + ancestors(fns, old(self).current_state_fns_hdl),
                self.state_fns == old(self).state_fns,
                self.exit_fns_hdls@ == old(self).exit_fns_hdls@,
                self.current_state_fns_hdl == old(self).current_state_fns_hdl,
                self.previous_state_fns_hdl == old(self).previous_state_fns_hdl,
                self.current_state_changed == old(self).current_state_changed,
                self.data1 == old(self).data1,
            decreases depth(fns, enter_hdl),
        {
            proof {
                lemma_parent_closer(fns, enter_hdl);
            }
            let ghost before = self.enter_fns_hdls@;
            self.enter_fns_hdls.push(enter_hdl);
            match self.state_fns[enter_hdl].parent {
                Some(hdl) => {
                    assert(fns[enter_hdl as int].parent == Some(hdl));
                    assert(before + ancestors(fns, enter_hdl) == self.enter_fns_hdls@ + ancestors(fns, hdl));
                    enter_hdl = hdl;
                },
                None => {
                    assert(before + ancestors(fns, enter_hdl) == self.enter_fns_hdls@);
                    break;
                },
            }
        }
    }

    /// Queues the states to exit, starting at the current state: all of
    /// them up to the outermost when `exit_sentinel` is `None`, else up to but
    /// excluding the sentinel (or just the current state when it is the
    /// sentinel, a transition to itself).
    fn setup_exit_fns_hdls(&mut self, exit_sentinel: Option<usize>)
        requires
            old(self).wf(),
            old(self).current_state_fns_hdl < MAX_STATE_FNS,
        ensures
            final(self).wf(),
            final(self).state_fns == old(self).state_fns,
            final(self).enter_fns_hdls@ == old(self).enter_fns_hdls@,
            final(self).current_state_fns_hdl == old(self).current_state_fns_hdl,
            final(self).previous_state_fns_hdl == old(self).previous_state_fns_hdl,
            final(self).current_state_changed == old(self).current_state_changed,
            final(self).data1 == old(self).data1,
            final(self).exit_fns_hdls@ == old(self).exit_fns_hdls@ + exit_path(
                old(self)@.fns,
                old(self).current_state_fns_hdl,
                exit_sentinel,
            ),
    {
        let ghost fns = self@.fns;
        let ghost start = self.exit_fns_hdls@;
        let ghost goal = start + exit_path(fns, old(self).current_state_fns_hdl, exit_sentinel);
        let mut exit_hdl = self.current_state_fns_hdl;
        loop
            invariant_except_break
                self.wf(),
                self@.fns == fns,
                exit_hdl < MAX_STATE_FNS,
                self.exit_fns_hdls@ + exit_path(fns, exit_hdl, exit_sentinel) == goal,
                self.state_fns == old(self).state_fns,
                self.enter_fns_hdls@ == old(self).enter_fns_hdls@,
                self.current_state_fns_hdl == old(self).current_state_fns_hdl,
                self.previous_state_fns_hdl == old(self).previous_state_fns_hdl,
                self.current_state_changed == old(self).current_state_changed,
                self.data1 == old(self).data1,
            ensures
                self.wf(),
                self.exit_fns_hdls@ == goal,
                self.state_fns == old(self).state_fns,
                self.enter_fns_hdls@ == old(self).enter_fns_hdls@,
                self.current_state_fns_hdl == old(self).current_state_fns_hdl,
                self.previous_state_fns_hdl == old(self).previous_state_fns_hdl,
                self.current_state_changed == old(self).current_state_changed,
                self.data1 == old(self).data1,
            decreases depth(fns, exit_hdl),
        {
            proof {
                lemma_parent_closer(fns, exit_hdl);
            }
            let ghost before = self.exit_fns_hdls@;
            self.exit_fns_hdls.push_back(exit_hdl);
            let at_sentinel = match exit_sentinel {
                Some(s) => s == exit_hdl,
                None => false,
            };
            if at_sentinel {
                // A transition to the state itself exits just that state.
                assert(before + exit_path(fns, exit_hdl, exit_sentinel) == self.exit_fns_hdls@);
                break;
            }
            match self.state_fns[exit_hdl].parent {
                Some(hdl) => {
                    assert(fns[exit_hdl as int].parent == Some(hdl));
                    let parent_is_sentinel = match exit_sentinel {
                        Some(s) => s == hdl,
                        None => false,
                    };
                    if parent_is_sentinel {
                        assert(before + exit_path(fns, exit_hdl, exit_sentinel) == self.exit_fns_hdls@);
                        break;
                    }
                    assert(before + exit_path(fns, exit_hdl, exit_sentinel) == self.exit_fns_hdls@
                        + exit_path(fns, hdl, exit_sentinel));
                    exit_hdl = hdl;
                },
                None => {
                    assert(before + exit_path(fns, exit_hdl, exit_sentinel) == self.exit_fns_hdls@);
                    break;
                },
            }
        }
    }

    /// Prepares a transition to `next_state_hdl`: queues it and its inactive
    /// ancestors to be entered, and the states between the current state and
    /// the nearest active ancestor of `next_state_hdl` to be exited.
    fn setup_exit_enter_fns_hdls(&mut self, next_state_hdl: usize)
        requires
            old(self).wf(),
            old(self).current_state_fns_hdl < MAX_STATE_FNS,
            next_state_hdl < MAX_STATE_FNS,
        ensures
            final(self).wf(),
            final(self).state_fns == old(self).state_fns,
            final(self).current_state_fns_hdl == old(self).current_state_fns_hdl,
            final(self).previous_state_fns_hdl == old(self).previous_state_fns_hdl,
            final(self).current_state_changed == old(self).current_state_changed,
            final(self).data1 == old(self).data1,
            final(self).enter_fns_hdls@ == old(self).enter_fns_hdls@ + enter_path(
                old(self)@.fns,
                next_state_hdl,
            ),
            final(self).exit_fns_hdls@ == old(self).exit_fns_hdls@ + exit_path(
                old(self)@.fns,
                old(self).current_state_fns_hdl,
                enter_sentinel(old(self)@.fns, next_state_hdl),
            ),
    {
        let ghost fns = self@.fns;
        let ghost start = self.enter_fns_hdls@;
        let ghost goal = start + enter_path(fns, next_state_hdl);
        let mut cur_hdl = next_state_hdl;
        let mut exit_sentinel: Option<usize> = None;
        loop
            invariant_except_break
                self.wf(),
                self@.fns == fns,
                cur_hdl < MAX_STATE_FNS,
                self.enter_fns_hdls@ + enter_path(fns, cur_hdl) == goal,
                enter_sentinel(fns, cur_hdl) == enter_sentinel(fns, next_state_hdl),
                exit_sentinel == None::<usize>,
                self.current_state_fns_hdl < MAX_STATE_FNS,
                self.state_fns == old(self).state_fns,
                self.exit_fns_hdls@ == old(self).exit_fns_hdls@,
                self.current_state_fns_hdl == old(self).current_state_fns_hdl,
                self.previous_state_fns_hdl == old(self).previous_state_fns_hdl,
                self.current_state_changed == old(self).current_state_changed,
                self.data1 == old(self).data1,
            ensures
                self.wf(),
                self.enter_fns_hdls@ == goal,
                exit_sentinel == enter_sentinel(fns, next_state_hdl),
                self.state_fns == old(self).state_fns,
                self.exit_fns_hdls@ == old(self).exit_fns_hdls@,
                self.current_state_fns_hdl == old(self).current_state_fns_hdl,
                self.previous_state_fns_hdl == old(self).previous_state_fns_hdl,
                self.current_state_changed == old(self).current_state_changed,
                self.data1 == old(self).data1,
            decreases depth(fns, cur_hdl),
        {
            proof {
                lemma_parent_closer(fns, cur_hdl);
            }
            let ghost before = self.enter_fns_hdls@;
            self.enter_fns_hdls.push(cur_hdl);
            match self.state_fns[cur_hdl].parent {
                Some(hdl) => {
                    assert(fns[cur_hdl as int].parent == Some(hdl));
                    if self.state_fns[hdl].active {
                        assert(before + enter_path(fns, cur_hdl) == self.enter_fns_hdls@);
                        assert(enter_sentinel(fns, cur_hdl) == Some(hdl));
                        exit_sentinel = Some(hdl);
                        break;
                    }
                    assert(before + enter_path(fns, cur_hdl) == self.enter_fns_hdls@ + enter_path(
                        fns,
                        hdl,
                    ));
                    assert(enter_sentinel(fns, cur_hdl) == enter_sentinel(fns, hdl));
                    cur_hdl = hdl;
                },
                None => {
                    assert(before + enter_path(fns, cur_hdl) == self.enter_fns_hdls@);
                    assert(enter_sentinel(fns, cur_hdl) == None::<usize>);
                    break;
                },
            }
        }
        self.setup_exit_fns_hdls(exit_sentinel);
    }

    /// The names of the states, row by row.
    pub open spec fn names(&self) -> Seq<Seq<char>> {
        self.state_fns@.map_values(|f: StateFns| f.name@)
    }

    /// Gives `msg` to the state `hdl`. If the current state has just changed,
    /// the queued states are entered first, outermost first. A message that
    /// the state leaves unhandled goes on to its parent; a `Get` that no state
    /// handles is answered here. A transition queues the states to enter and
    /// then exits the states it leaves, innermost first. Returns the response
    /// owed to the sender, if any.
    pub fn dispatch_msg_hdl(&mut self, msg: &Protocol1, hdl: usize) -> (reply: Option<Protocol1>)
        requires
            can_dispatch_at(old(self)@, *msg, hdl),
        ensures
            final(self).wf(),
            final(self).names() == old(self).names(),
            (final(self)@, reply) == step(old(self)@, *msg, hdl),
            queues_in_range(old(self)@) ==> queues_in_range(final(self)@),
        decreases depth(old(self)@.fns, hdl),
    {
        let ghost v0 = self@;
        let ghost names0 = self.names();
        if self.current_state_changed {
            let ghost fns0 = self@.fns;
            let ghost pending = self.enter_fns_hdls@;
            assert(fns0.len() == MAX_STATE_FNS);
            loop
                invariant_except_break
                    self.wf(),
                    self.names() == names0,
                    fns0.len() == MAX_STATE_FNS,
                    hdls_in_range(pending, MAX_STATE_FNS as nat),
                    can_dispatch_at(v0, *msg, hdl),
                    chains_end(fns0),
                    self.enter_fns_hdls@.len() <= pending.len(),
                    self.enter_fns_hdls@ == pending.subrange(0, self.enter_fns_hdls@.len() as int),
                    self@.fns == activate(
                        fns0,
                        pending.subrange(self.enter_fns_hdls@.len() as int, pending.len() as int),
                    ),
                    self.exit_fns_hdls@ == v0.exit_hdls,
                    self.current_state_fns_hdl == v0.current,
                    self.previous_state_fns_hdl == v0.previous,
                    self.current_state_changed == v0.changed,
                    self.data1 == v0.data1,
                ensures
                    self.wf(),
                    self.names() == names0,
                    self.enter_fns_hdls@ == Seq::<usize>::empty(),
                    self@.fns == activate(fns0, pending),
                    self.exit_fns_hdls@ == v0.exit_hdls,
                    self.current_state_fns_hdl == v0.current,
                    self.previous_state_fns_hdl == v0.previous,
                    self.current_state_changed == v0.changed,
                    self.data1 == v0.data1,
                decreases self.enter_fns_hdls@.len(),
            {
                let ghost k = self.enter_fns_hdls@.len() as int;
                match self.enter_fns_hdls.pop() {
                    Some(enter_hdl) => {
                        proof {
                            assert(pending.subrange(k - 1, pending.len() as int) == seq![enter_hdl]
                                + pending.subrange(k, pending.len() as int));
                            lemma_activate_cons(fns0, pending.subrange(k, pending.len() as int), enter_hdl);
                        }
                        match self.state_fns[enter_hdl].enter {
                            Some(state_enter) => {
                                self.run_enter(state_enter, msg);
                                self.state_fns[enter_hdl].active = true;
                            },
                            None => {},
                        }
                        assert(self@.fns =~= activate(
                            fns0,
                            pending.subrange(k - 1, pending.len() as int),
                        ));
                        proof {
                            lemma_same_parents(fns0, self@.fns);
                        }
                        assert(self.names() =~= names0);
                    },
                    None => {
                        assert(pending.subrange(0, pending.len() as int) == pending);
                        break;
                    },
                }
            }
            self.current_state_changed = false;
        }
        assert(self@ == enter_pending(v0));
        proof {
            lemma_handler_of_same_shape(self@.fns, v0.fns, hdl, *msg);
            if queues_in_range(v0) {
                lemma_step_keeps_queues(v0, *msg, hdl);
            }
        }

        let (result, mut reply) = match self.state_fns[hdl].process {
            StateFn::StateBase => self.state_base(msg),
            StateFn::StateIntermediate => self.state_intermediate(msg),
            StateFn::StateProcessAdd => self.state_process_add(msg),
        };

        match result {
            StateResult::NotHandled => {
                match self.state_fns[hdl].parent {
                    Some(parent_hdl) => {
                        proof {
                            assert(self@.fns[hdl as int].parent == Some(parent_hdl));
                            assert(v0.fns[hdl as int].parent == Some(parent_hdl));
                            lemma_parent_closer(v0.fns, hdl);
                            lemma_same_parents(v0.fns, self@.fns);
                            assert(handler_of(v0.fns, hdl, *msg) == handler_of(v0.fns, parent_hdl, *msg));
                            lemma_handler_of_same_shape(self@.fns, v0.fns, parent_hdl, *msg);
                            lemma_handler_of_in_range(v0.fns, parent_hdl, *msg);
                            assert(step_transitions(self@, *msg, parent_hdl) == step_transitions(
                                v0,
                                *msg,
                                hdl,
                            ));
                            assert(can_dispatch_at(self@, *msg, parent_hdl));
                        }
                        reply = self.dispatch_msg_hdl(msg, parent_hdl);
                    },
                    None => {
                        match *msg {
                            Protocol1::Get { hdr, .. } => {
                                if hdr.tx_response {
                                    reply = Some(
                                        Protocol1::Get {
                                            hdr: Header { tx_response: false },
                                            data1: self.data1,
                                        },
                                    );
                                }
                            },
                            _ => {},
                        }
                    },
                }
            },
            StateResult::Handled => {},
            StateResult::TransitionTo(next_state_hdl) => {
                proof {
                    assert(handler_of(v0.fns, hdl, *msg) == hdl);
                    assert(step_transitions(v0, *msg, hdl));
                    lemma_same_parents(v0.fns, self@.fns);
                    lemma_exit_path_in_range(
                        self@.fns,
                        self.current_state_fns_hdl,
                        enter_sentinel(self@.fns, next_state_hdl),
                    );
                }
                self.setup_exit_enter_fns_hdls(next_state_hdl);
                self.previous_state_fns_hdl = self.current_state_fns_hdl;
                self.current_state_fns_hdl = next_state_hdl;
                self.current_state_changed = true;
            },
        }

        if self.current_state_changed {
            let ghost v2 = self@;
            assert(hdls_in_range(self.exit_fns_hdls@, MAX_STATE_FNS as nat));
            loop
                invariant_except_break
                    self.wf(),
                    self.names() == names0,
                    hdls_in_range(self.exit_fns_hdls@, MAX_STATE_FNS as nat),
                    self@ == (HsmView { exit_hdls: self.exit_fns_hdls@, ..v2 }),
                ensures
                    self.wf(),
                    self.names() == names0,
                    self@ == (HsmView { exit_hdls: Seq::empty(), ..v2 }),
                decreases self.exit_fns_hdls@.len(),
            {
                match self.exit_fns_hdls.pop_front() {
                    Some(exit_hdl) => {
                        match self.state_fns[exit_hdl].exit {
                            Some(state_exit) => self.run_exit(state_exit, msg),
                            None => {},
                        }
                    },
                    None => {
                        assert(self.exit_fns_hdls@ =~= Seq::<usize>::empty());
                        break;
                    },
                }
            }
        }
        reply
    }

    /// Gives `msg` to the current state; see `dispatch_msg_hdl` and
    /// `law_dispatch_msg_is_dispatch_at_current`.
    pub fn dispatch_msg(&mut self, msg: &Protocol1) -> (reply: Option<Protocol1>)
        requires
            can_dispatch(old(self)@, *msg),
        ensures
            final(self).wf(),
            final(self).names() == old(self).names(),
            (final(self)@, reply) == dispatch_effect(old(self)@, *msg),
            queues_in_range(old(self)@) ==> queues_in_range(final(self)@),
    {
        let hdl = self.current_state_fns_hdl;
        self.dispatch_msg_hdl(msg, hdl)
    }

    /// Calls the enter function that a table row names.
    fn run_enter(&mut self, state_enter: EnterFn, msg: &Protocol1)
        ensures
            *final(self) == *old(self),
    {
        match state_enter {
            EnterFn::StateEnterBase => self.state_enter_base(msg),
            EnterFn::StateEnterIntermediate => self.state_enter_intermediate(msg),
            EnterFn::StateEnterAdd => self.state_enter_add(msg),
        }
    }

    /// Calls the exit function that a table row names.
    fn run_exit(&mut self, state_exit: ExitFn, msg: &Protocol1)
        ensures
            *final(self) == *old(self),
    {
        match state_exit {
            ExitFn::StateExitBase => self.state_exit_base(msg),
            ExitFn::StateExitIntermediate => self.state_exit_intermediate(msg),
            ExitFn::StateExitAdd => self.state_exit_add(msg),
        }
    }

    /// Entering the base state changes nothing.
    pub fn state_enter_base(&mut self, msg: &Protocol1)
        ensures
            *final(self) == *old(self),
    {
    }

    /// The base state answers a `Get` whose sender waits for a response and
    /// handles every message.
    pub fn state_base(&mut self, msg: &Protocol1) -> (res: (StateResult, Option<Protocol1>))
        ensures
            *final(self) == *old(self),
            res.0 == process_result(StateFn::StateBase, *msg),
            res.1 == process_reply(StateFn::StateBase, *msg, old(self).data1),
    {
        let mut reply: Option<Protocol1> = None;
        match *msg {
            Protocol1::Get { hdr, .. } => {
                if hdr.tx_response {
                    reply = Some(Protocol1::Get { hdr: Header { tx_response: false }, data1: self.data1 });
                }
            },
            _ => {},
        }
        (StateResult::Handled, reply)
    }

    /// Leaving the base state changes nothing.
    pub fn state_exit_base(&mut self, msg: &Protocol1)
        ensures
            *final(self) == *old(self),
    {
    }

    /// Entering the intermediate state changes nothing.
    pub fn state_enter_intermediate(&mut self, msg: &Protocol1)
        ensures
            *final(self) == *old(self),
    {
    }

    /// The intermediate state leaves every message to its parent.
    pub fn state_intermediate(&mut self, msg: &Protocol1) -> (res: (StateResult, Option<Protocol1>))
        ensures
            *final(self) == *old(self),
            res.0 == process_result(StateFn::StateIntermediate, *msg),
            res.1 == process_reply(StateFn::StateIntermediate, *msg, old(self).data1),
    {
        (StateResult::NotHandled, None)
    }

    /// Leaving the intermediate state changes nothing.
    pub fn state_exit_intermediate(&mut self, msg: &Protocol1)
        ensures
            *final(self) == *old(self),
    {
    }

    /// Entering the `Add` state changes nothing.
    pub fn state_enter_add(&mut self, msg: &Protocol1)
        ensures
            *final(self) == *old(self),
    {
    }

    /// The `Add` state adds the operand of an `Add` to `data1` and transitions
    /// to itself; it leaves every other message to its parent.
    pub fn state_process_add(&mut self, msg: &Protocol1) -> (res: (StateResult, Option<Protocol1>))
        requires
            fits_i32(process_data1(StateFn::StateProcessAdd, old(self).data1 as int, *msg)),
        ensures
            final(self).state_fns == old(self).state_fns,
            final(self).enter_fns_hdls == old(self).enter_fns_hdls,
            final(self).exit_fns_hdls == old(self).exit_fns_hdls,
            final(self).current_state_fns_hdl == old(self).current_state_fns_hdl,
            final(self).previous_state_fns_hdl == old(self).previous_state_fns_hdl,
            final(self).current_state_changed == old(self).current_state_changed,
            final(self).data1 == process_data1(StateFn::StateProcessAdd, old(self).data1 as int, *msg),
            *msg is Add ==> final(self).data1 == old(self).data1 + msg->Add_f1,
            *msg is Get ==> final(self).data1 == old(self).data1,
            res.0 == process_result(StateFn::StateProcessAdd, *msg),
            res.1 == process_reply(StateFn::StateProcessAdd, *msg, old(self).data1),
    {
        match *msg {
            Protocol1::Add { f1, .. } => {
                self.data1 = self.data1 + f1;
                (StateResult::TransitionTo(STATE_ADD_HDL), None)
            },
            _ => (StateResult::NotHandled, None),
        }
    }

    /// Leaving the `Add` state changes nothing.
    pub fn state_exit_add(&mut self, msg: &Protocol1)
        ensures
            *final(self) == *old(self),
    {
    }

    /// A machine with the three-state table, in the `Add` state and about to
    /// enter it and its ancestors, with `data1` zero.
    pub fn new() -> (sm: Self)
        ensures
            sm.wf(),
            queues_in_range(sm@),
            sm@ == initial_view(),
            sm.names() == seq!["state_base"@, "state_intermediate"@, "state_process_add"@],
    {
        let initial_state_fns_hdl: usize = STATE_ADD_HDL;
        let mut sm = StateMachine {
            state_fns: [
                StateFns {
                    name: "state_base".to_owned(),
                    parent: None,
                    enter: Some(EnterFn::StateEnterBase),
                    process: StateFn::StateBase,
                    exit: Some(ExitFn::StateExitBase),
                    active: false,
                },
                StateFns {
                    name: "state_intermediate".to_owned(),
                    parent: Some(STATE_BASE_HDL),
                    enter: Some(EnterFn::StateEnterIntermediate),
                    process: StateFn::StateIntermediate,
                    exit: Some(ExitFn::StateExitIntermediate),
                    active: false,
                },
                StateFns {
                    name: "state_process_add".to_owned(),
                    parent: Some(STATE_INTERMEDIATE_HDL),
                    enter: Some(EnterFn::StateEnterAdd),
                    process: StateFn::StateProcessAdd,
                    exit: Some(ExitFn::StateExitAdd),
                    active: false,
                },
            ],
            enter_fns_hdls: Vec::with_capacity(MAX_STATE_FNS),
            exit_fns_hdls: VecDeque::with_capacity(MAX_STATE_FNS),
            current_state_fns_hdl: initial_state_fns_hdl,
            previous_state_fns_hdl: initial_state_fns_hdl,
            current_state_changed: true,
            data1: 0,
        };
        assert(sm@.fns =~= seq![table_row(0), table_row(1), table_row(2)]);
        assert(sm.names() =~= seq!["state_base"@, "state_intermediate"@, "state_process_add"@]);
        proof {
            lemma_standard_table(sm@.fns);
        }
        sm.initial_enter_fns_hdls();
        proof {
            reveal_with_fuel(ancestors, 3);
        }
        assert(sm.enter_fns_hdls@ =~= seq![STATE_ADD_HDL, STATE_INTERMEDIATE_HDL, STATE_BASE_HDL]);
        sm
    }
}

impl Default for StateMachine {
    /// The same machine as `StateMachine::new`.
    fn default() -> (sm: Self)
        ensures
            sm.wf(),
            queues_in_range(sm@),
            sm@ == initial_view(),
            sm.names() == seq!["state_base"@, "state_intermediate"@, "state_process_add"@],
    {
        Self::new()
    }
}

} // verus!
