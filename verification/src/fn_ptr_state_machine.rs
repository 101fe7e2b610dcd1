use vstd::prelude::*;

verus! {

/// What a message carries besides its payload: whether the sender attached a
/// channel on which it waits for a response.
#[derive(Debug, Clone, Copy, PartialEq, Eq, Structural)]
pub struct Header {
    pub tx_response: bool,
}

/// The messages that the state machine understands.
#[derive(Debug, Clone, Copy, PartialEq, Eq, Structural)]
pub enum Protocol1 {
    Add { hdr: Header, f1: i32 },
    Mul { hdr: Header, f1: i32 },
    Get { hdr: Header, data1: i32 },
}

/// What a state's process function reports back to the dispatcher.
#[derive(Debug, Clone, Copy, PartialEq, Eq, Structural)]
pub enum StateResult {
    NotHandled,
    Handled,
    TransitionTo(usize),
}

/// The process functions that a row of the state table can name.
#[derive(Debug, Clone, Copy, PartialEq, Eq, Structural)]
pub enum StateFn {
    StateProcessAddOrMul,
    StateProcessAny,
}

/// The enter functions that a row of the state table can name.
#[derive(Debug, Clone, Copy, PartialEq, Eq, Structural)]
pub enum EnterFn {
    StateEnterAddOrMul,
    StateEnterAny,
}

/// The exit functions that a row of the state table can name.
#[derive(Debug, Clone, Copy, PartialEq, Eq, Structural)]
pub enum ExitFn {
    StateExitAddOrMul,
    StateExitAny,
}

/// One row of the state table.
#[derive(Debug, Clone, Copy, PartialEq, Eq, Structural)]
pub struct StateFns {
    pub parent: Option<usize>,
    pub enter: Option<EnterFn>,
    pub process: StateFn,
    pub exit: Option<ExitFn>,
}

/// The index of the state that takes `Add` and `Mul`.
pub const STATE_ADD_OR_MUL_IDX: usize = 0;

/// The index of the state that takes every message.
pub const STATE_ANY_IDX: usize = 1;

/// A state machine whose states are the rows of `state_fns`.
pub struct StateMachine {
    pub state_fns: [StateFns; 2],
    pub current_state_fns_idx: usize,
    pub previous_state_fns_idx: usize,
    pub current_state_changed: bool,
    pub data1: i32,
}

/// The row of the state table at `idx`.
pub open spec fn table_row(idx: int) -> StateFns {
    if idx == STATE_ADD_OR_MUL_IDX {
        StateFns {
            parent: None,
            enter: Some(EnterFn::StateEnterAddOrMul),
            process: StateFn::StateProcessAddOrMul,
            exit: Some(ExitFn::StateExitAddOrMul),
        }
    } else {
        StateFns {
            parent: None,
            enter: Some(EnterFn::StateEnterAny),
            process: StateFn::StateProcessAny,
            exit: Some(ExitFn::StateExitAny),
        }
    }
}

/// The value that `msg` makes of `data1`, in unbounded integers.
pub open spec fn apply(data1: int, msg: Protocol1) -> int {
    match msg {
        Protocol1::Add { f1, .. } => data1 + f1,
        Protocol1::Mul { f1, .. } => data1 * f1,
        Protocol1::Get { .. } => data1,
    }
}

/// Whether `x` is a value of `i32`.
pub open spec fn fits_i32(x: int) -> bool {
    i32::MIN <= x <= i32::MAX
}

/// What the process function `f` reports for `msg`: the `Add`/`Mul` state
/// leaves a `Get` unhandled and moves on every other message to the state that
/// takes every message, which moves back on every message.
pub open spec fn process_result(f: StateFn, msg: Protocol1) -> StateResult {
    match f {
        StateFn::StateProcessAddOrMul => if msg is Get {
            StateResult::NotHandled
        } else {
            StateResult::TransitionTo(STATE_ANY_IDX)
        },
        StateFn::StateProcessAny => StateResult::TransitionTo(STATE_ADD_OR_MUL_IDX),
    }
}

/// Whether a state whose process function is `f` moves to another state on `msg`.
pub open spec fn transitions(f: StateFn, msg: Protocol1) -> bool {
    process_result(f, msg) is TransitionTo
}

/// The state that follows the state at `idx`, whose process function is `f`,
/// on `msg`.
pub open spec fn next_idx(f: StateFn, idx: usize, msg: Protocol1) -> usize {
    match process_result(f, msg) {
        StateResult::TransitionTo(next) => next,
        _ => idx,
    }
}

/// The table holds the two rows that `new` builds.
pub open spec fn standard_table(fns: Seq<StateFns>) -> bool {
    &&& fns.len() == 2
    &&& fns[0] == table_row(0)
    &&& fns[1] == table_row(1)
}

/// The response owed to `msg` when `data1` is the machine's value: a `Get`
/// whose sender waits for a response is answered with a `Get` holding `data1`.
pub open spec fn response(msg: Protocol1, data1: i32) -> Option<Protocol1> {
    match msg {
        Protocol1::Get { hdr, .. } => if hdr.tx_response {
            Some(Protocol1::Get { hdr: Header { tx_response: false }, data1 })
        } else {
            None
        },
        _ => None,
    }
}

/// The state reached from the state at `idx` of the table `fns` after the
/// messages `msgs`.
pub open spec fn run_idx(fns: Seq<StateFns>, idx: usize, msgs: Seq<Protocol1>) -> usize
    decreases msgs.len(),
{
    if msgs.len() == 0 {
        idx
    } else {
        let i = run_idx(fns, idx, msgs.drop_last());
        next_idx(fns[i as int].process, i, msgs.last())
    }
}

/// The value that the messages `msgs` make of `data1`, one after another.
pub open spec fn run_data1(data1: int, msgs: Seq<Protocol1>) -> int
    decreases msgs.len(),
{
    if msgs.len() == 0 {
        data1
    } else {
        apply(run_data1(data1, msgs.drop_last()), msgs.last())
    }
}

/// The sum of the operands of the `Add` messages in `msgs`.
pub open spec fn add_sum(msgs: Seq<Protocol1>) -> int
    decreases msgs.len(),
{
    if msgs.len() == 0 {
        0
    } else {
        add_sum(msgs.drop_last()) + match msgs.last() {
            Protocol1::Add { f1, .. } => f1 as int,
            _ => 0,
        }
    }
}

/// Law: an `Add` adds its operand and a `Mul` multiplies by it, whatever the
/// signs; a `Mul` by zero clears `data1`, a `Get` leaves it alone.
pub proof fn law_operands_apply(data1: int, hdr: Header, f1: i32, d: i32)
    ensures
        apply(data1, Protocol1::Add { hdr, f1 }) == data1 + f1,
        apply(data1, Protocol1::Mul { hdr, f1 }) == data1 * f1,
        apply(data1, Protocol1::Mul { hdr, f1: 0 }) == 0,
        apply(data1, Protocol1::Get { hdr, data1: d }) == data1,
{
}

/// Law: after `Add` and `Get` messages, `data1` has grown by the sum of the
/// operands of the `Add`s.
pub proof fn law_adds_sum(data1: int, msgs: Seq<Protocol1>)
    requires
        forall|i: int| 0 <= i < msgs.len() ==> !(#[trigger] msgs[i] is Mul),
    ensures
        run_data1(data1, msgs) == data1 + add_sum(msgs),
    decreases msgs.len(),
{
    if msgs.len() > 0 {
        let prev = msgs.drop_last();
        assert forall|i: int| 0 <= i < prev.len() implies !(#[trigger] prev[i] is Mul) by {
            assert(prev[i] == msgs[i]);
        }
        law_adds_sum(data1, prev);
        assert(!(msgs[msgs.len() - 1] is Mul));
    }
}

/// Law: with the table that `new` builds and without `Get` messages, the
/// machine alternates between its two states, starting from the `Add`/`Mul`
/// state: after an odd number of messages it is in the state that takes every
/// message, after an even number back in the `Add`/`Mul` state.
pub proof fn law_alternates(fns: Seq<StateFns>, msgs: Seq<Protocol1>)
    requires
        standard_table(fns),
        forall|i: int| 0 <= i < msgs.len() ==> !(#[trigger] msgs[i] is Get),
    ensures
        run_idx(fns, STATE_ADD_OR_MUL_IDX, msgs) == msgs.len() % 2,
    decreases msgs.len(),
{
    if msgs.len() > 0 {
        let prev = msgs.drop_last();
        assert forall|i: int| 0 <= i < prev.len() implies !(#[trigger] prev[i] is Get) by {
            assert(prev[i] == msgs[i]);
        }
        law_alternates(fns, prev);
        assert(!(msgs[msgs.len() - 1] is Get));
    }
}

/// Law: with the table that `new` builds, a `Get` is answered in both states
/// with the value of `data1`, leaves `data1` alone, and ends in the `Add`/`Mul`
/// state.
pub proof fn law_get_answered_in_every_state(
    fns: Seq<StateFns>,
    idx: usize,
    hdr: Header,
    d: i32,
    data1: i32,
)
    requires
        standard_table(fns),
        idx < 2,
        hdr.tx_response,
    ensures
        response(Protocol1::Get { hdr, data1: d }, data1) == Some(
            Protocol1::Get { hdr: Header { tx_response: false }, data1 },
        ),
        apply(data1 as int, Protocol1::Get { hdr, data1: d }) == data1,
        next_idx(fns[idx as int].process, idx, Protocol1::Get { hdr, data1: d })
            == STATE_ADD_OR_MUL_IDX,
{
}

impl StateMachine {
    /// The current index names a row of the table.
    pub open spec fn wf(&self) -> bool {
        self.current_state_fns_idx < 2
    }

    /// A machine in the `Add`/`Mul` state, about to enter it, with `data1` zero.
    pub fn new() -> (sm: Self)
        ensures
            sm.wf(),
            standard_table(sm.state_fns@),
            sm.current_state_fns_idx == STATE_ADD_OR_MUL_IDX,
            sm.previous_state_fns_idx == STATE_ADD_OR_MUL_IDX,
            sm.current_state_changed,
            sm.data1 == 0,
    {
        let initial_state_fns_idx: usize = STATE_ADD_OR_MUL_IDX;
        let sm = StateMachine {
            state_fns: [
                StateFns {
                    parent: None,
                    enter: Some(EnterFn::StateEnterAddOrMul),
                    process: StateFn::StateProcessAddOrMul,
                    exit: Some(ExitFn::StateExitAddOrMul),
                },
                StateFns {
                    parent: None,
                    enter: Some(EnterFn::StateEnterAny),
                    process: StateFn::StateProcessAny,
                    exit: Some(ExitFn::StateExitAny),
                },
            ],
            current_state_fns_idx: initial_state_fns_idx,
            previous_state_fns_idx: initial_state_fns_idx,
            current_state_changed: true,
            data1: 0,
        };
        sm
    }

    /// Hands `msg` to the current state: runs its enter function first if the
    /// state was just entered, then its process function; a `Get` that no
    /// state handles is answered by the dispatcher itself. On a transition the
    /// previous state's exit function runs. Returns the response owed to the
    /// sender, if any.
    pub fn dispatch_msg(&mut self, msg: &Protocol1) -> (reply: Option<Protocol1>)
        requires
            old(self).wf(),
            fits_i32(apply(old(self).data1 as int, *msg)),
        ensures
            final(self).wf(),
            final(self).state_fns == old(self).state_fns,
            final(self).data1 == apply(old(self).data1 as int, *msg),
            *msg is Add ==> final(self).data1 == old(self).data1 + msg->Add_f1,
            *msg is Mul ==> final(self).data1 == old(self).data1 * msg->Mul_f1,
            *msg is Get ==> final(self).data1 == old(self).data1,
            final(self).current_state_fns_idx == next_idx(
                old(self).state_fns@[old(self).current_state_fns_idx as int].process,
                old(self).current_state_fns_idx,
                *msg,
            ),
            final(self).current_state_changed == transitions(
                old(self).state_fns@[old(self).current_state_fns_idx as int].process,
                *msg,
            ),
            final(self).previous_state_fns_idx == if transitions(
                old(self).state_fns@[old(self).current_state_fns_idx as int].process,
                *msg,
            ) {
                old(self).current_state_fns_idx
            } else {
                old(self).previous_state_fns_idx
            },
            reply == response(*msg, final(self).data1),
    {
        if self.current_state_changed {
            match self.state_fns[self.current_state_fns_idx].enter {
                Some(state_enter) => self.run_enter(state_enter, msg),
                None => {},
            }
            self.current_state_changed = false;
        }

        let (result, mut reply) = match self.state_fns[self.current_state_fns_idx].process {
            StateFn::StateProcessAddOrMul => self.state_process_add_or_mul(msg),
            StateFn::StateProcessAny => self.state_process_any(msg),
        };

        match result {
            StateResult::NotHandled => {
                match *msg {
                    Protocol1::Get { hdr, .. } => {
                        if hdr.tx_response {
                            reply = Some(
                                Protocol1::Get { hdr: Header { tx_response: false }, data1: self.data1 },
                            );
                        }
                    },
                    _ => {},
                }
            },
            StateResult::Handled => {},
            StateResult::TransitionTo(next_state) => {
                self.previous_state_fns_idx = self.current_state_fns_idx;
                self.current_state_fns_idx = next_state;
                self.current_state_changed = true;
            },
        }

        if self.current_state_changed {
            match self.state_fns[self.previous_state_fns_idx].exit {
                Some(state_exit) => self.run_exit(state_exit, msg),
                None => {},
            }
        }
        reply
    }

    /// Calls the enter function that a table row names.
    fn run_enter(&mut self, state_enter: EnterFn, msg: &Protocol1)
        ensures
            *final(self) == *old(self),
    {
        match state_enter {
            EnterFn::StateEnterAddOrMul => self.state_enter_add_or_mul(msg),
            EnterFn::StateEnterAny => self.state_enter_any(msg),
        }
    }

    /// Calls the exit function that a table row names.
    fn run_exit(&mut self, state_exit: ExitFn, msg: &Protocol1)
        ensures
            *final(self) == *old(self),
    {
        match state_exit {
            ExitFn::StateExitAddOrMul => self.state_exit_add_or_mul(msg),
            ExitFn::StateExitAny => self.state_exit_any(msg),
        }
    }

    /// Entering the `Add`/`Mul` state changes nothing.
    pub fn state_enter_add_or_mul(&mut self, msg: &Protocol1)
        ensures
            *final(self) == *old(self),
    {
    }

    /// The `Add`/`Mul` state applies `Add` and `Mul` to `data1` and moves to
    /// the state that takes every message; it leaves `Get` unhandled. It never
    /// responds itself.
    pub fn state_process_add_or_mul(&mut self, msg: &Protocol1) -> (res: (StateResult, Option<Protocol1>))
        requires
            fits_i32(apply(old(self).data1 as int, *msg)),
        ensures
            final(self).state_fns == old(self).state_fns,
            final(self).current_state_fns_idx == old(self).current_state_fns_idx,
            final(self).previous_state_fns_idx == old(self).previous_state_fns_idx,
            final(self).current_state_changed == old(self).current_state_changed,
            final(self).data1 == apply(old(self).data1 as int, *msg),
            *msg is Add ==> final(self).data1 == old(self).data1 + msg->Add_f1,
            *msg is Mul ==> final(self).data1 == old(self).data1 * msg->Mul_f1,
            *msg is Get ==> final(self).data1 == old(self).data1,
            res.0 == process_result(StateFn::StateProcessAddOrMul, *msg),
            res.1 == None::<Protocol1>,
    {
        match *msg {
            Protocol1::Add { f1, .. } => {
                self.data1 = self.data1 + f1;
                (StateResult::TransitionTo(STATE_ANY_IDX), None)
            },
            Protocol1::Mul { f1, .. } => {
                self.data1 = self.data1 * f1;
                (StateResult::TransitionTo(STATE_ANY_IDX), None)
            },
            _ => (StateResult::NotHandled, None),
        }
    }

    /// Leaving the `Add`/`Mul` state changes nothing.
    pub fn state_exit_add_or_mul(&mut self, msg: &Protocol1)
        ensures
            *final(self) == *old(self),
    {
    }

    /// Entering the state that takes every message changes nothing.
    pub fn state_enter_any(&mut self, msg: &Protocol1)
        ensures
            *final(self) == *old(self),
    {
    }

    /// The state that takes every message applies `Add` and `Mul` to `data1`,
    /// answers a `Get` whose sender waits for a response, and in every case
    /// moves back to the `Add`/`Mul` state.
    pub fn state_process_any(&mut self, msg: &Protocol1) -> (res: (StateResult, Option<Protocol1>))
        requires
            fits_i32(apply(old(self).data1 as int, *msg)),
        ensures
            final(self).state_fns == old(self).state_fns,
            final(self).current_state_fns_idx == old(self).current_state_fns_idx,
            final(self).previous_state_fns_idx == old(self).previous_state_fns_idx,
            final(self).current_state_changed == old(self).current_state_changed,
            final(self).data1 == apply(old(self).data1 as int, *msg),
            *msg is Add ==> final(self).data1 == old(self).data1 + msg->Add_f1,
            *msg is Mul ==> final(self).data1 == old(self).data1 * msg->Mul_f1,
            *msg is Get ==> final(self).data1 == old(self).data1,
            res.0 == process_result(StateFn::StateProcessAny, *msg),
            res.1 == response(*msg, old(self).data1),
    {
        let mut reply: Option<Protocol1> = None;
        match *msg {
            Protocol1::Add { f1, .. } => {
                self.data1 = self.data1 + f1;
            },
            Protocol1::Mul { f1, .. } => {
                self.data1 = self.data1 * f1;
            },
            Protocol1::Get { hdr, .. } => {
                if hdr.tx_response {
                    reply = Some(Protocol1::Get { hdr: Header { tx_response: false }, data1: self.data1 });
                }
            },
        }
        (StateResult::TransitionTo(STATE_ADD_OR_MUL_IDX), reply)
    }

    /// Leaving the state that takes every message changes nothing.
    pub fn state_exit_any(&mut self, msg: &Protocol1)
        ensures
            *final(self) == *old(self),
    {
    }
}

impl Default for StateMachine {
    /// The same machine as `StateMachine::new`.
    fn default() -> (sm: Self)
        ensures
            sm.wf(),
            standard_table(sm.state_fns@),
            sm.current_state_fns_idx == STATE_ADD_OR_MUL_IDX,
            sm.previous_state_fns_idx == STATE_ADD_OR_MUL_IDX,
            sm.current_state_changed,
            sm.data1 == 0,
    {
        Self::new()
    }
}

} // verus!
