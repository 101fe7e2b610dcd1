use vstd::prelude::*;

verus! {

/// The messages that the state machine understands.
#[derive(Debug, Clone, Copy, PartialEq, Eq, Structural)]
pub enum Protocol1 {
    Add { f1: i32 },
    Sub { f1: i32 },
    Mul { f1: i32 },
}

/// The states: each of the first three accepts only its own message,
/// `StateAny` accepts all three.
#[derive(Debug, Clone, Copy, PartialEq, Eq, Structural)]
pub enum States {
    StateAdd,
    StateSub,
    StateMul,
    StateAny,
}

/// A state machine that keeps its state in `current_state` and its
/// accumulated value in `data1`.
pub struct StateMachine {
    pub current_state: States,
    pub data1: i32,
}

/// Whether `state` accepts `msg`: the handlers of the first three states take
/// only their own message, so their contracts require it.
pub open spec fn accepts(state: States, msg: Protocol1) -> bool {
    match state {
        States::StateAdd => msg is Add,
        States::StateSub => msg is Sub,
        States::StateMul => msg is Mul,
        States::StateAny => true,
    }
}

/// The value that `msg` makes of `data1`, in unbounded integers.
pub open spec fn apply(data1: int, msg: Protocol1) -> int {
    match msg {
        Protocol1::Add { f1 } => data1 + f1,
        Protocol1::Sub { f1 } => data1 - f1,
        Protocol1::Mul { f1 } => data1 * f1,
    }
}

/// Whether `x` is a value of `i32`.
pub open spec fn fits_i32(x: int) -> bool {
    i32::MIN <= x <= i32::MAX
}

/// The value that the handler of `state` makes of `data1` on a message that
/// the state accepts, in unbounded integers.
pub open spec fn handler_data1(state: States, data1: int, msg: Protocol1) -> int {
    match state {
        States::StateAdd => match msg {
            Protocol1::Add { f1 } => data1 + f1,
            _ => data1,
        },
        States::StateSub => match msg {
            Protocol1::Sub { f1 } => data1 - f1,
            _ => data1,
        },
        States::StateMul => match msg {
            Protocol1::Mul { f1 } => data1 * f1,
            _ => data1,
        },
        States::StateAny => apply(data1, msg),
    }
}

/// Law: an `Add` adds its operand to `data1`, in every state that accepts it,
/// whatever the signs.
pub proof fn law_add_adds(state: States, data1: int, f1: i32)
    requires
        accepts(state, Protocol1::Add { f1 }),
    ensures
        apply(data1, Protocol1::Add { f1 }) == data1 + f1,
        handler_data1(state, data1, Protocol1::Add { f1 }) == data1 + f1,
        apply(apply(data1, Protocol1::Add { f1 }), Protocol1::Sub { f1 }) == data1,
{
}

/// Law: a `Sub` subtracts its operand from `data1`, in every state that
/// accepts it, whatever the signs; it undoes an `Add` of the same operand.
pub proof fn law_sub_subtracts(state: States, data1: int, f1: i32)
    requires
        accepts(state, Protocol1::Sub { f1 }),
    ensures
        apply(data1, Protocol1::Sub { f1 }) == data1 - f1,
        handler_data1(state, data1, Protocol1::Sub { f1 }) == data1 - f1,
        apply(apply(data1, Protocol1::Sub { f1 }), Protocol1::Add { f1 }) == data1,
{
}

/// Law: a `Mul` multiplies `data1` by its operand, in every state that
/// accepts it: by zero it clears `data1`, by one it keeps it, and two of them
/// multiply by the product of their operands.
pub proof fn law_mul_multiplies(state: States, data1: int, f1: i32, f2: i32)
    requires
        accepts(state, Protocol1::Mul { f1 }),
    ensures
        apply(data1, Protocol1::Mul { f1 }) == data1 * f1,
        handler_data1(state, data1, Protocol1::Mul { f1 }) == data1 * f1,
        apply(data1, Protocol1::Mul { f1: 0 }) == 0,
        apply(data1, Protocol1::Mul { f1: 1 }) == data1,
        apply(apply(data1, Protocol1::Mul { f1 }), Protocol1::Mul { f1: f2 }) == data1 * (f1 * f2),
{
    assert(data1 * f1 * f2 == data1 * (f1 * f2)) by (nonlinear_arith);
}

/// Law: dispatching in a state behaves as that state's handler. Both take
/// exactly the messages the state accepts and keep the state, and on those
/// messages the handler computes what the message means for `data1`, so the
/// two also overflow on the same inputs.
pub proof fn law_dispatch_is_state_handler(state: States, data1: int, msg: Protocol1)
    requires
        accepts(state, msg),
    ensures
        handler_data1(state, data1, msg) == apply(data1, msg),
{
}

impl StateMachine {
    /// A machine in `initial_state` with `data1` zero.
    pub fn new(initial_state: States) -> (sm: Self)
        ensures
            sm.current_state == initial_state,
            sm.data1 == 0,
    {
        StateMachine { current_state: initial_state, data1: 0 }
    }

    /// Hands `msg` to the handler of the current state. The state never changes.
    pub fn dispatch_msg(&mut self, msg: &Protocol1)
        requires
            accepts(old(self).current_state, *msg),
            fits_i32(apply(old(self).data1 as int, *msg)),
        ensures
            final(self).current_state == old(self).current_state,
            final(self).data1 == apply(old(self).data1 as int, *msg),
            *msg is Add ==> final(self).data1 == old(self).data1 + msg->Add_f1,
            *msg is Sub ==> final(self).data1 == old(self).data1 - msg->Sub_f1,
            *msg is Mul ==> final(self).data1 == old(self).data1 * msg->Mul_f1,
    {
        match self.current_state {
            States::StateAdd => {
                self.state_add_process_msg(msg);
            },
            States::StateSub => {
                self.state_sub_process_msg(msg);
            },
            States::StateMul => {
                self.state_mul_process_msg(msg);
            },
            States::StateAny => {
                self.state_any_process_msg(msg);
            },
        }
    }

    /// Adds the operand of an `Add` message to `data1`.
    pub fn state_add_process_msg(&mut self, msg: &Protocol1)
        requires
            accepts(States::StateAdd, *msg),
            fits_i32(handler_data1(States::StateAdd, old(self).data1 as int, *msg)),
        ensures
            final(self).current_state == old(self).current_state,
            final(self).data1 == handler_data1(States::StateAdd, old(self).data1 as int, *msg),
            *msg is Add ==> final(self).data1 == old(self).data1 + msg->Add_f1,
            *msg is Sub ==> final(self).data1 == old(self).data1 - msg->Sub_f1,
            *msg is Mul ==> final(self).data1 == old(self).data1 * msg->Mul_f1,
    {
        match *msg {
            Protocol1::Add { f1 } => {
                self.data1 = self.data1 + f1;
            },
            _ => {},
        }
    }

    /// Subtracts the operand of a `Sub` message from `data1`.
    pub fn state_sub_process_msg(&mut self, msg: &Protocol1)
        requires
            accepts(States::StateSub, *msg),
            fits_i32(handler_data1(States::StateSub, old(self).data1 as int, *msg)),
        ensures
            final(self).current_state == old(self).current_state,
            final(self).data1 == handler_data1(States::StateSub, old(self).data1 as int, *msg),
            *msg is Add ==> final(self).data1 == old(self).data1 + msg->Add_f1,
            *msg is Sub ==> final(self).data1 == old(self).data1 - msg->Sub_f1,
            *msg is Mul ==> final(self).data1 == old(self).data1 * msg->Mul_f1,
    {
        match *msg {
            Protocol1::Sub { f1 } => {
                self.data1 = self.data1 - f1;
            },
            _ => {},
        }
    }

    /// Multiplies `data1` by the operand of a `Mul` message.
    pub fn state_mul_process_msg(&mut self, msg: &Protocol1)
        requires
            accepts(States::StateMul, *msg),
            fits_i32(handler_data1(States::StateMul, old(self).data1 as int, *msg)),
        ensures
            final(self).current_state == old(self).current_state,
            final(self).data1 == handler_data1(States::StateMul, old(self).data1 as int, *msg),
            *msg is Add ==> final(self).data1 == old(self).data1 + msg->Add_f1,
            *msg is Sub ==> final(self).data1 == old(self).data1 - msg->Sub_f1,
            *msg is Mul ==> final(self).data1 == old(self).data1 * msg->Mul_f1,
    {
        match *msg {
            Protocol1::Mul { f1 } => {
                self.data1 = self.data1 * f1;
            },
            _ => {},
        }
    }

    /// Applies any of the three messages to `data1`.
    pub fn state_any_process_msg(&mut self, msg: &Protocol1)
        requires
            accepts(States::StateAny, *msg),
            fits_i32(handler_data1(States::StateAny, old(self).data1 as int, *msg)),
        ensures
            final(self).current_state == old(self).current_state,
            final(self).data1 == handler_data1(States::StateAny, old(self).data1 as int, *msg),
            *msg is Add ==> final(self).data1 == old(self).data1 + msg->Add_f1,
            *msg is Sub ==> final(self).data1 == old(self).data1 - msg->Sub_f1,
            *msg is Mul ==> final(self).data1 == old(self).data1 * msg->Mul_f1,
    {
        match *msg {
            Protocol1::Add { f1 } => {
                self.data1 = self.data1 + f1;
            },
            Protocol1::Sub { f1 } => {
                self.data1 = self.data1 - f1;
            },
            Protocol1::Mul { f1 } => {
                self.data1 = self.data1 * f1;
            },
        }
    }
}

} // verus!
