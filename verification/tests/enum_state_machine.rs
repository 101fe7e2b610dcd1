use expr_fsm_0::enum_state_machine::{Protocol1, StateMachine, States};

#[test]
fn enum_new_starts_at_zero_in_given_state() {
    let sm = StateMachine::new(States::StateSub);
    assert!(sm.current_state == States::StateSub);
    assert_eq!(sm.data1, 0);
}

#[test]
fn enum_add_twice_gives_123_then_246() {
    let mut sm = StateMachine::new(States::StateAdd);
    let msg = Protocol1::Add { f1: 123 };
    sm.dispatch_msg(&msg);
    assert_eq!(sm.data1, 123);
    sm.dispatch_msg(&msg);
    assert_eq!(sm.data1, 246);
    assert!(sm.current_state == States::StateAdd);
}

#[test]
fn enum_sub_state_subtracts() {
    let mut sm = StateMachine::new(States::StateSub);
    sm.dispatch_msg(&Protocol1::Sub { f1: 7 });
    assert_eq!(sm.data1, -7);
    assert!(sm.current_state == States::StateSub);
}

#[test]
fn enum_mul_state_multiplies() {
    let mut sm = StateMachine::new(States::StateMul);
    sm.data1 = 6;
    sm.dispatch_msg(&Protocol1::Mul { f1: -7 });
    assert_eq!(sm.data1, -42);
    assert!(sm.current_state == States::StateMul);
}

#[test]
fn enum_any_state_takes_every_message() {
    let mut sm = StateMachine::new(States::StateAny);
    sm.dispatch_msg(&Protocol1::Add { f1: 5 });
    sm.dispatch_msg(&Protocol1::Mul { f1: 4 });
    sm.dispatch_msg(&Protocol1::Sub { f1: 3 });
    assert_eq!(sm.data1, 17);
    assert!(sm.current_state == States::StateAny);
}

#[test]
fn enum_state_handlers_called_directly() {
    let mut sm = StateMachine::new(States::StateAny);
    sm.state_add_process_msg(&Protocol1::Add { f1: 10 });
    assert_eq!(sm.data1, 10);
    sm.state_sub_process_msg(&Protocol1::Sub { f1: 4 });
    assert_eq!(sm.data1, 6);
    sm.state_mul_process_msg(&Protocol1::Mul { f1: 3 });
    assert_eq!(sm.data1, 18);
    sm.state_any_process_msg(&Protocol1::Sub { f1: 20 });
    assert_eq!(sm.data1, -2);
    assert!(sm.current_state == States::StateAny);
}

#[test]
fn enum_reaches_i32_bounds_exactly() {
    let mut sm = StateMachine::new(States::StateAdd);
    sm.data1 = i32::MAX - 1;
    sm.dispatch_msg(&Protocol1::Add { f1: 1 });
    assert_eq!(sm.data1, i32::MAX);
    let mut sm = StateMachine::new(States::StateSub);
    sm.data1 = i32::MIN + 1;
    sm.dispatch_msg(&Protocol1::Sub { f1: 1 });
    assert_eq!(sm.data1, i32::MIN);
}
