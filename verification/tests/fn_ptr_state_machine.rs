use expr_fsm_0::fn_ptr_state_machine::{
    Header, Protocol1, StateFn, StateMachine, StateResult, STATE_ADD_OR_MUL_IDX, STATE_ANY_IDX,
};

fn add(f1: i32) -> Protocol1 {
    Protocol1::Add { hdr: Header { tx_response: false }, f1 }
}

fn mul(f1: i32) -> Protocol1 {
    Protocol1::Mul { hdr: Header { tx_response: false }, f1 }
}

fn get(tx_response: bool) -> Protocol1 {
    Protocol1::Get { hdr: Header { tx_response }, data1: 0 }
}

#[test]
fn fn_ptr_new_is_in_add_or_mul_state() {
    let sm = StateMachine::new();
    assert_eq!(sm.current_state_fns_idx, STATE_ADD_OR_MUL_IDX);
    assert_eq!(sm.previous_state_fns_idx, STATE_ADD_OR_MUL_IDX);
    assert!(sm.current_state_changed);
    assert_eq!(sm.data1, 0);
    assert_eq!(sm.state_fns[0].process, StateFn::StateProcessAddOrMul);
    assert_eq!(sm.state_fns[1].process, StateFn::StateProcessAny);
}

#[test]
fn fn_ptr_default_equals_new() {
    let sm = StateMachine::default();
    assert_eq!(sm.current_state_fns_idx, STATE_ADD_OR_MUL_IDX);
    assert_eq!(sm.data1, 0);
    assert!(sm.current_state_changed);
}

#[test]
fn fn_ptr_states_alternate_on_add() {
    let mut sm = StateMachine::default();
    let msg = add(123);
    assert_eq!(sm.dispatch_msg(&msg), None);
    assert_eq!(sm.current_state_fns_idx, STATE_ANY_IDX);
    assert_eq!(sm.previous_state_fns_idx, STATE_ADD_OR_MUL_IDX);
    assert!(sm.current_state_changed);
    assert_eq!(sm.data1, 123);
    sm.dispatch_msg(&msg);
    assert_eq!(sm.current_state_fns_idx, STATE_ADD_OR_MUL_IDX);
    assert_eq!(sm.previous_state_fns_idx, STATE_ANY_IDX);
    assert_eq!(sm.data1, 246);
    sm.dispatch_msg(&msg);
    assert_eq!(sm.current_state_fns_idx, STATE_ANY_IDX);
    assert_eq!(sm.data1, 369);
}

#[test]
fn fn_ptr_ten_adds_of_one_give_ten() {
    let mut sm = StateMachine::default();
    for _ in 0..10 {
        sm.dispatch_msg(&add(1));
    }
    assert_eq!(sm.data1, 10);
    assert_eq!(sm.current_state_fns_idx, STATE_ADD_OR_MUL_IDX);
}

#[test]
fn fn_ptr_mul_in_both_states() {
    let mut sm = StateMachine::default();
    sm.dispatch_msg(&add(3));
    sm.dispatch_msg(&mul(5));
    assert_eq!(sm.data1, 15);
    sm.dispatch_msg(&mul(-2));
    assert_eq!(sm.data1, -30);
    assert_eq!(sm.current_state_fns_idx, STATE_ANY_IDX);
}

#[test]
fn fn_ptr_get_in_add_or_mul_state_is_answered_without_transition() {
    let mut sm = StateMachine::default();
    sm.dispatch_msg(&add(7));
    sm.dispatch_msg(&add(1));
    assert_eq!(sm.current_state_fns_idx, STATE_ADD_OR_MUL_IDX);
    let reply = sm.dispatch_msg(&get(true));
    assert_eq!(reply, Some(Protocol1::Get { hdr: Header { tx_response: false }, data1: 8 }));
    assert_eq!(sm.current_state_fns_idx, STATE_ADD_OR_MUL_IDX);
    assert!(!sm.current_state_changed);
    assert_eq!(sm.data1, 8);
}

#[test]
fn fn_ptr_get_in_any_state_is_answered_and_transitions() {
    let mut sm = StateMachine::default();
    sm.dispatch_msg(&add(4));
    assert_eq!(sm.current_state_fns_idx, STATE_ANY_IDX);
    let reply = sm.dispatch_msg(&get(true));
    assert_eq!(reply, Some(Protocol1::Get { hdr: Header { tx_response: false }, data1: 4 }));
    assert_eq!(sm.current_state_fns_idx, STATE_ADD_OR_MUL_IDX);
    assert!(sm.current_state_changed);
}

#[test]
fn fn_ptr_get_without_channel_gets_no_reply() {
    let mut sm = StateMachine::default();
    assert_eq!(sm.dispatch_msg(&get(false)), None);
    sm.dispatch_msg(&add(1));
    assert_eq!(sm.dispatch_msg(&get(false)), None);
    assert_eq!(sm.data1, 1);
}

#[test]
fn fn_ptr_process_functions_report_results() {
    let mut sm = StateMachine::default();
    assert_eq!(sm.state_process_add_or_mul(&add(2)), (StateResult::TransitionTo(STATE_ANY_IDX), None));
    assert_eq!(sm.state_process_add_or_mul(&get(true)), (StateResult::NotHandled, None));
    assert_eq!(sm.data1, 2);
    assert_eq!(
        sm.state_process_any(&get(true)),
        (
            StateResult::TransitionTo(STATE_ADD_OR_MUL_IDX),
            Some(Protocol1::Get { hdr: Header { tx_response: false }, data1: 2 })
        )
    );
    assert_eq!(sm.state_process_any(&mul(3)), (StateResult::TransitionTo(STATE_ADD_OR_MUL_IDX), None));
    assert_eq!(sm.data1, 6);
}

#[test]
fn fn_ptr_enter_and_exit_functions_change_nothing() {
    let mut sm = StateMachine::default();
    sm.state_enter_add_or_mul(&add(1));
    sm.state_exit_add_or_mul(&add(1));
    sm.state_enter_any(&add(1));
    sm.state_exit_any(&add(1));
    assert_eq!(sm.data1, 0);
    assert_eq!(sm.current_state_fns_idx, STATE_ADD_OR_MUL_IDX);
    assert!(sm.current_state_changed);
}

#[test]
fn fn_ptr_stale_previous_index_is_overwritten() {
    let mut sm = StateMachine::new();
    sm.previous_state_fns_idx = 5;
    sm.dispatch_msg(&add(1));
    assert_eq!(sm.previous_state_fns_idx, STATE_ADD_OR_MUL_IDX);
    assert_eq!(sm.current_state_fns_idx, STATE_ANY_IDX);
    assert_eq!(sm.data1, 1);
}

#[test]
fn fn_ptr_dispatch_follows_the_table_it_holds() {
    let mut sm = StateMachine::new();
    // Both rows now name the process function that takes every message.
    sm.state_fns[0].process = StateFn::StateProcessAny;
    let reply = sm.dispatch_msg(&get(true));
    assert_eq!(reply, Some(Protocol1::Get { hdr: Header { tx_response: false }, data1: 0 }));
    assert_eq!(sm.current_state_fns_idx, STATE_ADD_OR_MUL_IDX);
    assert!(sm.current_state_changed);
}
