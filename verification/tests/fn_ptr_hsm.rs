use expr_fsm_0::fn_ptr_hsm::{
    Header, Protocol1, StateMachine, StateResult, STATE_ADD_HDL, STATE_BASE_HDL,
    STATE_INTERMEDIATE_HDL,
};

fn add(f1: i32) -> Protocol1 {
    Protocol1::Add { hdr: Header { tx_response: false }, f1 }
}

fn get(tx_response: bool) -> Protocol1 {
    Protocol1::Get { hdr: Header { tx_response }, data1: 0 }
}

fn reply_with(data1: i32) -> Option<Protocol1> {
    Some(Protocol1::Get { hdr: Header { tx_response: false }, data1 })
}

#[test]
fn hsm_new_queues_add_state_and_ancestors() {
    let sm = StateMachine::new();
    assert_eq!(sm.current_state_fns_hdl, STATE_ADD_HDL);
    assert_eq!(sm.previous_state_fns_hdl, STATE_ADD_HDL);
    assert!(sm.current_state_changed);
    assert_eq!(sm.enter_fns_hdls, vec![STATE_ADD_HDL, STATE_INTERMEDIATE_HDL, STATE_BASE_HDL]);
    assert!(sm.exit_fns_hdls.is_empty());
    assert_eq!(sm.data1, 0);
    assert!(sm.state_fns.iter().all(|f| !f.active));
    assert_eq!(sm.state_fns[0].parent, None);
    assert_eq!(sm.state_fns[1].parent, Some(0));
    assert_eq!(sm.state_fns[2].parent, Some(1));
}

#[test]
fn hsm_state_names() {
    let sm = StateMachine::default();
    assert_eq!(sm.state_name(), "state_process_add");
    assert_eq!(sm.state_fns[0].name, "state_base");
    assert_eq!(sm.state_fns[1].name, "state_intermediate");
}

#[test]
fn hsm_first_add_enters_all_and_reenters_add() {
    let mut sm = StateMachine::default();
    assert_eq!(sm.dispatch_msg(&add(5)), None);
    assert_eq!(sm.data1, 5);
    assert!(sm.state_fns.iter().all(|f| f.active));
    assert_eq!(sm.current_state_fns_hdl, STATE_ADD_HDL);
    assert_eq!(sm.previous_state_fns_hdl, STATE_ADD_HDL);
    assert!(sm.current_state_changed);
    assert_eq!(sm.enter_fns_hdls, vec![STATE_ADD_HDL]);
    assert!(sm.exit_fns_hdls.is_empty());
}

#[test]
fn hsm_get_answered_by_base_state() {
    let mut sm = StateMachine::default();
    sm.dispatch_msg(&add(5));
    sm.dispatch_msg(&add(6));
    let reply = sm.dispatch_msg(&get(true));
    assert_eq!(reply, reply_with(11));
    assert_eq!(sm.data1, 11);
    assert!(!sm.current_state_changed);
    assert!(sm.enter_fns_hdls.is_empty());
    assert_eq!(sm.current_state_fns_hdl, STATE_ADD_HDL);
}

#[test]
fn hsm_first_get_answers_zero() {
    let mut sm = StateMachine::new();
    assert_eq!(sm.dispatch_msg(&get(true)), reply_with(0));
    assert!(sm.state_fns.iter().all(|f| f.active));
    assert!(!sm.current_state_changed);
    assert!(sm.enter_fns_hdls.is_empty());
}

#[test]
fn hsm_get_without_channel_gets_no_reply() {
    let mut sm = StateMachine::new();
    sm.dispatch_msg(&add(3));
    assert_eq!(sm.dispatch_msg(&get(false)), None);
    assert_eq!(sm.data1, 3);
}

#[test]
fn hsm_ten_adds_of_one_give_ten() {
    let mut sm = StateMachine::default();
    for _ in 0..10 {
        sm.dispatch_msg(&add(1));
    }
    assert_eq!(sm.data1, 10);
    assert_eq!(sm.dispatch_msg(&get(true)), reply_with(10));
}

#[test]
fn hsm_dispatch_to_parent_handle() {
    let mut sm = StateMachine::default();
    sm.dispatch_msg(&add(2));
    // The intermediate state leaves `Add` to the base state, which ignores it.
    assert_eq!(sm.dispatch_msg_hdl(&add(100), STATE_INTERMEDIATE_HDL), None);
    assert_eq!(sm.data1, 2);
    assert_eq!(sm.dispatch_msg_hdl(&get(true), STATE_BASE_HDL), reply_with(2));
    assert_eq!(sm.current_state_fns_hdl, STATE_ADD_HDL);
}

#[test]
fn hsm_negative_operands() {
    let mut sm = StateMachine::new();
    sm.dispatch_msg(&add(-9));
    sm.dispatch_msg(&add(4));
    assert_eq!(sm.dispatch_msg(&get(true)), reply_with(-5));
}

#[test]
fn hsm_process_functions_report_results() {
    let mut sm = StateMachine::new();
    assert_eq!(sm.state_base(&get(true)), (StateResult::Handled, reply_with(0)));
    assert_eq!(sm.state_base(&add(1)), (StateResult::Handled, None));
    assert_eq!(sm.state_intermediate(&get(true)), (StateResult::NotHandled, None));
    assert_eq!(sm.state_process_add(&get(true)), (StateResult::NotHandled, None));
    assert_eq!(sm.state_process_add(&add(7)), (StateResult::TransitionTo(STATE_ADD_HDL), None));
    assert_eq!(sm.data1, 7);
}

#[test]
fn hsm_enter_and_exit_functions_change_nothing() {
    let mut sm = StateMachine::new();
    sm.state_enter_base(&add(1));
    sm.state_exit_base(&add(1));
    sm.state_enter_intermediate(&add(1));
    sm.state_exit_intermediate(&add(1));
    sm.state_enter_add(&add(1));
    sm.state_exit_add(&add(1));
    assert_eq!(sm.data1, 0);
    assert!(sm.state_fns.iter().all(|f| !f.active));
    assert_eq!(sm.enter_fns_hdls.len(), 3);
}

#[test]
fn hsm_previous_handle_is_never_read() {
    let mut sm = StateMachine::new();
    sm.previous_state_fns_hdl = 99;
    assert_eq!(sm.dispatch_msg(&get(true)), reply_with(0));
    sm.dispatch_msg(&add(2));
    assert_eq!(sm.previous_state_fns_hdl, STATE_ADD_HDL);
    assert_eq!(sm.data1, 2);
}

#[test]
fn hsm_parent_with_larger_handle() {
    let mut sm = StateMachine::new();
    // Row 1 now nests in row 2, which has no parent: the chains still end.
    sm.state_fns[1].parent = Some(2);
    sm.state_fns[2].parent = None;
    sm.current_state_changed = false;
    assert_eq!(sm.dispatch_msg_hdl(&get(true), STATE_INTERMEDIATE_HDL), reply_with(0));
    // The intermediate state leaves `Add` to its parent, now the `Add` state.
    sm.dispatch_msg_hdl(&add(4), STATE_INTERMEDIATE_HDL);
    assert_eq!(sm.data1, 4);
    assert_eq!(sm.current_state_fns_hdl, STATE_ADD_HDL);
    assert!(sm.current_state_changed);
}
