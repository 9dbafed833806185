use broadcast_relay::forward::plan_forward;

#[test]
fn scenario_forward_request_is_granted_with_fixed_task() {
    // A forwarding request for "example.com":9999 is granted; the detached
    // task opens the forwarded channel to that address and port, claims
    // the fixed originator, and writes the fixed greeting.
    let (granted, task) = plan_forward("example.com", 9999);
    assert!(granted);
    assert_eq!(task.address, "example.com");
    assert_eq!(task.port, 9999);
    assert_eq!(task.originator_address, "1.2.3.4");
    assert_eq!(task.originator_port, 1234);
    assert_eq!(task.greeting, "Hello from a forwarded port");
    assert_eq!(task.greeting.as_bytes(), b"Hello from a forwarded port");
}

#[test]
fn every_forward_request_is_granted() {
    let (granted, task) = plan_forward("", 0);
    assert!(granted);
    assert_eq!(task.address, "");
    assert_eq!(task.port, 0);
}
