#[test]
fn test_tcp_future() {}
