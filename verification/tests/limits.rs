use amqp::result::{AmqpError, Violation};
use amqp::wire::put_sized;

#[test]
fn a_body_too_long_for_its_length_prefix_is_refused() {
    if usize::BITS < 64 {
        return;
    }
    let n = u32::MAX as usize + 1;
    let mut probe: Vec<u8> = Vec::new();
    if probe.try_reserve_exact(n).is_err() {
        return;
    }
    drop(probe);
    let body = vec![0u8; n];
    let mut out = vec![1, 2];
    match put_sized(&mut out, &body) {
        Err(AmqpError::ProtocolViolation(Violation::Oversize(len))) => assert_eq!(len, n),
        other => panic!("expected Oversize, got {:?}", other.map(|_| ())),
    }
    assert_eq!(out, vec![1, 2]);
}
