use ocr_intake::link::{
    LinkAction, LinkEvent, LinkSupervisor, BAUD_RATE, BRIDGE_CAPACITY, READ_TIMEOUT_SECS,
    RETRY_DELAY_SECS,
};

fn framed(payload: &[u8]) -> Vec<u8> {
    let mut bytes = b"IMGSTART".to_vec();
    bytes.extend_from_slice(&(payload.len() as u32).to_le_bytes());
    bytes.extend_from_slice(payload);
    bytes.extend_from_slice(b"IMGEND");
    bytes
}

#[test]
fn link_settings() {
    assert_eq!(RETRY_DELAY_SECS, 5);
    assert_eq!(READ_TIMEOUT_SECS, 10);
    assert_eq!(BAUD_RATE, 115_200);
    assert_eq!(BRIDGE_CAPACITY, 10);
}

#[test]
fn supervisor_opens_the_port_first() {
    let supervisor = LinkSupervisor::new();
    assert!(!supervisor.is_connected());
    assert_eq!(supervisor.first_action(), LinkAction::Open { delay_secs: 0 });
}

#[test]
fn failed_open_is_retried_after_the_delay() {
    let mut supervisor = LinkSupervisor::new();
    assert_eq!(supervisor.handle(LinkEvent::OpenFailed), LinkAction::Open { delay_secs: 5 });
    assert_eq!(supervisor.handle(LinkEvent::OpenFailed), LinkAction::Open { delay_secs: 5 });
    assert!(!supervisor.is_connected());
}

#[test]
fn frame_is_delivered_then_reading_goes_on() {
    let mut supervisor = LinkSupervisor::new();
    assert_eq!(supervisor.handle(LinkEvent::Opened), LinkAction::Read { count: 1 });
    assert!(supervisor.is_connected());
    let stream = framed(b"image");
    let mut action = LinkAction::Read { count: 1 };
    let mut at = 0;
    while at < stream.len() {
        let count = match action {
            LinkAction::Read { count } => count,
            other => panic!("unexpected action {:?}", other),
        };
        action = supervisor.handle(LinkEvent::Received(stream[at..at + count].to_vec()));
        at += count;
    }
    assert_eq!(action, LinkAction::Deliver { frames: vec![b"image".to_vec()] });
    assert_eq!(supervisor.handle(LinkEvent::Delivered), LinkAction::Read { count: 1 });
}

#[test]
fn disconnect_mid_frame_then_reconnect() {
    let mut supervisor = LinkSupervisor::new();
    supervisor.handle(LinkEvent::Opened);
    let broken = framed(b"never completed");
    assert_eq!(
        supervisor.handle(LinkEvent::Received(broken[..14].to_vec())),
        LinkAction::Read { count: 13 }
    );
    assert_eq!(
        supervisor.handle(LinkEvent::ReadFailed),
        LinkAction::Open { delay_secs: RETRY_DELAY_SECS }
    );
    assert!(!supervisor.is_connected());
    assert_eq!(supervisor.handle(LinkEvent::Opened), LinkAction::Read { count: 1 });
    assert_eq!(
        supervisor.handle(LinkEvent::Received(framed(b"whole"))),
        LinkAction::Deliver { frames: vec![b"whole".to_vec()] }
    );
}

#[test]
fn failed_delivery_reopens_at_once() {
    let mut supervisor = LinkSupervisor::new();
    supervisor.handle(LinkEvent::Opened);
    supervisor.handle(LinkEvent::Received(framed(b"a")));
    assert_eq!(supervisor.handle(LinkEvent::DeliveryFailed), LinkAction::Open { delay_secs: 0 });
    assert!(!supervisor.is_connected());
}

#[test]
fn malformed_frame_forces_a_reconnect() {
    let mut supervisor = LinkSupervisor::new();
    supervisor.handle(LinkEvent::Opened);
    let mut head = b"IMGSTART".to_vec();
    head.extend_from_slice(&[3, 0, 0, 0, 1, 2, 3]);
    assert_eq!(supervisor.handle(LinkEvent::Received(head)), LinkAction::Read { count: 1 });
    for _ in 0..63 {
        assert_eq!(
            supervisor.handle(LinkEvent::Received(vec![0xEE])),
            LinkAction::Read { count: 1 }
        );
    }
    assert_eq!(
        supervisor.handle(LinkEvent::Received(vec![0xEE])),
        LinkAction::Open { delay_secs: RETRY_DELAY_SECS }
    );
    assert!(!supervisor.is_connected());
    assert_eq!(supervisor.handle(LinkEvent::Opened), LinkAction::Read { count: 1 });
    assert_eq!(
        supervisor.handle(LinkEvent::Received(framed(b"after"))),
        LinkAction::Deliver { frames: vec![b"after".to_vec()] }
    );
}

#[test]
fn frames_before_a_malformed_one_are_still_delivered() {
    let mut supervisor = LinkSupervisor::new();
    supervisor.handle(LinkEvent::Opened);
    let mut stream = framed(b"good");
    stream.extend_from_slice(b"IMGSTART");
    stream.extend_from_slice(&[1, 0, 0, 0, 9]);
    stream.extend(std::iter::repeat(0u8).take(64));
    stream.extend_from_slice(b"IMGEND");
    assert_eq!(
        supervisor.handle(LinkEvent::Received(stream)),
        LinkAction::Deliver { frames: vec![b"good".to_vec()] }
    );
    assert_eq!(
        supervisor.handle(LinkEvent::Delivered),
        LinkAction::Open { delay_secs: RETRY_DELAY_SECS }
    );
    assert!(!supervisor.is_connected());
}
