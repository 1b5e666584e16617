use adb_stream::action::Action;
use adb_stream::command::{Lifecycle, Verdict};
use adb_stream::device::{ADBMessageDevice, Progress};
use adb_stream::error::RustADBError;
use adb_stream::message::{ADBTransportMessage, ADBTransportMessageHeader, MessageCommand};

fn data(arg0: u32, arg1: u32, payload: &[u8]) -> ADBTransportMessage {
    ADBTransportMessage::new(MessageCommand::Write, arg0, arg1, payload)
}

fn okay(arg0: u32, arg1: u32) -> ADBTransportMessage {
    ADBTransportMessage::new(MessageCommand::Okay, arg0, arg1, &[])
}

fn close(arg0: u32, arg1: u32) -> ADBTransportMessage {
    ADBTransportMessage::new(MessageCommand::Clse, arg0, arg1, &[])
}

fn send_ack() -> Action {
    Action::Send(okay(7, 42))
}

fn send_close() -> Action {
    Action::Send(close(7, 42))
}

fn deliver(bytes: &[u8]) -> Action {
    Action::Deliver(bytes.to_vec())
}

fn sent(actions: &[Action]) -> Vec<ADBTransportMessage> {
    let mut frames = Vec::new();
    for action in actions {
        if let Action::Send(message) = action {
            frames.push(message.clone());
        }
    }
    frames
}

fn delivered(actions: &[Action]) -> Vec<u8> {
    let mut bytes = Vec::new();
    for action in actions {
        if let Action::Deliver(chunk) = action {
            bytes.extend_from_slice(chunk);
        }
    }
    bytes
}

#[test]
fn message_keeps_header_and_payload() {
    let message = ADBTransportMessage::new(MessageCommand::Write, 3, 9, b"abc");
    assert_eq!(
        message.header(),
        ADBTransportMessageHeader { command: MessageCommand::Write, arg0: 3, arg1: 9 }
    );
    assert_eq!(message.header().command(), MessageCommand::Write);
    assert_eq!(message.header().arg0(), 3);
    assert_eq!(message.header().arg1(), 9);
    assert_eq!(message.payload(), &b"abc".to_vec());
    assert_eq!(message.into_payload(), b"abc".to_vec());
}

#[test]
fn message_copies_its_payload() {
    let mut bytes = b"abc".to_vec();
    let message = ADBTransportMessage::new(MessageCommand::Write, 3, 9, &bytes);
    bytes[0] = b'z';
    assert_eq!(message.into_payload(), b"abc".to_vec());
    let empty = ADBTransportMessage::new(MessageCommand::Okay, 0, 0, &[]);
    assert!(empty.payload().is_empty());
}

#[test]
fn header_new_keeps_its_words() {
    let header = ADBTransportMessageHeader::new(MessageCommand::Clse, 1, 2);
    assert_eq!(header.command(), MessageCommand::Clse);
    assert_eq!(header.arg0(), 1);
    assert_eq!(header.arg1(), 2);
}

#[test]
fn new_device_awaits_the_final_close() {
    let device = ADBMessageDevice::new(7, 42);
    assert_eq!(device.get_local_id(), 7);
    assert_eq!(device.get_remote_id(), 42);
    assert_eq!(device.state(), Lifecycle::AwaitingFinalClose);
}

#[test]
fn acknowledgment_and_close_are_addressed_to_the_device() {
    let device = ADBMessageDevice::new(7, 42);
    assert_eq!(device.acknowledgment(), okay(7, 42));
    assert_eq!(device.close_confirmation(), close(7, 42));
}

#[test]
fn data_frame_is_acknowledged_then_delivered() {
    let mut device = ADBMessageDevice::new(7, 42);
    let mut actions = Vec::new();
    let verdict = device.receive(&data(42, 7, b"out"), &mut actions);
    assert_eq!(verdict, Verdict::Continue);
    assert_eq!(actions, vec![send_ack(), deliver(b"out")]);
    assert_eq!(device.state(), Lifecycle::Open);
}

#[test]
fn data_frame_of_any_sender_is_acknowledged() {
    let mut device = ADBMessageDevice::new(7, 42);
    let mut actions = Vec::new();
    let verdict = device.receive(&data(43, 8, b"x"), &mut actions);
    assert_eq!(verdict, Verdict::Continue);
    assert_eq!(actions, vec![send_ack(), deliver(b"x")]);
    assert_eq!(device.state(), Lifecycle::Open);
}

#[test]
fn acknowledgment_is_passed_over() {
    let mut device = ADBMessageDevice::new(7, 42);
    let mut actions = Vec::new();
    let verdict = device.receive(&okay(42, 7), &mut actions);
    assert_eq!(verdict, Verdict::Continue);
    assert!(actions.is_empty());
    assert_eq!(device.state(), Lifecycle::AwaitingFinalClose);
}

#[test]
fn foreign_close_is_passed_over() {
    let mut device = ADBMessageDevice::new(7, 42);
    let mut actions = Vec::new();
    for foreign in [close(42, 8), close(41, 7), close(7, 42), close(0, 0)] {
        let verdict = device.receive(&foreign, &mut actions);
        assert_eq!(verdict, Verdict::Continue);
        assert!(actions.is_empty());
        assert_eq!(device.state(), Lifecycle::AwaitingFinalClose);
    }
    device.receive(&data(42, 7, b"x"), &mut actions);
    let verdict = device.receive(&close(42, 8), &mut actions);
    assert_eq!(verdict, Verdict::Continue);
    assert_eq!(actions, vec![send_ack(), deliver(b"x")]);
    assert_eq!(device.state(), Lifecycle::Open);
}

#[test]
fn close_without_data_round_trip() {
    let mut device = ADBMessageDevice::new(7, 42);
    let mut actions = Vec::new();
    let verdict = device.receive(&close(42, 7), &mut actions);
    assert_eq!(verdict, Verdict::Finished);
    assert_eq!(actions.len(), 1);
    match &actions[0] {
        Action::Send(reply) => {
            assert_eq!(reply.header().command(), MessageCommand::Clse);
            assert_eq!(reply.header().arg0(), 7);
            assert_eq!(reply.header().arg1(), 42);
            assert!(reply.payload().is_empty());
        }
        other => panic!("expected a close to be sent, got {:?}", other),
    }
    assert_eq!(device.state(), Lifecycle::Closed);
}

#[test]
fn close_without_data_round_trip_in_one_run() {
    let mut device = ADBMessageDevice::new(7, 42);
    let mut actions = Vec::new();
    let result = device.shell_command(&vec![close(42, 7)], &mut actions);
    assert_eq!(result, Ok(Progress { consumed: 1, closed: true }));
    assert_eq!(actions, vec![send_close()]);
    assert_eq!(device.state(), Lifecycle::Closed);
}

#[test]
fn close_after_data_marks_a_burst() {
    let mut device = ADBMessageDevice::new(7, 42);
    let mut actions = Vec::new();
    device.receive(&data(42, 7, b"x"), &mut actions);
    let verdict = device.receive(&close(42, 7), &mut actions);
    assert_eq!(verdict, Verdict::Continue);
    assert_eq!(actions, vec![send_ack(), deliver(b"x"), send_close()]);
    assert_eq!(device.state(), Lifecycle::AwaitingFinalClose);
    let verdict = device.receive(&close(42, 7), &mut actions);
    assert_eq!(verdict, Verdict::Finished);
    assert_eq!(actions, vec![send_ack(), deliver(b"x"), send_close(), send_close()]);
    assert_eq!(device.state(), Lifecycle::Closed);
}

#[test]
fn unknown_command_breaks_the_stream() {
    let mut device = ADBMessageDevice::new(7, 42);
    let mut actions = Vec::new();
    let unknown = ADBTransportMessage::new(MessageCommand::Other(0x4e584e43), 42, 7, b"zz");
    let verdict = device.receive(&unknown, &mut actions);
    assert_eq!(
        verdict,
        Verdict::Failed(RustADBError::ADBRequestFailed(MessageCommand::Other(0x4e584e43)))
    );
    assert!(actions.is_empty());
    assert_eq!(device.state(), Lifecycle::AwaitingFinalClose);
}

#[test]
fn closed_stream_reacts_to_nothing() {
    let mut device = ADBMessageDevice::new(7, 42);
    let mut actions = Vec::new();
    device.receive(&close(42, 7), &mut actions);
    assert_eq!(actions, vec![send_close()]);
    for late in [
        data(42, 7, b"late"),
        okay(42, 7),
        close(42, 7),
        ADBTransportMessage::new(MessageCommand::Other(1), 42, 7, &[]),
    ] {
        let verdict = device.receive(&late, &mut actions);
        assert_eq!(verdict, Verdict::Finished);
        assert_eq!(actions, vec![send_close()]);
        assert_eq!(device.state(), Lifecycle::Closed);
    }
    let result = device.shell_command(&vec![data(42, 7, b"late")], &mut actions);
    assert_eq!(result, Ok(Progress { consumed: 0, closed: true }));
    assert_eq!(actions, vec![send_close()]);
}

#[test]
fn data_frames_then_close() {
    let mut device = ADBMessageDevice::new(7, 42);
    let inbound =
        vec![data(42, 7, b"one "), data(42, 7, b"two "), data(42, 7, b"three"), close(42, 7)];
    let mut actions = Vec::new();
    let result = device.shell_command(&inbound, &mut actions);
    assert_eq!(result, Ok(Progress { consumed: 4, closed: false }));
    assert_eq!(
        actions,
        vec![
            send_ack(),
            deliver(b"one "),
            send_ack(),
            deliver(b"two "),
            send_ack(),
            deliver(b"three"),
            send_close(),
        ]
    );
    assert_eq!(sent(&actions), vec![okay(7, 42), okay(7, 42), okay(7, 42), close(7, 42)]);
    assert_eq!(delivered(&actions), b"one two three".to_vec());
    assert_eq!(device.state(), Lifecycle::AwaitingFinalClose);

    let result = device.shell_command(&vec![close(42, 7)], &mut actions);
    assert_eq!(result, Ok(Progress { consumed: 1, closed: true }));
    assert_eq!(
        sent(&actions),
        vec![okay(7, 42), okay(7, 42), okay(7, 42), close(7, 42), close(7, 42)]
    );
    assert_eq!(delivered(&actions), b"one two three".to_vec());
}

#[test]
fn no_data_frames_then_close() {
    let mut device = ADBMessageDevice::new(1, 2);
    let mut actions = Vec::new();
    let result = device.shell_command(&vec![close(2, 1)], &mut actions);
    assert_eq!(result, Ok(Progress { consumed: 1, closed: true }));
    assert_eq!(actions, vec![Action::Send(close(1, 2))]);
}

#[test]
fn data_close_data_close() {
    let mut device = ADBMessageDevice::new(7, 42);
    let inbound = vec![data(42, 7, b"first"), close(42, 7), data(42, 7, b"second"), close(42, 7)];
    let mut actions = Vec::new();

    let result = device.shell_command(&inbound[..2].to_vec(), &mut actions);
    assert_eq!(result, Ok(Progress { consumed: 2, closed: false }));

    let result = device.shell_command(&inbound[2..].to_vec(), &mut actions);
    assert_eq!(result, Ok(Progress { consumed: 2, closed: false }));
    assert_eq!(
        actions,
        vec![
            send_ack(),
            deliver(b"first"),
            send_close(),
            send_ack(),
            deliver(b"second"),
            send_close(),
        ]
    );
    assert_eq!(device.state(), Lifecycle::AwaitingFinalClose);

    let result = device.shell_command(&vec![close(42, 7)], &mut actions);
    assert_eq!(result, Ok(Progress { consumed: 1, closed: true }));
    assert_eq!(actions.len(), 7);
    assert_eq!(actions[6], send_close());
}

#[test]
fn data_close_data_close_in_one_run() {
    let mut device = ADBMessageDevice::new(7, 42);
    let inbound = vec![
        data(42, 7, b"first"),
        close(42, 7),
        data(42, 7, b"second"),
        close(42, 7),
        close(42, 7),
        data(42, 7, b"unread"),
    ];
    let mut actions = Vec::new();
    let result = device.shell_command(&inbound, &mut actions);
    assert_eq!(result, Ok(Progress { consumed: 5, closed: true }));
    assert_eq!(
        sent(&actions),
        vec![okay(7, 42), close(7, 42), okay(7, 42), close(7, 42), close(7, 42)]
    );
    assert_eq!(delivered(&actions), b"firstsecond".to_vec());
}

#[test]
fn frames_of_other_streams_change_nothing() {
    let own = vec![data(42, 7, b"a"), close(42, 7), data(42, 7, b"b"), close(42, 7), close(42, 7)];
    let mut plain = ADBMessageDevice::new(7, 42);
    let mut plain_actions = Vec::new();
    let plain_result = plain.shell_command(&own, &mut plain_actions);

    let mut mixed_inbound = Vec::new();
    for frame in &own {
        mixed_inbound.push(close(42, 8));
        mixed_inbound.push(okay(9, 9));
        mixed_inbound.push(close(5, 7));
        mixed_inbound.push(frame.clone());
    }
    let mut mixed = ADBMessageDevice::new(7, 42);
    let mut mixed_actions = Vec::new();
    let mixed_result = mixed.shell_command(&mixed_inbound, &mut mixed_actions);

    assert_eq!(plain_result, Ok(Progress { consumed: 5, closed: true }));
    assert_eq!(mixed_result, Ok(Progress { consumed: 20, closed: true }));
    assert_eq!(mixed_actions, plain_actions);
    assert_eq!(mixed.state(), plain.state());
}

#[test]
fn only_foreign_frames_leave_the_stream_as_it_was() {
    let mut device = ADBMessageDevice::new(7, 42);
    let inbound = vec![close(42, 8), okay(42, 7), okay(1, 2), close(7, 42), close(43, 7)];
    let mut actions = Vec::new();
    let result = device.shell_command(&inbound, &mut actions);
    assert_eq!(result, Ok(Progress { consumed: 5, closed: false }));
    assert!(actions.is_empty());
    assert_eq!(device.state(), Lifecycle::AwaitingFinalClose);
    assert_eq!(device, ADBMessageDevice::new(7, 42));
}

#[test]
fn unknown_command_stops_the_run() {
    let mut device = ADBMessageDevice::new(7, 42);
    let inbound = vec![
        data(42, 7, b"kept"),
        ADBTransportMessage::new(MessageCommand::Other(0x48545541), 42, 7, b"auth"),
        data(42, 7, b"lost"),
        close(42, 7),
    ];
    let mut actions = Vec::new();
    let result = device.shell_command(&inbound, &mut actions);
    assert_eq!(
        result,
        Err(RustADBError::ADBRequestFailed(MessageCommand::Other(0x48545541)))
    );
    assert_eq!(actions, vec![send_ack(), deliver(b"kept")]);
    assert_eq!(device.state(), Lifecycle::Open);
}

#[test]
fn unknown_command_as_first_frame() {
    let mut device = ADBMessageDevice::new(7, 42);
    let inbound =
        vec![ADBTransportMessage::new(MessageCommand::Other(0), 0, 0, &[]), close(42, 7)];
    let mut actions = Vec::new();
    let result = device.shell_command(&inbound, &mut actions);
    assert_eq!(result, Err(RustADBError::ADBRequestFailed(MessageCommand::Other(0))));
    assert!(actions.is_empty());
}

#[test]
fn run_appends_to_what_is_queued() {
    let mut device = ADBMessageDevice::new(7, 42);
    let mut actions = vec![Action::Flush, Action::Send(okay(1, 1))];
    let result = device.shell_command(&vec![data(42, 7, b"hi")], &mut actions);
    assert_eq!(result, Ok(Progress { consumed: 1, closed: false }));
    assert_eq!(actions, vec![Action::Flush, Action::Send(okay(1, 1)), send_ack(), deliver(b"hi")]);
}

#[test]
fn empty_run_changes_nothing() {
    let mut device = ADBMessageDevice::new(7, 42);
    let mut actions = Vec::new();
    let result = device.shell_command(&Vec::new(), &mut actions);
    assert_eq!(result, Ok(Progress { consumed: 0, closed: false }));
    assert!(actions.is_empty());
    assert_eq!(device.state(), Lifecycle::AwaitingFinalClose);
}

#[test]
fn empty_data_frame_is_acknowledged_and_opens_the_stream() {
    let mut device = ADBMessageDevice::new(7, 42);
    let mut actions = Vec::new();
    let result = device.shell_command(&vec![data(42, 7, b""), close(42, 7)], &mut actions);
    assert_eq!(result, Ok(Progress { consumed: 2, closed: false }));
    assert_eq!(actions, vec![send_ack(), deliver(b""), send_close()]);
}

#[test]
fn frame_by_frame_equals_one_run() {
    let inbound = vec![
        data(42, 7, b"a"),
        okay(42, 7),
        close(42, 7),
        close(42, 9),
        data(42, 7, b"bc"),
        close(42, 7),
        close(42, 7),
    ];
    let mut whole = ADBMessageDevice::new(7, 42);
    let mut whole_actions = Vec::new();
    let result = whole.shell_command(&inbound, &mut whole_actions);
    assert_eq!(result, Ok(Progress { consumed: 7, closed: true }));

    let mut stepped = ADBMessageDevice::new(7, 42);
    let mut stepped_actions = Vec::new();
    let mut last = Verdict::Continue;
    for frame in &inbound {
        last = stepped.receive(frame, &mut stepped_actions);
    }
    assert_eq!(last, Verdict::Finished);
    assert_eq!(stepped_actions, whole_actions);
    assert_eq!(stepped.state(), Lifecycle::Closed);

    let mut halves = ADBMessageDevice::new(7, 42);
    let mut halves_actions = Vec::new();
    let first = halves.shell_command(&inbound[..3].to_vec(), &mut halves_actions);
    assert_eq!(first, Ok(Progress { consumed: 3, closed: false }));
    let second = halves.shell_command(&inbound[3..].to_vec(), &mut halves_actions);
    assert_eq!(second, Ok(Progress { consumed: 4, closed: true }));
    assert_eq!(halves_actions, whole_actions);
}
