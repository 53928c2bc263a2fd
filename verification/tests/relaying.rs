use websocket_relay::relay::{
    Downstream, DownstreamEvent, RelayError, Upstream, UpstreamEvent, WsEvent,
};
use websocket_relay::BUFFER_SIZE;

/// Receives messages, lets every writing succeed, and returns what was written.
fn written(messages: Vec<WsEvent>) -> (Vec<Vec<u8>>, Upstream) {
    let mut state = Upstream::Receive;
    let mut written: Vec<Vec<u8>> = Vec::new();
    for message in messages {
        state = state.next(UpstreamEvent::Received(message));
        if let Upstream::Write(data) = &state {
            written.push(data.clone());
            state = state.next(UpstreamEvent::Written);
        }
    }
    (written, state)
}

/// Takes readings, lets every sending succeed, and returns what was sent.
fn sent(readings: Vec<Vec<u8>>) -> (Vec<Vec<u8>>, Downstream) {
    let mut state = Downstream::Read;
    let mut sent: Vec<Vec<u8>> = Vec::new();
    for reading in readings {
        state = state.next(DownstreamEvent::Read(reading));
        if let Downstream::Send(data) = &state {
            sent.push(data.clone());
            state = state.next(DownstreamEvent::Sent);
        }
    }
    (sent, state)
}

#[test]
fn binary_messages_are_written_in_order() {
    let first = b"First message".to_vec();
    let second = b"Second message".to_vec();
    let (written, state) = written(vec![
        WsEvent::Binary(first.clone()),
        WsEvent::Binary(second.clone()),
    ]);
    assert_eq!(written, vec![first, second]);
    assert!(matches!(state, Upstream::Receive));
}

#[test]
fn text_and_control_messages_are_dropped() {
    let data = b"This should reach TCP".to_vec();
    let (written, state) = written(vec![
        WsEvent::Text,
        WsEvent::Control,
        WsEvent::Binary(data.clone()),
        WsEvent::Text,
    ]);
    assert_eq!(written, vec![data]);
    assert!(matches!(state, Upstream::Receive));
}

#[test]
fn closing_ends_the_direction() {
    for end in [
        WsEvent::Close,
        WsEvent::Disconnected,
        WsEvent::Failed,
        WsEvent::Ended,
    ] {
        let (written, state) = written(vec![
            WsEvent::Binary(vec![1]),
            end,
            WsEvent::Binary(vec![2]),
        ]);
        assert_eq!(written, vec![vec![1]]);
        assert!(matches!(state, Upstream::Done));
        assert_eq!(state.outcome(), Some(Ok(())));
    }
}

#[test]
fn failed_writing_fails_the_direction() {
    let state = Upstream::Receive.next(UpstreamEvent::Received(WsEvent::Binary(vec![1])));
    let state = state.next(UpstreamEvent::WriteFailed);
    assert!(matches!(state, Upstream::Failed(RelayError::TcpWrite)));
    assert_eq!(state.outcome(), Some(Err(RelayError::TcpWrite)));
    assert_eq!(
        RelayError::TcpWrite.message(),
        "Failed to write WebSocket data to TCP connection"
    );
    let state = state.next(UpstreamEvent::Written);
    assert!(matches!(state, Upstream::Failed(RelayError::TcpWrite)));
}

#[test]
fn events_out_of_turn_are_ignored() {
    assert!(matches!(Upstream::Receive.next(UpstreamEvent::Written), Upstream::Receive));
    let writing = Upstream::Write(vec![7]).next(UpstreamEvent::Received(WsEvent::Close));
    assert!(matches!(&writing, Upstream::Write(data) if *data == vec![7]));
    assert_eq!(writing.outcome(), None);
    assert!(matches!(Downstream::Read.next(DownstreamEvent::Sent), Downstream::Read));
    let sending = Downstream::Send(vec![7]).next(DownstreamEvent::ReadFailed);
    assert!(matches!(&sending, Downstream::Send(data) if *data == vec![7]));
    assert_eq!(sending.outcome(), None);
}

#[test]
fn readings_are_sent_one_by_one() {
    let data = b"Data from TCP server".to_vec();
    let full = vec![0xab; BUFFER_SIZE];
    let (sent, state) = sent(vec![data.clone(), full.clone()]);
    assert_eq!(sent, vec![data, full]);
    assert!(matches!(state, Downstream::Read));
}

#[test]
fn empty_reading_ends_the_direction() {
    let (sent, state) = sent(vec![vec![1, 2], vec![], vec![3]]);
    assert_eq!(sent, vec![vec![1, 2]]);
    assert!(matches!(state, Downstream::Done));
    assert_eq!(state.outcome(), Some(Ok(())));
}

#[test]
fn failed_reading_ends_the_direction() {
    let state = Downstream::Read.next(DownstreamEvent::ReadFailed);
    assert_eq!(state.outcome(), Some(Ok(())));
}

#[test]
fn failed_sending_fails_the_direction() {
    let state = Downstream::Read.next(DownstreamEvent::Read(vec![1]));
    let state = state.next(DownstreamEvent::SendFailed);
    assert!(matches!(state, Downstream::Failed(RelayError::WsSend)));
    assert_eq!(state.outcome(), Some(Err(RelayError::WsSend)));
    assert_eq!(
        RelayError::WsSend.message(),
        "Failed to send TCP data via WebSocket"
    );
}

#[test]
fn buffer_holds_eight_kibibytes() {
    assert_eq!(BUFFER_SIZE, 8192);
}
