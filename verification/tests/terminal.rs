use euthergate::terminal::{
    open_terminal, read_pty, terminal_socket, ClientControl, History, OutputRelay, PtyRead,
    TerminalAction, TerminalEvent, TerminalSize, HISTORY_LIMIT, RELAY_CAPACITY,
};
use tokio::sync::broadcast::error::TryRecvError;

#[test]
fn history_keeps_the_recent_output() {
    let mut history = History::new();
    assert_eq!(history.replay(), Vec::<u8>::new());
    history.record(&b"hello ".to_vec());
    history.record(&b"world".to_vec());
    assert_eq!(history.replay(), b"hello world".to_vec());
}

#[test]
fn history_is_bounded() {
    let mut history = History::new();
    let mut all: Vec<u8> = Vec::new();
    for round in 0..40u32 {
        let chunk: Vec<u8> = (0..8192u32).map(|i| ((i * 7 + round) % 251) as u8).collect();
        history.record(&chunk);
        all.extend_from_slice(&chunk);
    }
    assert_eq!(HISTORY_LIMIT, 262144);
    assert_eq!(history.replay().len(), HISTORY_LIMIT);
    assert_eq!(history.replay(), all[all.len() - HISTORY_LIMIT..].to_vec());
}

#[test]
fn one_chunk_over_the_limit_keeps_its_end() {
    let mut history = History::new();
    history.record(&vec![1; 10]);
    let mut chunk = vec![2; HISTORY_LIMIT];
    chunk.push(3);
    history.record(&chunk);
    let kept = history.replay();
    assert_eq!(kept.len(), HISTORY_LIMIT);
    assert_eq!(kept[0], 2);
    assert_eq!(kept[HISTORY_LIMIT - 1], 3);
}

#[test]
fn reads_are_recorded_and_handed_on() {
    let mut relay = OutputRelay::new();
    let buffer = b"abcdef".to_vec();
    assert!(read_pty(&mut relay, &buffer, PtyRead::Bytes(4)));
    let (replay, mut viewer) = relay.replay_and_subscribe();
    assert_eq!(replay, b"abcd".to_vec());
    assert!(!read_pty(&mut relay, &buffer, PtyRead::Bytes(0)));
    assert!(!read_pty(&mut relay, &buffer, PtyRead::Failed));
    assert!(read_pty(&mut relay, &buffer, PtyRead::Bytes(6)));
    assert_eq!(viewer.try_recv(), Ok(b"abcdef".to_vec()));
    assert_eq!(viewer.try_recv(), Err(TryRecvError::Empty));
    assert_eq!(relay.replay_and_subscribe().0, b"abcdabcdef".to_vec());
}

#[test]
fn every_viewer_gets_each_chunk_once() {
    let mut relay = OutputRelay::new();
    assert_eq!(relay.replay_and_subscribe().0, Vec::<u8>::new());
    relay.relay(b"one".to_vec());
    let (first_replay, mut first) = relay.replay_and_subscribe();
    assert_eq!(first_replay, b"one".to_vec());
    relay.relay(b"two".to_vec());
    let (second_replay, mut second) = relay.replay_and_subscribe();
    assert_eq!(second_replay, b"onetwo".to_vec());
    relay.relay(b"three".to_vec());
    assert_eq!(first.try_recv(), Ok(b"two".to_vec()));
    assert_eq!(first.try_recv(), Ok(b"three".to_vec()));
    assert_eq!(first.try_recv(), Err(TryRecvError::Empty));
    assert_eq!(second.try_recv(), Ok(b"three".to_vec()));
    assert_eq!(second.try_recv(), Err(TryRecvError::Empty));
    drop(first);
    relay.relay(b"four".to_vec());
    drop(second);
    relay.relay(b"five".to_vec());
    let (replay, mut late) = relay.replay_and_subscribe();
    assert_eq!(replay, b"onetwothreefourfive".to_vec());
    assert_eq!(late.try_recv(), Err(TryRecvError::Empty));
    drop(relay);
    assert_eq!(late.try_recv(), Err(TryRecvError::Closed));
}

#[test]
fn slow_viewers_have_the_promised_room() {
    let mut relay = OutputRelay::new();
    assert_eq!(RELAY_CAPACITY, 256);
    let (_, mut viewer) = relay.replay_and_subscribe();
    for i in 0..RELAY_CAPACITY {
        relay.relay(vec![i as u8]);
    }
    for i in 0..RELAY_CAPACITY {
        assert_eq!(viewer.try_recv(), Ok(vec![i as u8]));
    }
    for i in 0..RELAY_CAPACITY + 3 {
        relay.relay(vec![i as u8]);
    }
    assert_eq!(viewer.try_recv(), Err(TryRecvError::Lagged(3)));
    assert_eq!(viewer.try_recv(), Ok(vec![3]));
}

#[test]
fn replay_is_bounded_while_chunks_are_relayed() {
    let mut relay = OutputRelay::new();
    let (_, _viewer) = relay.replay_and_subscribe();
    relay.relay(vec![1; HISTORY_LIMIT]);
    relay.relay(vec![2; 5]);
    let (replay, _) = relay.replay_and_subscribe();
    assert_eq!(replay.len(), HISTORY_LIMIT);
    assert_eq!(replay[HISTORY_LIMIT - 6..].to_vec(), vec![1, 2, 2, 2, 2, 2]);
}

#[test]
fn viewer_sees_the_replay_and_what_follows() {
    let mut history = History::new();
    history.record(&b"before ".to_vec());
    let mut seen: Vec<u8> = Vec::new();
    match open_terminal(history.replay()) {
        TerminalAction::Send(bytes) => seen.extend(bytes),
        _ => panic!("replay is sent"),
    }
    for chunk in [b"one ".to_vec(), b"two".to_vec()] {
        match terminal_socket(TerminalEvent::Output(chunk)) {
            TerminalAction::Send(bytes) => seen.extend(bytes),
            _ => panic!("output is sent"),
        }
    }
    assert_eq!(seen, b"before one two".to_vec());
    assert!(matches!(open_terminal(Vec::new()), TerminalAction::Wait));
}

#[test]
fn sizes_are_brought_within_the_limits() {
    let size = |cols, rows| {
        let size = TerminalSize::resize(cols, rows);
        (size.cols, size.rows)
    };
    assert_eq!(size(80, 24), (80, 24));
    assert_eq!(size(0, 0), (20, 5));
    assert_eq!(size(20, 5), (20, 5));
    assert_eq!(size(500, 300), (500, 300));
    assert_eq!(size(65535, 301), (500, 300));
    assert_eq!(TerminalSize::initial(), TerminalSize { cols: 120, rows: 30 });
}

#[test]
fn terminal_events_lead_to_their_actions() {
    assert!(matches!(
        terminal_socket(TerminalEvent::Input(b"ls\n".to_vec())),
        TerminalAction::Write(bytes) if bytes == b"ls\n".to_vec()
    ));
    assert!(matches!(
        terminal_socket(TerminalEvent::Control(Some(ClientControl::Resize { cols: 9, rows: 9 }))),
        TerminalAction::Resize(TerminalSize { cols: 20, rows: 9 })
    ));
    for event in [
        TerminalEvent::Control(None),
        TerminalEvent::Lagged(3),
        TerminalEvent::Other,
        TerminalEvent::ResizeFailed,
    ] {
        assert!(matches!(terminal_socket(event), TerminalAction::Wait));
    }
    for event in [
        TerminalEvent::OutputClosed,
        TerminalEvent::Closed,
        TerminalEvent::SocketFailed,
        TerminalEvent::SendFailed,
        TerminalEvent::WriteFailed,
    ] {
        assert!(matches!(terminal_socket(event), TerminalAction::Stop));
    }
}
