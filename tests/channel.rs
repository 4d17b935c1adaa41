use sync_toolkit::channel::{Channel, RecvError};

#[test]
fn send_then_recv_hi() {
    let mut ch: Channel<String> = Channel::create_channel();
    assert!(ch.send(String::from("hi")).is_ok());
    ch.drop_sender();
    assert_eq!(ch.try_recv().ok(), Some(String::from("hi")));
    assert_eq!(ch.try_recv().err(), Some(RecvError::RecvClosed));
}

#[test]
fn fifo_order_is_kept() {
    let mut ch: Channel<u32> = Channel::create_channel();
    for m in [5u32, 1, 9, 9, 2] {
        assert!(ch.send(m).is_ok());
    }
    assert_eq!(ch.pending(), 5);
    let mut got = Vec::new();
    for _ in 0..5 {
        got.push(ch.try_recv().ok().unwrap());
    }
    assert_eq!(got, vec![5, 1, 9, 9, 2]);
    assert_eq!(ch.pending(), 0);
}

#[test]
fn empty_open_channel_would_block() {
    let mut ch: Channel<u8> = Channel::create_channel();
    assert_eq!(ch.try_recv().err(), Some(RecvError::WouldBlock));
}

#[test]
fn closed_after_all_senders_dropped() {
    let mut ch: Channel<u8> = Channel::create_channel();
    ch.clone_sender();
    ch.clone_sender();
    assert_eq!(ch.sender_count(), 3);
    ch.drop_sender();
    ch.drop_sender();
    assert_eq!(ch.try_recv().err(), Some(RecvError::WouldBlock));
    ch.drop_sender();
    assert_eq!(ch.try_recv().err(), Some(RecvError::RecvClosed));
}

#[test]
fn buffered_messages_outlive_senders() {
    let mut ch: Channel<u8> = Channel::create_channel();
    assert!(ch.send(7).is_ok());
    ch.drop_sender();
    assert_eq!(ch.try_recv().ok(), Some(7));
    assert_eq!(ch.try_recv().err(), Some(RecvError::RecvClosed));
}

#[test]
fn send_after_receiver_dropped_fails() {
    let mut ch: Channel<String> = Channel::create_channel();
    assert!(ch.send(String::from("kept")).is_ok());
    ch.drop_receiver();
    assert!(!ch.receiver_alive());
    assert_eq!(ch.pending(), 0);
    let err = ch.send(String::from("lost")).err().unwrap();
    assert_eq!(err.0, "lost");
    assert_eq!(ch.pending(), 0);
}

#[test]
fn multiple_senders_share_one_buffer() {
    let mut ch: Channel<&str> = Channel::create_channel();
    ch.clone_sender();
    assert!(ch.send("a").is_ok());
    assert!(ch.send("b").is_ok());
    ch.drop_sender();
    assert!(ch.send("c").is_ok());
    ch.drop_sender();
    assert_eq!(ch.try_recv().ok(), Some("a"));
    assert_eq!(ch.try_recv().ok(), Some("b"));
    assert_eq!(ch.try_recv().ok(), Some("c"));
    assert_eq!(ch.try_recv().err(), Some(RecvError::RecvClosed));
}
