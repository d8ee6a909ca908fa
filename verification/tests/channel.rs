use surff::channel::{Channel, RecvError};
use surff::message::Message;

fn job_of(message: Message<u32>) -> Option<u32> {
    match message {
        Message::NewJob(job) => Some(job),
        Message::Terminate => None,
    }
}

#[test]
fn new_channel_is_empty_with_both_sides() {
    let channel: Channel<u32> = Channel::new();
    assert_eq!(channel.pending(), 0);
    assert_eq!(channel.receivers(), 1);
    assert!(channel.sender_alive());
}

#[test]
fn messages_come_out_in_the_order_sent() {
    let mut channel: Channel<u32> = Channel::new();
    assert!(channel.send(Message::NewJob(7)).is_ok());
    assert!(channel.send(Message::NewJob(3)).is_ok());
    assert!(channel.send(Message::Terminate).is_ok());
    assert!(channel.send(Message::NewJob(9)).is_ok());
    assert_eq!(channel.pending(), 4);
    assert_eq!(job_of(channel.recv().unwrap()), Some(7));
    assert_eq!(job_of(channel.recv().unwrap()), Some(3));
    assert!(channel.recv().unwrap().is_terminate());
    assert_eq!(job_of(channel.recv().unwrap()), Some(9));
    assert_eq!(channel.pending(), 0);
}

#[test]
fn send_keeps_every_message() {
    let mut channel: Channel<u32> = Channel::new();
    for job in 0..100u32 {
        assert!(channel.send(Message::NewJob(job)).is_ok());
    }
    assert_eq!(channel.pending(), 100);
    for job in 0..100u32 {
        assert_eq!(job_of(channel.recv().unwrap()), Some(job));
    }
    assert_eq!(channel.recv().err(), Some(RecvError::Empty));
}

#[test]
fn recv_on_empty_channel_says_empty_while_sender_lives() {
    let mut channel: Channel<u32> = Channel::new();
    assert_eq!(channel.recv().err(), Some(RecvError::Empty));
    assert_eq!(channel.pending(), 0);
    assert_eq!(channel.receivers(), 1);
    assert!(channel.sender_alive());
}

#[test]
fn recv_after_sender_is_gone_drains_then_disconnects() {
    let mut channel: Channel<u32> = Channel::new();
    assert!(channel.send(Message::NewJob(1)).is_ok());
    channel.close_sender();
    assert!(!channel.sender_alive());
    assert_eq!(channel.pending(), 1);
    assert_eq!(job_of(channel.recv().unwrap()), Some(1));
    assert_eq!(channel.recv().err(), Some(RecvError::Disconnected));
    assert_eq!(channel.recv().err(), Some(RecvError::Disconnected));
}

#[test]
fn send_without_receiver_hands_the_message_back() {
    let mut channel: Channel<u32> = Channel::new();
    channel.detach_receiver();
    assert_eq!(channel.receivers(), 0);
    let refused = channel.send(Message::NewJob(42));
    match refused {
        Err(error) => assert_eq!(job_of(error.message), Some(42)),
        Ok(()) => panic!("a channel without receivers took a message"),
    }
    assert_eq!(channel.pending(), 0);
    let refused = channel.send(Message::Terminate);
    match refused {
        Err(error) => assert!(error.message.is_terminate()),
        Ok(()) => panic!("a channel without receivers took a message"),
    }
    assert_eq!(channel.pending(), 0);
}

#[test]
fn receivers_are_counted_up_and_down() {
    let mut channel: Channel<u32> = Channel::new();
    channel.attach_receiver();
    channel.attach_receiver();
    assert_eq!(channel.receivers(), 3);
    channel.detach_receiver();
    assert_eq!(channel.receivers(), 2);
    channel.detach_receiver();
    channel.detach_receiver();
    assert_eq!(channel.receivers(), 0);
    channel.detach_receiver();
    assert_eq!(channel.receivers(), 0);
    channel.attach_receiver();
    assert_eq!(channel.receivers(), 1);
    assert!(channel.send(Message::NewJob(5)).is_ok());
    assert_eq!(channel.pending(), 1);
}

#[test]
fn counting_receivers_leaves_queue_and_sender_alone() {
    let mut channel: Channel<u32> = Channel::new();
    assert!(channel.send(Message::NewJob(11)).is_ok());
    channel.attach_receiver();
    channel.detach_receiver();
    channel.detach_receiver();
    assert_eq!(channel.pending(), 1);
    assert!(channel.sender_alive());
    assert_eq!(job_of(channel.recv().unwrap()), Some(11));
}

#[test]
fn message_job_wraps_and_is_told_apart() {
    let message = Message::job(17u32);
    assert!(!message.is_terminate());
    assert_eq!(job_of(message), Some(17));
    let stop: Message<u32> = Message::Terminate;
    assert!(stop.is_terminate());
}
