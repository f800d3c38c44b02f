use std::cell::Cell;
use std::rc::Rc;

use sync_primitives::channel::{
    begin_receive, begin_send, holds_unread, ChannelError, ChannelState, Channcel, EMPTY, READING,
    READY, WRITING,
};

struct DetectDrop {
    drops: Rc<Cell<usize>>,
}

impl Drop for DetectDrop {
    fn drop(&mut self) {
        self.drops.set(self.drops.get() + 1);
    }
}

#[test]
fn panic_safe_version_test() {
    let mut channel = Channcel::new();
    assert!(!channel.is_ready());
    assert_eq!(channel.send("hello world"), Ok(()));
    assert!(channel.is_ready());
    assert_eq!(channel.receive(), Ok("hello world"));
}

#[test]
fn send_then_receive_delivers_the_value_once() {
    let mut channel = Channcel::new();
    assert_eq!(channel.state(), ChannelState::Empty);
    assert_eq!(channel.send(42u64), Ok(()));
    assert_eq!(channel.state(), ChannelState::Ready);
    assert_eq!(channel.receive(), Ok(42));
    assert_eq!(channel.state(), ChannelState::Reading);
    assert!(!channel.is_ready());
    assert_eq!(channel.receive(), Err(ChannelError::AlreadyReceived));
    assert_eq!(channel.receive(), Err(ChannelError::AlreadyReceived));
}

#[test]
fn second_send_is_refused() {
    let mut channel = Channcel::new();
    assert_eq!(channel.send(1u8), Ok(()));
    assert_eq!(channel.send(2u8), Err(ChannelError::AlreadySent));
    assert_eq!(channel.receive(), Ok(1));
    assert_eq!(channel.send(3u8), Err(ChannelError::AlreadySent));
}

#[test]
fn receive_before_send_is_not_ready() {
    let mut channel: Channcel<String> = Channcel::new();
    assert_eq!(channel.receive(), Err(ChannelError::NotReady));
    assert_eq!(channel.state(), ChannelState::Empty);
    assert_eq!(channel.send(String::from("late")), Ok(()));
    assert_eq!(channel.receive(), Ok(String::from("late")));
}

#[test]
fn unread_value_is_dropped_once_with_the_channel() {
    let drops = Rc::new(Cell::new(0));
    let mut channel = Channcel::new();
    assert!(channel.send(DetectDrop { drops: drops.clone() }).is_ok());
    assert_eq!(drops.get(), 0);
    drop(channel);
    assert_eq!(drops.get(), 1);
}

#[test]
fn received_value_is_not_dropped_again() {
    let drops = Rc::new(Cell::new(0));
    let mut channel = Channcel::new();
    assert!(channel.send(DetectDrop { drops: drops.clone() }).is_ok());
    let value = channel.receive();
    assert!(value.is_ok());
    drop(channel);
    assert_eq!(drops.get(), 0);
    drop(value);
    assert_eq!(drops.get(), 1);
}

#[test]
fn refused_send_drops_its_value() {
    let drops = Rc::new(Cell::new(0));
    let mut channel = Channcel::new();
    assert!(channel.send(DetectDrop { drops: drops.clone() }).is_ok());
    assert!(channel.send(DetectDrop { drops: drops.clone() }).is_err());
    assert_eq!(drops.get(), 1);
    drop(channel);
    assert_eq!(drops.get(), 2);
}

#[test]
fn state_tags_round_trip() {
    assert_eq!(ChannelState::Empty.tag(), 0);
    assert_eq!(ChannelState::Ready.tag(), 1);
    assert_eq!(ChannelState::Reading.tag(), 2);
    assert_eq!(ChannelState::Writing.tag(), 3);
    assert_eq!((EMPTY, READY, READING, WRITING), (0, 1, 2, 3));
    for s in [
        ChannelState::Empty,
        ChannelState::Writing,
        ChannelState::Ready,
        ChannelState::Reading,
    ] {
        assert_eq!(ChannelState::from_tag(s.tag()), Some(s));
    }
    assert_eq!(ChannelState::from_tag(4), None);
    assert_eq!(ChannelState::from_tag(255), None);
}

#[test]
fn send_steps_by_state() {
    assert_eq!(begin_send(ChannelState::Empty), Ok(ChannelState::Writing));
    assert_eq!(begin_send(ChannelState::Writing), Err(ChannelError::AlreadySent));
    assert_eq!(begin_send(ChannelState::Ready), Err(ChannelError::AlreadySent));
    assert_eq!(begin_send(ChannelState::Reading), Err(ChannelError::AlreadySent));
}

#[test]
fn receive_steps_by_state() {
    assert_eq!(begin_receive(ChannelState::Empty), Err(ChannelError::NotReady));
    assert_eq!(begin_receive(ChannelState::Writing), Err(ChannelError::NotReady));
    assert_eq!(begin_receive(ChannelState::Ready), Ok(ChannelState::Reading));
    assert_eq!(begin_receive(ChannelState::Reading), Err(ChannelError::AlreadyReceived));
}

#[test]
fn only_a_published_value_is_unread() {
    assert!(!holds_unread(ChannelState::Empty));
    assert!(!holds_unread(ChannelState::Writing));
    assert!(holds_unread(ChannelState::Ready));
    assert!(!holds_unread(ChannelState::Reading));
}
