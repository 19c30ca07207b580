use async_ssh::{ChannelState, HandlerState, OpenProgress};

#[test]
fn two_opens_register_two_fresh_channels() {
    let mut h: HandlerState<String> = HandlerState::new();
    let first = h.open_exec("echo hi", 0);
    let second = h.open_exec("echo hi", 1);
    assert_eq!(first.command, "echo hi");
    assert_eq!(second.command, "echo hi");
    assert_ne!(first.channel_id, second.channel_id);
    assert!(h.has_channel(0));
    assert!(h.has_channel(1));
    for id in [0u32, 1] {
        let c = h.channel(id).unwrap();
        assert!(c.data.is_empty());
        assert!(!c.eof);
        assert!(!c.closed);
        assert_eq!(c.exit_status, None);
    }
}

#[test]
fn open_is_visible_before_request_is_used() {
    let mut h: HandlerState<String> = HandlerState::new();
    let ids = [7u32, 3, 12, 0];
    for id in ids {
        let req = h.open_exec("true", id);
        assert_eq!(req.channel_id, id);
        assert!(h.has_channel(req.channel_id));
    }
    for id in ids {
        assert!(h.has_channel(id));
    }
    assert!(!h.has_channel(4));
}

#[test]
fn last_error_without_failure_is_none_twice() {
    let mut h: HandlerState<String> = HandlerState::new();
    assert_eq!(h.last_error(), None);
    assert_eq!(h.last_error(), None);
}

#[test]
fn last_error_is_taken_once() {
    let mut h: HandlerState<String> = HandlerState::new();
    h.open_exec("ls", 5);
    h.record_error("connection reset".to_string());
    assert_eq!(h.last_error(), Some("connection reset".to_string()));
    assert_eq!(h.last_error(), None);
    assert_eq!(h.last_error(), None);
    assert!(h.has_channel(5));
}

#[test]
fn newer_error_replaces_unread_one() {
    let mut h: HandlerState<u32> = HandlerState::new();
    h.record_error(1);
    h.record_error(2);
    assert_eq!(h.last_error(), Some(2));
    assert_eq!(h.last_error(), None);
    h.record_error(3);
    assert_eq!(h.last_error(), Some(3));
}

#[test]
fn data_goes_to_its_own_channel_only() {
    let mut h: HandlerState<String> = HandlerState::new();
    h.open_exec("cat a", 1);
    h.open_exec("cat b", 2);
    assert!(h.on_data(1, b"hello"));
    assert!(h.on_data(2, b"xy"));
    assert!(h.on_data(1, b" world"));
    assert_eq!(h.channel(1).unwrap().data, b"hello world".to_vec());
    assert_eq!(h.channel(2).unwrap().data, b"xy".to_vec());
    assert_eq!(h.read(2, 10), Some(b"xy".to_vec()));
    assert_eq!(h.read(1, 5), Some(b"hello".to_vec()));
    assert_eq!(h.read(1, 100), Some(b" world".to_vec()));
    assert_eq!(h.read(1, 100), Some(Vec::new()));
}

#[test]
fn events_for_unknown_channel_are_dropped() {
    let mut h: HandlerState<String> = HandlerState::new();
    h.open_exec("true", 1);
    assert!(!h.on_data(9, b"lost"));
    assert!(!h.on_eof(9));
    assert!(!h.on_close(9));
    assert!(!h.on_exit_status(9, 1));
    assert_eq!(h.read(9, 4), None);
    assert!(!h.has_channel(9));
    assert!(h.at_end(9));
    assert!(h.channel(1).unwrap().data.is_empty());
}

#[test]
fn end_of_stream_after_eof_and_drained_buffer() {
    let mut h: HandlerState<String> = HandlerState::new();
    h.open_exec("seq 3", 4);
    assert!(!h.at_end(4));
    assert!(h.on_data(4, b"1\n2\n3\n"));
    assert!(h.on_eof(4));
    assert!(!h.at_end(4));
    assert_eq!(h.read(4, 6), Some(b"1\n2\n3\n".to_vec()));
    assert!(h.at_end(4));
    assert!(h.on_exit_status(4, 0));
    assert!(h.on_close(4));
    let c = h.channel(4).unwrap();
    assert!(c.eof);
    assert!(c.closed);
    assert_eq!(c.exit_status, Some(0));
}

#[test]
fn dropped_request_leaves_session_usable() {
    let mut h: HandlerState<String> = HandlerState::new();
    let dropped = h.open_exec("sleep 10", 1);
    drop(dropped);
    let next = h.open_exec("echo ok", 2);
    assert_eq!(next.channel_id, 2);
    assert_eq!(next.command, "echo ok");
    assert!(h.has_channel(1));
    assert!(h.has_channel(2));
    assert_eq!(h.last_error(), None);
}

#[test]
fn reopening_an_identifier_resets_its_record() {
    let mut h: HandlerState<String> = HandlerState::new();
    h.open_exec("first", 3);
    assert!(h.on_data(3, b"old"));
    assert!(h.on_close(3));
    h.open_exec("second", 3);
    let c = h.channel(3).unwrap();
    assert!(c.data.is_empty());
    assert!(!c.closed);
}

#[test]
fn channel_state_read_limits() {
    let mut c = ChannelState::new();
    assert!(!c.at_end());
    c.push_data(&[1, 2, 3, 4]);
    assert_eq!(c.read(0), Vec::<u8>::new());
    assert_eq!(c.data, vec![1, 2, 3, 4]);
    assert_eq!(c.read(3), vec![1, 2, 3]);
    assert_eq!(c.data, vec![4]);
    assert_eq!(c.read(usize::MAX), vec![4]);
    assert!(c.data.is_empty());
    assert!(!c.at_end());
    c.mark_closed();
    assert!(c.at_end());
    c.set_exit_status(127);
    assert_eq!(c.exit_status, Some(127));
}

#[test]
fn channel_state_eof_with_pending_data() {
    let mut c = ChannelState::new();
    c.push_data(b"");
    assert!(c.data.is_empty());
    c.push_data(b"z");
    c.mark_eof();
    assert!(!c.at_end());
    assert_eq!(c.read(1), b"z".to_vec());
    assert!(c.at_end());
}

#[test]
fn open_progress_follows_the_record() {
    let mut h: HandlerState<String> = HandlerState::new();
    h.open_exec("uname", 1);
    h.open_exec("nope", 2);
    assert_eq!(h.open_progress(1), OpenProgress::Waiting);
    assert_eq!(h.open_progress(2), OpenProgress::Waiting);
    assert!(h.on_open_confirmation(1));
    assert!(h.on_close(2));
    assert_eq!(h.open_progress(1), OpenProgress::Confirmed);
    assert_eq!(h.open_progress(2), OpenProgress::Refused);
    assert_eq!(h.open_progress(3), OpenProgress::Refused);
    assert!(!h.on_open_confirmation(3));
    assert!(h.channel(1).unwrap().confirmed);
    assert!(!h.channel(2).unwrap().confirmed);
}
