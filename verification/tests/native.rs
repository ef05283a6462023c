use patchbay::infiniband::console::{PromptStep, Response, ResponseError, MAX_RESPONSE};
use patchbay::infiniband::control::{
    address, exchange, next_connection, sockets, take_connection, Client, ControlError, ReplyKind,
    RequestKind, FIRST_CONNECTION, LAST_CONNECTION,
};
use patchbay::infiniband::process::{signal, try_wait, Child, ReapStep, SignalStep};

fn feed(bytes: &[u8]) -> (Response, PromptStep) {
    let mut response = Response::new();
    let mut step = PromptStep::More;
    for b in bytes {
        assert_eq!(step, PromptStep::More);
        step = response.push(*b);
    }
    (response, step)
}

#[test]
fn responses_end_at_the_prompt() {
    let (response, step) = feed(b"Unlinked\nsim> ");
    assert_eq!(step, PromptStep::Complete);
    assert_eq!(response.bytes(), b"Unlinked\nsim> ");
    assert_eq!(response.text().unwrap(), "Unlinked\n");
    let (response, step) = feed(b"sim> ");
    assert_eq!(step, PromptStep::Complete);
    assert_eq!(response.text().unwrap(), "");
    let (response, _) = feed("é€\u{10348}sim> ".as_bytes());
    assert_eq!(response.text().unwrap(), "é€\u{10348}");
}

#[test]
fn other_responses_are_refused() {
    let (response, step) = feed(b"sim>");
    assert_eq!(step, PromptStep::More);
    assert!(matches!(response.text(), Err(ResponseError::NoPrompt)));
    let (response, step) = feed(b"a\xffsim> ");
    assert_eq!(step, PromptStep::Complete);
    assert_eq!(
        response.text().unwrap_err().message(),
        String::from_utf8(b"a\xff".to_vec()).unwrap_err().to_string()
    );
    let (response, _) = feed(b"\xed\xa0\x80sim> ");
    assert!(matches!(response.text(), Err(ResponseError::NotUtf8(_))));
}

#[test]
fn responses_are_bounded() {
    let (mut response, step) = feed(&vec![b'x'; MAX_RESPONSE]);
    assert_eq!(step, PromptStep::More);
    assert_eq!(response.push(b'x'), PromptStep::TooLarge);
    let mut longest = vec![b'x'; MAX_RESPONSE - 4];
    longest.extend_from_slice(b"sim> ");
    assert_eq!(longest.len(), MAX_RESPONSE + 1);
    assert_eq!(feed(&longest).1, PromptStep::Complete);
}

#[test]
fn connection_numbers_end() {
    assert_eq!(FIRST_CONNECTION, 0x4000_0000);
    assert_eq!(next_connection(FIRST_CONNECTION), Some(0x4000_0001));
    assert_eq!(next_connection(i32::MAX as u32 - 1), Some(i32::MAX as u32));
    assert_eq!(next_connection(i32::MAX as u32), None);
    assert_eq!(next_connection(u32::MAX), None);
    assert_eq!(ControlError::TooManyConnections.text(), "ibsim connection ID overflow");
}

#[test]
fn sockets_have_native_names() {
    assert_eq!(address("a"), b"a\0");
    let s = sockets("pb-7-0", 0x4000_0000);
    assert_eq!(s.data, b"pb-7-0:in1073741824\0");
    assert_eq!(s.control, b"pb-7-0:ctl1073741824\0");
    assert_eq!(s.server, b"pb-7-0:ctl\0");
    assert_ne!(sockets("pb-7-0", 1).data, sockets("pb-7-0", 11).data);
}

#[test]
fn only_the_reply_to_a_request_is_taken() {
    let connect = RequestKind::Connect;
    assert_eq!(exchange(connect, 5, ReplyKind::Connect, 5), Ok(()));
    assert_eq!(exchange(RequestKind::GetPort, 5, ReplyKind::GetPort, 5), Ok(()));
    for (kind, client) in [
        (ReplyKind::Connect, 6),
        (ReplyKind::GetPort, 5),
        (ReplyKind::Error, 5),
        (ReplyKind::Other, 5),
    ] {
        assert_eq!(exchange(connect, 5, kind, client), Err(ControlError::Mismatch));
    }
}

#[test]
fn clients_are_attached_where_they_asked() {
    assert_eq!(Client::attached(3, 10, b"h1", "h1"), Ok(Client { id: 3 }));
    let wrong = Err(ControlError::UnexpectedEndpoint);
    assert_eq!(Client::attached(10, 10, b"h1", "h1"), wrong);
    assert_eq!(Client::attached(3, 10, b"h2", "h1"), wrong);
    assert_eq!(Client::attached(3, 10, b"h1\0", "h1"), wrong);
}

#[test]
fn groups_are_killed_before_their_leader_is_reaped() {
    let child = |has_id, running, group_killed| try_wait(Child { has_id, running, group_killed });
    assert_eq!(child(true, None, false), ReapStep::Probe);
    assert_eq!(child(true, Some(true), false), ReapStep::Running);
    assert_eq!(child(true, Some(false), false), ReapStep::KillGroup);
    assert_eq!(child(true, Some(false), true), ReapStep::Reap);
    assert_eq!(child(false, None, false), ReapStep::Reap);
}

#[test]
fn connections_take_their_numbers_in_turn() {
    let mut counter = FIRST_CONNECTION;
    let a = take_connection(&mut counter, "pb-7-0").unwrap();
    let b = take_connection(&mut counter, "pb-7-0").unwrap();
    assert_eq!((a.id, b.id), (0x4000_0000, 0x4000_0001));
    assert_eq!(b.sockets.data, b"pb-7-0:in1073741825\0");
    assert_ne!(a.sockets.control, b.sockets.control);
    counter = LAST_CONNECTION - 1;
    assert_eq!(take_connection(&mut counter, "x").unwrap().id, LAST_CONNECTION - 1);
    for _ in 0..2 {
        let refused = take_connection(&mut counter, "x").unwrap_err();
        assert_eq!(refused, ControlError::TooManyConnections);
        assert_eq!(counter, LAST_CONNECTION);
    }
}

#[test]
fn only_children_with_an_identity_are_signalled() {
    let child = |has_id| Child { has_id, running: None, group_killed: false };
    assert_eq!(signal(child(true)), SignalStep::Kill);
    assert_eq!(signal(child(false)), SignalStep::Leave);
}
