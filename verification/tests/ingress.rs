use binance_book::ingress::{route, CloseReason, Frame, Routed};

#[test]
fn text_is_handed_on_as_payload() {
    assert_eq!(
        route(Frame::Text(String::from("{\"e\":\"depthUpdate\"}"))),
        Routed::Payload(String::from("{\"e\":\"depthUpdate\"}"))
    );
}

#[test]
fn ping_is_answered_with_the_same_payload() {
    assert_eq!(route(Frame::Ping(vec![1, 2, 3])), Routed::Pong(vec![1, 2, 3]));
    assert_eq!(route(Frame::Ping(vec![])), Routed::Pong(vec![]));
}

#[test]
fn close_is_echoed() {
    let reason = CloseReason { status_code: 1001, reason: String::from("going away") };
    assert_eq!(route(Frame::Close(Some(reason.clone()))), Routed::CloseEcho(Some(reason)));
    assert_eq!(route(Frame::Close(None)), Routed::CloseEcho(None));
}

#[test]
fn other_frames_call_for_nothing() {
    assert_eq!(route(Frame::Pong(vec![9])), Routed::Nothing);
    assert_eq!(route(Frame::Binary(vec![0, 1])), Routed::Nothing);
}
