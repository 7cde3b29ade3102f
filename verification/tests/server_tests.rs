use fanout_broker::command::Command;
use fanout_broker::server::Response;
use fanout_broker::server::ResponseFuture;
use fanout_broker::server::Server;
use fanout_broker::server::nack_msg;

#[test]
fn ack_bytes_are_the_wire_literals() {
    assert_eq!(Response::Ack.as_bytes(), b"ACK");
    assert_eq!(Response::Nack.as_bytes(), b"NACK");
}

#[test]
fn nack_msg_prefixes_the_reason() {
    assert_eq!(nack_msg("queue does not exist"), b"NACK:queue does not exist".to_vec());
    assert_eq!(nack_msg("failed to publish message"), b"NACK:failed to publish message".to_vec());
    assert_eq!(nack_msg(""), b"NACK:".to_vec());
}

#[test]
fn server_acks_decoded_commands() {
    let mut s = Server;
    let f = s.call(Some(Command::StartConsumer { id: "c1".to_string() }));
    assert_eq!(f.response, Response::Ack);
}

#[test]
fn server_nacks_undecodable_frames() {
    let mut s = Server;
    let f = s.call(None);
    assert_eq!(f.response, Response::Nack);
}

#[test]
fn response_future_holds_its_response() {
    let f = ResponseFuture::new(Response::Nack);
    assert_eq!(f.response, Response::Nack);
    let f = ResponseFuture::new(Response::Ack);
    assert_eq!(f.response, Response::Ack);
}
