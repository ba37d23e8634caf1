use message_server::codec::{
    decode_add_response, decode_echo, encode_add_request, encode_echo,
};
use message_server::handler::{
    handle_message, handler_step, process_read, run_session, wrapping_sum, HandlerAction,
    ReadEvent,
};
use message_server::messages::{AddRequest, ClientMessage, EchoMessage, ServerMessage};

fn echo_bytes(text: &[u8]) -> Vec<u8> {
    encode_echo(&EchoMessage {
        content: text.to_vec(),
    })
}

#[test]
fn echo_request_is_answered_with_identical_content() {
    let request = echo_bytes(b"Hello, World!");
    let response = process_read(&request).expect("a well-formed echo gets a response");
    let back = decode_echo(&response).expect("the response must decode as an echo");
    assert_eq!(back.content, b"Hello, World!".to_vec());
    // A pure echo: the response bytes are the request bytes.
    assert_eq!(response, request);
}

#[test]
fn add_request_is_answered_with_the_sum() {
    let request = encode_add_request(&AddRequest { a: 10, b: 20 });
    let response = process_read(&request).expect("a well-formed add request gets a response");
    let back = decode_add_response(&response).expect("the response must decode");
    assert_eq!(back.result, 30);
}

#[test]
fn add_overflow_wraps_instead_of_erroring() {
    assert_eq!(wrapping_sum(i32::MAX, 1), i32::MIN);
    assert_eq!(wrapping_sum(i32::MIN, -1), i32::MAX);
    let request = encode_add_request(&AddRequest { a: i32::MAX, b: 1 });
    let response = process_read(&request).expect("the overflowing request still gets a response");
    let back = decode_add_response(&response).expect("the response must decode");
    assert_eq!(back.result, i32::MIN);
}

#[test]
fn handle_message_dispatches_by_variant() {
    let echoed = handle_message(ClientMessage::Echo(EchoMessage {
        content: b"How are you?".to_vec(),
    }));
    match echoed {
        ServerMessage::Echo(e) => assert_eq!(e.content, b"How are you?".to_vec()),
        _ => panic!("an echo request must be answered by an echo"),
    }
    let summed = handle_message(ClientMessage::Add(AddRequest { a: -5, b: 3 }));
    match summed {
        ServerMessage::Add(e) => assert_eq!(e.result, -2),
        _ => panic!("an add request must be answered by an add response"),
    }
}

#[test]
fn undecodable_bytes_get_no_response() {
    assert!(process_read(&[0xff, 0xfe]).is_none());
}

#[test]
fn split_message_fails_to_decode_and_is_dropped() {
    // A message cut across two reads is never reassembled: each half is one
    // decode attempt, and each fails.
    let whole = echo_bytes(b"Hello, World!");
    let (first, second) = whole.split_at(4);
    assert!(process_read(first).is_none());
    assert!(process_read(second).is_none());
}

#[test]
fn handler_step_disconnects_on_zero_bytes() {
    assert!(matches!(
        handler_step(ReadEvent::Disconnected),
        HandlerAction::Disconnect
    ));
}

#[test]
fn handler_step_retries_on_would_block_and_aborts_on_error() {
    assert!(matches!(
        handler_step(ReadEvent::WouldBlock),
        HandlerAction::RetryLater
    ));
    assert!(matches!(handler_step(ReadEvent::Failed), HandlerAction::Abort));
}

#[test]
fn handler_step_replies_to_data_and_ignores_garbage() {
    let request = encode_add_request(&AddRequest { a: 2, b: 2 });
    match handler_step(ReadEvent::Data(request)) {
        HandlerAction::Reply(bytes) => {
            let back = decode_add_response(&bytes).expect("the reply must decode");
            assert_eq!(back.result, 4);
        }
        _ => panic!("well-formed data must be answered"),
    }
    assert!(matches!(
        handler_step(ReadEvent::Data(vec![0xff])),
        HandlerAction::Ignore
    ));
}

#[test]
fn sequential_messages_get_one_response_each_in_order() {
    let reads = vec![
        echo_bytes(b"Hello, World!"),
        echo_bytes(b"How are you?"),
        echo_bytes(b"Goodbye!"),
    ];
    let responses = run_session(&reads);
    assert_eq!(responses.len(), 3);
    for (request, response) in reads.iter().zip(responses.iter()) {
        assert_eq!(request, response);
    }
}

#[test]
fn undecodable_reads_contribute_no_response() {
    let reads = vec![
        echo_bytes(b"Hello, World!"),
        vec![0xff, 0xfe],
        encode_add_request(&AddRequest { a: 10, b: 20 }),
    ];
    let responses = run_session(&reads);
    assert_eq!(responses.len(), 2);
    assert_eq!(responses[0], reads[0]);
    assert_eq!(
        decode_add_response(&responses[1]).expect("must decode").result,
        30
    );
}

#[test]
fn concurrent_sessions_see_only_their_own_responses() {
    // Three clients, each sending its own stream: every session's responses
    // are a function of its own reads alone, so each client gets its own
    // three echoes back whatever the other two send.
    let streams = [
        vec![
            echo_bytes(b"Hello, World!"),
            echo_bytes(b"How are you?"),
            echo_bytes(b"Goodbye!"),
        ],
        vec![
            echo_bytes(b"Goodbye!"),
            echo_bytes(b"Hello, World!"),
            echo_bytes(b"How are you?"),
        ],
        vec![
            echo_bytes(b"How are you?"),
            echo_bytes(b"Goodbye!"),
            echo_bytes(b"Hello, World!"),
        ],
    ];
    for stream in &streams {
        let responses = run_session(stream);
        assert_eq!(&responses, stream);
    }
}
