use rust_core::gateway::{
    accept_frame, decode_call, encode_call, error_label, error_response, error_response_for,
    finish_request, gateway_error, member_of, string_member_of, success_response, worker_output,
    FunctionCall, GatewayError, Step,
};
use rust_core::record::QueueError;
use rust_core::segment::{
    create_shared_memory, read_from_input_queue, read_from_output_queue, write_to_input_queue,
};

const CALL: &str =
    "{\"function\":\"f\",\"uuid\":\"u1\",\"args\":{\"x\":1},\"command\":\"/bin/echo\",\"location\":\"hello\"}";

fn invoked(step: Step) -> FunctionCall {
    match step {
        Step::Invoke(call) => call,
        Step::Reply(frame) => panic!("unexpected reply {}", frame),
    }
}

fn replied(step: Step) -> String {
    match step {
        Step::Reply(frame) => frame,
        Step::Invoke(call) => panic!("unexpected invoke {:?}", call),
    }
}

#[test]
fn decode_reads_the_envelope() {
    let call = decode_call(CALL).unwrap();
    assert_eq!(call.function, "f");
    assert_eq!(call.uuid, "u1");
    assert_eq!(call.args, "{\"x\":1}");
    assert_eq!(call.command, "/bin/echo");
    assert_eq!(call.location, "hello");
}

#[test]
fn decode_takes_any_member_order_and_spacing() {
    let text = " { \"location\" : \"l\", \"extra\": [1, 2], \"uuid\":\"u\\\"q\", \"command\":\"c\",\n \"args\": [ 1, \"a b\", null ], \"function\":\"f\" } ";
    let call = decode_call(text).unwrap();
    assert_eq!(call.function, "f");
    assert_eq!(call.uuid, "u\"q");
    assert_eq!(call.args, "[1,\"a b\",null]");
    assert_eq!(call.command, "c");
    assert_eq!(call.location, "l");
}

#[test]
fn decode_refuses_what_is_no_envelope() {
    assert!(decode_call("not json").is_none());
    assert!(decode_call("").is_none());
    assert!(decode_call("[1,2,3]").is_none());
    assert!(decode_call("null").is_none());
    assert!(decode_call("{}").is_none());
    assert!(decode_call("{\"function\":\"f\",\"uuid\":\"u1\",\"args\":{},\"command\":\"c\"}").is_none());
    assert!(decode_call("{\"function\":\"f\",\"uuid\":7,\"args\":{},\"command\":\"c\",\"location\":\"l\"}").is_none());
    assert!(decode_call("{\"function\":\"f\",\"uuid\":\"u\",\"command\":\"c\",\"location\":\"l\"}").is_none());
    assert!(decode_call("{\"function\":\"f\",\"uuid\":\"u1\",\"args\":{},\"command\":\"c\",\"location\":\"l\"").is_none());
}

#[test]
fn encode_gives_compact_text_in_member_order() {
    let call = decode_call(CALL).unwrap();
    assert_eq!(encode_call(&call).unwrap(), CALL);
    let odd = FunctionCall {
        function: "a\"b".to_string(),
        uuid: "line\nbreak".to_string(),
        args: "null".to_string(),
        command: "c\\d".to_string(),
        location: "".to_string(),
    };
    assert_eq!(
        encode_call(&odd).unwrap(),
        "{\"function\":\"a\\\"b\",\"uuid\":\"line\\nbreak\",\"args\":null,\"command\":\"c\\\\d\",\"location\":\"\"}"
    );
    let back = decode_call(&encode_call(&odd).unwrap()).unwrap();
    assert_eq!(back.function, odd.function);
    assert_eq!(back.uuid, odd.uuid);
    assert_eq!(back.args, odd.args);
    assert_eq!(back.command, odd.command);
    assert_eq!(back.location, odd.location);
}

#[test]
fn member_lookup() {
    let members = vec![
        ("a".to_string(), "1".to_string()),
        ("b".to_string(), "\"x\\ty\"".to_string()),
        ("a".to_string(), "2".to_string()),
    ];
    assert_eq!(member_of(&members, "a"), Some("1".to_string()));
    assert_eq!(member_of(&members, "b"), Some("\"x\\ty\"".to_string()));
    assert_eq!(member_of(&members, "c"), None);
    assert_eq!(string_member_of(&members, "b"), Some("x\ty".to_string()));
    assert_eq!(string_member_of(&members, "a"), None);
    assert_eq!(string_member_of(&members, "c"), None);
}

#[test]
fn error_frames() {
    assert_eq!(error_label(GatewayError::Decode), "DecodeError");
    assert_eq!(error_label(GatewayError::Oversize), "OversizeError");
    assert_eq!(error_label(GatewayError::QueueFull), "QueueFullError");
    assert_eq!(error_label(GatewayError::WorkerSpawn), "WorkerSpawnError");
    assert_eq!(error_response(GatewayError::Decode), "{\"error\":\"DecodeError\"}");
    assert_eq!(
        error_response_for("u1", GatewayError::QueueFull),
        "{\"uuid\":\"u1\",\"error\":\"QueueFullError\"}"
    );
    assert_eq!(
        error_response_for("u\"1", GatewayError::WorkerSpawn),
        "{\"uuid\":\"u\\\"1\",\"error\":\"WorkerSpawnError\"}"
    );
    assert_eq!(gateway_error(QueueError::Oversize), GatewayError::Oversize);
    assert_eq!(gateway_error(QueueError::QueueFull), GatewayError::QueueFull);
    assert_eq!(gateway_error(QueueError::InvalidText), GatewayError::Decode);
    assert_eq!(gateway_error(QueueError::NotFound), GatewayError::Decode);
}

#[test]
fn success_frame() {
    assert_eq!(
        success_response("u1", "{\"ok\":true}").unwrap(),
        "{\"uuid\":\"u1\",\"result\":{\"ok\":true}}"
    );
    assert_eq!(success_response("a\\b", "1").unwrap(), "{\"uuid\":\"a\\\\b\",\"result\":1}");
}

#[test]
fn worker_output_is_parsed() {
    assert_eq!(worker_output(None), Err(GatewayError::WorkerSpawn));
    assert_eq!(worker_output(Some(vec![0xff, 0xfe])), Err(GatewayError::Decode));
    assert_eq!(worker_output(Some(b"hello {\"x\":1}\n".to_vec())), Err(GatewayError::Decode));
    assert_eq!(worker_output(Some(Vec::new())), Err(GatewayError::Decode));
    assert_eq!(
        worker_output(Some(b" { \"a\" : [ 1, 2 ] }\n".to_vec())),
        Ok("{\"a\":[1,2]}".to_string())
    );
    assert_eq!(worker_output(Some("\"h\u{e9}\"".as_bytes().to_vec())), Ok("\"h\u{e9}\"".to_string()));
}

#[test]
fn call_is_recorded_then_answered_from_the_worker_output() {
    let mut seg = create_shared_memory();
    let call = invoked(accept_frame(&mut seg, CALL));
    assert_eq!(call.command, "/bin/echo");
    assert_eq!(call.location, "hello");
    assert_eq!(call.args, "{\"x\":1}");
    assert_eq!(call.uuid, "u1");
    assert_eq!(read_from_input_queue(&seg), Ok(CALL.as_bytes().to_vec()));
    assert_eq!(seg.input.slots[0].id(), b"u1".to_vec());
    assert_eq!(read_from_output_queue(&seg), Err(QueueError::NotFound));

    let stdout = b"\"hello {\\\"x\\\":1}\\n\"\n".to_vec();
    let frame = finish_request(&mut seg, &call.uuid, Some(stdout));
    assert_eq!(frame, "{\"uuid\":\"u1\",\"result\":\"hello {\\\"x\\\":1}\\n\"}");
    assert_eq!(read_from_output_queue(&seg), Ok(frame.as_bytes().to_vec()));
    assert_eq!(seg.output.slots[0].id(), b"u1".to_vec());
    assert_eq!(read_from_input_queue(&seg), Ok(CALL.as_bytes().to_vec()));
}

#[test]
fn output_that_is_no_json_is_a_decode_error() {
    let mut seg = create_shared_memory();
    let call = invoked(accept_frame(&mut seg, CALL));
    let frame = finish_request(&mut seg, &call.uuid, Some(b"hello {\"x\":1}\n".to_vec()));
    assert_eq!(frame, "{\"uuid\":\"u1\",\"error\":\"DecodeError\"}");
    assert_eq!(read_from_output_queue(&seg), Err(QueueError::NotFound));
    let frame = finish_request(&mut seg, &call.uuid, Some(vec![0x80]));
    assert_eq!(frame, "{\"uuid\":\"u1\",\"error\":\"DecodeError\"}");
    let frame = finish_request(&mut seg, &call.uuid, None);
    assert_eq!(frame, "{\"uuid\":\"u1\",\"error\":\"WorkerSpawnError\"}");
    assert_eq!(read_from_output_queue(&seg), Err(QueueError::NotFound));
}

#[test]
fn malformed_frame_is_answered_and_the_next_frame_is_taken() {
    let mut seg = create_shared_memory();
    let frame = replied(accept_frame(&mut seg, "{\"function\": oops"));
    assert_eq!(frame, "{\"error\":\"DecodeError\"}");
    assert_eq!(read_from_input_queue(&seg), Err(QueueError::NotFound));
    assert_eq!(seg.input.occupied(), 0);
    let call = invoked(accept_frame(&mut seg, CALL));
    assert_eq!(call.uuid, "u1");
    assert_eq!(seg.input.occupied(), 1);
}

#[test]
fn call_that_does_not_fit_ends_with_an_error_frame() {
    let mut seg = create_shared_memory();
    let long_id = "u".repeat(37);
    let text = format!(
        "{{\"function\":\"f\",\"uuid\":\"{}\",\"args\":null,\"command\":\"c\",\"location\":\"l\"}}",
        long_id
    );
    let frame = replied(accept_frame(&mut seg, &text));
    assert_eq!(frame, format!("{{\"uuid\":\"{}\",\"error\":\"OversizeError\"}}", long_id));
    let big = format!(
        "{{\"function\":\"f\",\"uuid\":\"u2\",\"args\":\"{}\",\"command\":\"c\",\"location\":\"l\"}}",
        "a".repeat(300)
    );
    let frame = replied(accept_frame(&mut seg, &big));
    assert_eq!(frame, "{\"uuid\":\"u2\",\"error\":\"OversizeError\"}");
    let nul = "{\"function\":\"f\",\"uuid\":\"a\\u0000b\",\"args\":null,\"command\":\"c\",\"location\":\"l\"}";
    let frame = replied(accept_frame(&mut seg, nul));
    assert_eq!(frame, "{\"uuid\":\"a\\u0000b\",\"error\":\"DecodeError\"}");
    assert_eq!(seg.input.occupied(), 0);
}

#[test]
fn full_input_queue_ends_the_request() {
    let mut seg = create_shared_memory();
    for i in 0..100 {
        write_to_input_queue(&mut seg, format!("k{}", i).as_bytes(), b"x").unwrap();
    }
    let frame = replied(accept_frame(&mut seg, CALL));
    assert_eq!(frame, "{\"uuid\":\"u1\",\"error\":\"QueueFullError\"}");
    assert_eq!(seg.input.occupied(), 100);
}

#[test]
fn full_output_queue_does_not_hold_the_response_back() {
    let mut seg = create_shared_memory();
    for i in 0..100 {
        rust_core::segment::write_to_output_queue(&mut seg, format!("k{}", i).as_bytes(), b"x").unwrap();
    }
    let frame = finish_request(&mut seg, "u1", Some(b"42".to_vec()));
    assert_eq!(frame, "{\"uuid\":\"u1\",\"result\":42}");
    assert_eq!(seg.output.occupied(), 100);
    assert_eq!(read_from_output_queue(&seg), Ok(b"x".to_vec()));
}
