use help_table::chat::{Message, Request, Role};
use help_table::codec::{
    decode_request, encode_request, parse_error_root, parse_reply, parse_response, Reply,
};

fn sample_request() -> Request {
    Request::new(
        String::from("gpt-4"),
        vec![
            Message::system(String::from("hi")),
            Message::user(String::from("there")),
        ],
    )
}

#[test]
fn encode_request_is_the_exact_wire_body() {
    let body = encode_request(&sample_request());
    assert_eq!(
        body,
        "{\"model\":\"gpt-4\",\"messages\":[{\"role\":\"system\",\"content\":\"hi\"},{\"role\":\"user\",\"content\":\"there\"}]}"
    );
}

#[test]
fn encode_request_escapes_content() {
    let req = Request::new(
        String::from("gpt-3.5-turbo"),
        vec![Message::user(String::from("a \"b\"\nc\\d\te\r"))],
    );
    let body = encode_request(&req);
    assert_eq!(
        body,
        "{\"model\":\"gpt-3.5-turbo\",\"messages\":[{\"role\":\"user\",\"content\":\"a \\\"b\\\"\\nc\\\\d\\te\\r\"}]}"
    );
}

#[test]
fn decode_request_inverts_encode_request() {
    let cases = vec![
        sample_request(),
        Request::new(String::from("gpt-4-32k"), Vec::new()),
        Request::new(
            String::from("m \"x\"\\"),
            vec![
                Message::assistant(String::from("")),
                Message::user(String::from("line\nline\ttab \"q\" \\slash")),
                Message::system(String::from("plain")),
            ],
        ),
    ];
    for req in cases {
        let decoded = decode_request(&encode_request(&req)).unwrap();
        assert_eq!(decoded, req);
    }
}

#[test]
fn decode_request_reads_a_handwritten_body() {
    let req = decode_request(
        "{\"model\":\"gpt-4\",\"messages\":[{\"role\":\"assistant\",\"content\":\"ok\"}]}",
    )
    .unwrap();
    assert_eq!(req.model, "gpt-4");
    assert_eq!(req.messages.len(), 1);
    assert!(matches!(req.messages[0].role, Role::Assistant));
    assert_eq!(req.messages[0].content, "ok");
}

#[test]
fn decode_request_refuses_other_text() {
    assert!(decode_request("").is_none());
    assert!(decode_request("{\"model\":\"gpt-4\"}").is_none());
    assert!(decode_request("{\"model\":\"gpt-4\",\"messages\":[]} ").is_none());
    assert!(decode_request("not json at all").is_none());
    // an unknown role token is outside the grammar
    assert!(decode_request(
        "{\"model\":\"gpt-4\",\"messages\":[{\"role\":\"moderator\",\"content\":\"x\"}]}"
    )
    .is_none());
    // an unfinished escape is outside the grammar
    assert!(decode_request("{\"model\":\"gpt-4\\").is_none());
}

#[test]
fn empty_message_list_encodes_to_an_empty_array() {
    let req = Request::new(String::from("gpt-4-32k"), Vec::new());
    let body = encode_request(&req);
    assert_eq!(body, "{\"model\":\"gpt-4-32k\",\"messages\":[]}");
    assert_eq!(decode_request(&body).unwrap(), req);
}

const SUCCESS_BODY: &str = "{\"id\":\"cmpl-1\",\"object\":\"chat.completion\",\"created\":1700000000,\"model\":\"gpt-4\",\"choices\":[{\"message\":{\"role\":\"assistant\",\"content\":\"| short | long |\"},\"finish_reason\":\"stop\",\"index\":0}],\"usage\":null}";

#[test]
fn parse_response_reads_a_success_body() {
    let resp = parse_response(SUCCESS_BODY).unwrap();
    assert_eq!(resp.id, "cmpl-1");
    assert_eq!(resp.object, "chat.completion");
    assert_eq!(resp.created, 1700000000);
    assert_eq!(resp.model, "gpt-4");
    assert_eq!(resp.choices.len(), 1);
    assert!(matches!(resp.choices[0].message.role, Role::Assistant));
    assert_eq!(resp.choices[0].message.content, "| short | long |");
    assert_eq!(resp.choices[0].finish_reason, "stop");
    assert_eq!(resp.choices[0].index, 0);
    assert!(resp.usage.is_none());
}

#[test]
fn parse_response_reads_usage_and_many_choices() {
    let body = "{\"id\":\"x\",\"object\":\"chat.completion\",\"created\":-5,\"model\":\"gpt-3.5-turbo\",\"choices\":[{\"message\":{\"role\":\"assistant\",\"content\":\"a\"},\"finish_reason\":\"stop\",\"index\":0},{\"message\":{\"role\":\"assistant\",\"content\":\"b\"},\"finish_reason\":\"length\",\"index\":1}],\"usage\":{\"prompt_tokens\":12,\"completion_tokens\":34,\"total_tokens\":46}}";
    let resp = parse_response(body).unwrap();
    assert_eq!(resp.created, -5);
    assert_eq!(resp.choices.len(), 2);
    assert_eq!(resp.choices[1].message.content, "b");
    assert_eq!(resp.choices[1].index, 1);
    let usage = resp.usage.unwrap();
    assert_eq!(usage.prompt_tokens, 12);
    assert_eq!(usage.completion_tokens, 34);
    assert_eq!(usage.total_tokens, 46);
}

#[test]
fn parse_response_refuses_other_text() {
    assert!(parse_response("").is_none());
    // a required member is missing
    assert!(parse_response("{\"id\":\"x\"}").is_none());
    // trailing text after the object
    let with_trailing = format!("{} x", SUCCESS_BODY);
    assert!(parse_response(&with_trailing).is_none());
    // a repeated member
    assert!(parse_response(
        "{\"id\":\"x\",\"id\":\"y\",\"object\":\"o\",\"created\":0,\"model\":\"m\",\"choices\":[],\"usage\":null}"
    )
    .is_none());
    // a number past the range of the field is outside the grammar
    let huge = "{\"id\":\"x\",\"object\":\"o\",\"created\":99999999999999999999,\"model\":\"m\",\"choices\":[],\"usage\":null}";
    assert!(parse_response(huge).is_none());
    // the error envelope is not a success body
    assert!(parse_response(ERROR_BODY).is_none());
}

#[test]
fn parse_response_accepts_general_json_of_the_shape() {
    // members reordered, whitespace and newlines between tokens, an unknown
    // member skipped, and no usage member at all
    let body = "{\n  \"model\": \"gpt-4\",\n  \"created\": 1700000000,\n  \"choices\": [ {\n      \"index\": 0,\n      \"finish_reason\": \"stop\",\n      \"message\": { \"content\": \"| a |\", \"role\": \"assistant\" }\n  } ],\n  \"system_fingerprint\": [\"ignored\", {\"deep\": null}, 1.5e3],\n  \"object\": \"chat.completion\",\n  \"id\": \"cmpl-2\"\n}\n";
    let resp = parse_response(body).unwrap();
    assert_eq!(resp.id, "cmpl-2");
    assert_eq!(resp.object, "chat.completion");
    assert_eq!(resp.created, 1700000000);
    assert_eq!(resp.model, "gpt-4");
    assert_eq!(resp.choices.len(), 1);
    assert!(matches!(resp.choices[0].message.role, Role::Assistant));
    assert_eq!(resp.choices[0].message.content, "| a |");
    assert_eq!(resp.choices[0].finish_reason, "stop");
    assert_eq!(resp.choices[0].index, 0);
    assert!(resp.usage.is_none());
}

#[test]
fn parse_response_reads_an_empty_choice_array() {
    let body = "{\"id\":\"x\",\"object\":\"o\",\"created\":0,\"model\":\"m\",\"choices\":[],\"usage\":null}";
    let resp = parse_response(body).unwrap();
    assert!(resp.choices.is_empty());
}

const ERROR_BODY: &str = "{\"error\":{\"message\":\"You exceeded your current quota\",\"type\":\"insufficient_quota\",\"param\":null,\"code\":\"insufficient_quota\"}}";

#[test]
fn parse_error_root_reads_the_envelope() {
    let root = parse_error_root(ERROR_BODY).unwrap();
    assert_eq!(root.error.message, "You exceeded your current quota");
    assert_eq!(root.error.type_field, "insufficient_quota");
    assert!(root.error.param.is_none());
    assert_eq!(root.error.code.as_deref(), Some("insufficient_quota"));
}

#[test]
fn parse_error_root_accepts_general_json_of_the_shape() {
    // whitespace, reordered members, absent param and code, an unknown member
    let body = " {\n  \"request_id\": 42,\n  \"error\": {\n    \"type\": \"invalid_request_error\",\n    \"message\": \"bad body\"\n  }\n} ";
    let root = parse_error_root(body).unwrap();
    assert_eq!(root.error.message, "bad body");
    assert_eq!(root.error.type_field, "invalid_request_error");
    assert!(root.error.param.is_none());
    assert!(root.error.code.is_none());
}

#[test]
fn parse_reply_tries_success_then_error_then_gives_up() {
    match parse_reply(SUCCESS_BODY) {
        Reply::Success(resp) => assert_eq!(resp.choices[0].message.content, "| short | long |"),
        _ => panic!("expected a success reply"),
    }
    match parse_reply(ERROR_BODY) {
        Reply::ApiError(e) => assert_eq!(e.type_field, "insufficient_quota"),
        _ => panic!("expected the error envelope"),
    }
    assert!(matches!(parse_reply("<html>oops</html>"), Reply::Unparsable));
}
