use help_table::chat::{
    build_messages, first_choice_content, system_msg, Choice, Error, Message, Response, Role,
};

#[test]
fn constructors_bind_role_and_content() {
    let s = Message::system(String::from("a"));
    assert!(matches!(s.role, Role::System));
    assert_eq!(s.content, "a");
    let u = Message::user(String::from("b"));
    assert!(matches!(u.role, Role::User));
    assert_eq!(u.content, "b");
    let a = Message::assistant(String::from("c"));
    assert!(matches!(a.role, Role::Assistant));
    assert_eq!(a.content, "c");
}

#[test]
fn built_messages_are_system_then_user_verbatim() {
    let captured = String::from("usage: git [-v | --version] [-h | --help]\n");
    let msgs = build_messages(captured.clone());
    assert_eq!(msgs.len(), 2);
    assert!(matches!(msgs[0].role, Role::System));
    assert_eq!(msgs[0].content, system_msg());
    assert!(matches!(msgs[1].role, Role::User));
    assert_eq!(msgs[1].content, captured);
}

#[test]
fn built_messages_keep_empty_and_awkward_text() {
    let msgs = build_messages(String::new());
    assert_eq!(msgs[1].content, "");

    let tricky = String::from("line one\n\"quoted\"\tand \\backslash\\");
    let msgs = build_messages(tricky.clone());
    assert_eq!(msgs[1].content, tricky);
    assert_eq!(msgs[0].content, system_msg());
}

fn response_with(choices: Vec<Choice>) -> Response {
    Response {
        id: String::from("cmpl-1"),
        object: String::from("chat.completion"),
        created: 1700000000,
        model: String::from("gpt-4"),
        choices,
        usage: None,
    }
}

#[test]
fn first_choice_content_takes_the_first_choice() {
    let resp = response_with(vec![
        Choice {
            message: Message::assistant(String::from("| a | b |")),
            finish_reason: String::from("stop"),
            index: 0,
        },
        Choice {
            message: Message::assistant(String::from("other")),
            finish_reason: String::from("stop"),
            index: 1,
        },
    ]);
    assert_eq!(first_choice_content(&resp).unwrap(), "| a | b |");
}

#[test]
fn first_choice_content_refuses_an_empty_reply() {
    let resp = response_with(Vec::new());
    assert!(first_choice_content(&resp).is_none());
}

#[test]
fn error_renders_type_code_and_message() {
    let e = Error {
        message: String::from("quota exceeded"),
        type_field: String::from("insufficient_quota"),
        param: None,
        code: Some(String::from("429")),
    };
    assert_eq!(
        e.render(),
        "insufficient_quota (Some(\"429\")): \"quota exceeded\""
    );
    let e2 = Error {
        message: String::from("with \"quotes\"\nand a line break"),
        type_field: String::from("invalid_request_error"),
        param: None,
        code: None,
    };
    assert_eq!(
        e2.render(),
        "invalid_request_error (None): \"with \\\"quotes\\\"\\nand a line break\""
    );
}
