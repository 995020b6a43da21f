use deepseek_api::client::{read_reply, Client, API_URL};
use deepseek_api::error::{DecodeError, RequestError, SessionError};
use deepseek_api::request::{duplicate_messages, quoted, ChatCompletionRequest, Message};
use deepseek_api::response::{Choice, Response, Usage};
use deepseek_api::streaming::{deltas_in_order, Chunk, Delta};
use deepseek_api::tags::{same_text, FinishReason, Model, Role};

#[test]
fn role_tags_round_trip() {
    for role in [Role::System, Role::User, Role::Assistant, Role::Tool] {
        assert_eq!(Role::from_tag(role.tag()), Ok(role));
    }
    assert_eq!(Role::System.tag(), "system");
    assert_eq!(Role::User.tag(), "user");
    assert_eq!(Role::Assistant.tag(), "assistant");
    assert_eq!(Role::Tool.tag(), "tool");
}

#[test]
fn model_tags_round_trip() {
    for model in [Model::DeepSeekChat, Model::DeepSeekReasoner] {
        assert_eq!(Model::from_tag(model.tag()), Ok(model));
    }
    assert_eq!(Model::DeepSeekChat.tag(), "deepseek-chat");
    assert_eq!(Model::DeepSeekReasoner.tag(), "deepseek-reasoner");
}

#[test]
fn finish_reason_tags_round_trip() {
    let all = [
        FinishReason::Stop,
        FinishReason::Length,
        FinishReason::ContentFilter,
        FinishReason::ToolCalls,
        FinishReason::InsufficientSystemResource,
    ];
    for reason in all {
        assert_eq!(FinishReason::from_tag(reason.tag()), Ok(reason));
    }
    assert_eq!(FinishReason::Stop.tag(), "stop");
    assert_eq!(FinishReason::Length.tag(), "length");
    assert_eq!(FinishReason::ContentFilter.tag(), "content_filter");
    assert_eq!(FinishReason::ToolCalls.tag(), "tool_calls");
    assert_eq!(
        FinishReason::InsufficientSystemResource.tag(),
        "insufficient_system_resource"
    );
}

#[test]
fn unknown_tags_are_json_errors() {
    assert_eq!(Role::from_tag("System"), Err(DecodeError::Json));
    assert_eq!(Role::from_tag(""), Err(DecodeError::Json));
    assert_eq!(Role::from_tag("developer"), Err(DecodeError::Json));
    assert_eq!(Model::from_tag("deepseek"), Err(DecodeError::Json));
    assert_eq!(Model::from_tag("deepseek-chat "), Err(DecodeError::Json));
    assert_eq!(FinishReason::from_tag("STOP"), Err(DecodeError::Json));
    assert_eq!(FinishReason::from_tag("tool-calls"), Err(DecodeError::Json));
}

#[test]
fn same_text_compares_contents() {
    assert!(same_text("abc", "abc"));
    assert!(same_text("", ""));
    assert!(!same_text("abc", "abd"));
    assert!(!same_text("abc", "ab"));
}

#[test]
fn message_builders_set_role_and_content() {
    assert_eq!(
        Message::system("a"),
        Message { content: "a".to_string(), role: Role::System }
    );
    assert_eq!(
        Message::user("b"),
        Message { content: "b".to_string(), role: Role::User }
    );
    assert_eq!(
        Message::assistant("c"),
        Message { content: "c".to_string(), role: Role::Assistant }
    );
    assert_eq!(
        Message::tool("d"),
        Message { content: "d".to_string(), role: Role::Tool }
    );
    let m = Message::user("copy me");
    assert_eq!(m.duplicate(), m);
    let all = vec![Message::system("s"), Message::user("u")];
    assert_eq!(duplicate_messages(&all), all);
}

#[test]
fn quoted_escapes_as_json_does() {
    assert_eq!(quoted("hi"), "\"hi\"");
    assert_eq!(quoted(""), "\"\"");
    assert_eq!(quoted("a\"b"), "\"a\\\"b\"");
    assert_eq!(quoted("a\\b"), "\"a\\\\b\"");
    assert_eq!(quoted("\u{8}\t\n\u{c}\r"), "\"\\b\\t\\n\\f\\r\"");
    assert_eq!(quoted("\u{0}\u{1}\u{b}\u{1f}"), "\"\\u0000\\u0001\\u000b\\u001f\"");
    assert_eq!(quoted("\u{7f} / é 你"), "\"\u{7f} / é 你\"");
}

#[test]
fn message_to_json_is_content_then_role() {
    assert_eq!(
        Message::user("say \"hi\"\n").to_json(),
        "{\"content\":\"say \\\"hi\\\"\\n\",\"role\":\"user\"}"
    );
    assert_eq!(
        Message::tool("").to_json(),
        "{\"content\":\"\",\"role\":\"tool\"}"
    );
}

#[test]
fn request_to_json_is_one_object() {
    let request = ChatCompletionRequest::new(
        Model::DeepSeekChat,
        vec![Message::system("be brief"), Message::user("hi")],
        true,
    )
    .unwrap();
    assert_eq!(
        request.to_json().unwrap(),
        "{\"messages\":[{\"content\":\"be brief\",\"role\":\"system\"},{\"content\":\"hi\",\"role\":\"user\"}],\"model\":\"deepseek-chat\",\"stream\":true}"
    );
    let request = ChatCompletionRequest::new(
        Model::DeepSeekReasoner,
        vec![Message::assistant("x")],
        false,
    )
    .unwrap();
    assert_eq!(
        request.to_json().unwrap(),
        "{\"messages\":[{\"content\":\"x\",\"role\":\"assistant\"}],\"model\":\"deepseek-reasoner\",\"stream\":false}"
    );
}

#[test]
fn request_json_parses_back_to_the_same_members() {
    let request = ChatCompletionRequest::new(
        Model::DeepSeekChat,
        vec![Message::user("tab\there \"quoted\" \\ \u{1} 你好")],
        true,
    )
    .unwrap();
    let body = request.to_json().unwrap();
    let value: serde_json::Value = serde_json::from_str(&body).unwrap();
    assert_eq!(value["model"].as_str(), Some("deepseek-chat"));
    assert_eq!(value["stream"].as_bool(), Some(true));
    assert_eq!(value["messages"].as_array().unwrap().len(), 1);
    assert_eq!(
        value["messages"][0]["content"].as_str(),
        Some("tab\there \"quoted\" \\ \u{1} 你好")
    );
    assert_eq!(value["messages"][0]["role"].as_str(), Some("user"));
    assert_eq!(value.as_object().unwrap().len(), 3);
    assert_eq!(value["messages"][0].as_object().unwrap().len(), 2);
}

#[test]
fn a_request_needs_a_message() {
    assert_eq!(
        ChatCompletionRequest::new(Model::DeepSeekChat, Vec::new(), true),
        Err(RequestError::EmptyDialog)
    );
    let bare = ChatCompletionRequest {
        messages: Vec::new(),
        model: Model::DeepSeekChat,
        stream: false,
    };
    assert_eq!(bare.to_json(), Err(RequestError::EmptyDialog));
    let client = Client::new(Model::DeepSeekChat, "k");
    assert_eq!(client.chat_request(Vec::new()), Err(RequestError::EmptyDialog));
    assert_eq!(
        client.streaming_request(Vec::new()),
        Err(RequestError::EmptyDialog)
    );
}

#[test]
fn client_builds_the_post() {
    let client = Client::new(Model::DeepSeekChat, "sk-123");
    let post = client.streaming_request(vec![Message::user("hi")]).unwrap();
    assert_eq!(post.url, "https://api.deepseek.com/chat/completions");
    assert_eq!(post.url, API_URL);
    assert_eq!(post.content_type, "application/json");
    assert_eq!(post.accept, "application/json");
    assert_eq!(post.authorization, "Bearer sk-123");
    assert_eq!(
        post.body,
        "{\"messages\":[{\"content\":\"hi\",\"role\":\"user\"}],\"model\":\"deepseek-chat\",\"stream\":true}"
    );
    let post = client.chat_request(vec![Message::user("hi")]).unwrap();
    assert_eq!(
        post.body,
        "{\"messages\":[{\"content\":\"hi\",\"role\":\"user\"}],\"model\":\"deepseek-chat\",\"stream\":false}"
    );
    let post = Client::new(Model::DeepSeekReasoner, "")
        .post_request(vec![Message::user("hi")], false)
        .unwrap();
    assert_eq!(post.authorization, "Bearer ");
    assert_eq!(
        post.body,
        "{\"messages\":[{\"content\":\"hi\",\"role\":\"user\"}],\"model\":\"deepseek-reasoner\",\"stream\":false}"
    );
}

#[test]
fn response_with_usage_and_extra_members() {
    let body = b"{\"id\":\"r1\",\"object\":\"chat.completion\",\"model\":\"deepseek-reasoner\",\"choices\":[{\"index\":0,\"message\":{\"role\":\"assistant\",\"content\":\"a\"},\"finish_reason\":\"length\",\"logprobs\":null},{\"index\":1,\"message\":{\"role\":\"assistant\",\"content\":\"b\"},\"finish_reason\":\"content_filter\"}],\"usage\":{\"prompt_tokens\":3,\"completion_tokens\":4,\"total_tokens\":7}}";
    let response = Response::parse(body).unwrap();
    assert_eq!(
        response,
        Response {
            id: "r1".to_string(),
            model: "deepseek-reasoner".to_string(),
            choices: vec![
                Choice {
                    index: 0,
                    message: Message::assistant("a"),
                    finish_reason: FinishReason::Length,
                },
                Choice {
                    index: 1,
                    message: Message::assistant("b"),
                    finish_reason: FinishReason::ContentFilter,
                },
            ],
            usage: Some(Usage { prompt_tokens: 3, completion_tokens: 4, total_tokens: 7 }),
        }
    );
}

#[test]
fn response_model_is_the_wire_model() {
    for model in ["deepseek-chat", "deepseek-reasoner", "some \"other\" model", ""] {
        let body = format!(
            "{{\"id\":\"y\",\"model\":{},\"choices\":[]}}",
            serde_json::to_string(model).unwrap()
        );
        let response = Response::parse(body.as_bytes()).unwrap();
        assert_eq!(response.model, model);
        assert_eq!(quoted(&response.model), serde_json::to_string(model).unwrap());
    }
}

#[test]
fn response_null_usage_is_none() {
    let body = b"{\"id\":\"y\",\"model\":\"m\",\"choices\":[],\"usage\":null}";
    let response = Response::parse(body).unwrap();
    assert_eq!(response.usage, None);
    assert!(response.choices.is_empty());
}

#[test]
fn responses_that_do_not_decode() {
    let bad: [&[u8]; 14] = [
        b"",
        b"not json",
        b"{\"id\":\"y\",\"model\":\"m\",\"choices\":[]} trailing",
        b"[]",
        b"{\"model\":\"m\",\"choices\":[]}",
        b"{\"id\":\"y\",\"choices\":[]}",
        b"{\"id\":\"y\",\"model\":\"m\"}",
        b"{\"id\":1,\"model\":\"m\",\"choices\":[]}",
        b"{\"id\":\"y\",\"model\":\"m\",\"choices\":{}}",
        b"{\"id\":\"y\",\"model\":\"m\",\"choices\":[{\"index\":0,\"message\":{\"role\":\"assistant\",\"content\":\"hi\"}}]}",
        b"{\"id\":\"y\",\"model\":\"m\",\"choices\":[{\"index\":0,\"message\":{\"role\":\"assistant\",\"content\":\"hi\"},\"finish_reason\":null}]}",
        b"{\"id\":\"y\",\"model\":\"m\",\"choices\":[{\"index\":0,\"message\":{\"role\":\"robot\",\"content\":\"hi\"},\"finish_reason\":\"stop\"}]}",
        b"{\"id\":\"y\",\"model\":\"m\",\"choices\":[],\"usage\":{\"prompt_tokens\":1}}",
        b"{\"id\":\"y\",\"model\":\"m\",\"choices\":[],\"usage\":{\"prompt_tokens\":-1,\"completion_tokens\":1,\"total_tokens\":0}}",
    ];
    for body in bad {
        assert_eq!(Response::parse(body), Err(DecodeError::Json));
    }
}

#[test]
fn index_must_fit_in_u32() {
    let ok = b"{\"id\":\"y\",\"model\":\"m\",\"choices\":[{\"index\":4294967295,\"delta\":{}}]}";
    assert_eq!(Chunk::parse(ok).unwrap().choices[0].index, 4294967295);
    let bad: [&[u8]; 4] = [
        b"{\"id\":\"y\",\"model\":\"m\",\"choices\":[{\"index\":4294967296,\"delta\":{}}]}",
        b"{\"id\":\"y\",\"model\":\"m\",\"choices\":[{\"index\":-1,\"delta\":{}}]}",
        b"{\"id\":\"y\",\"model\":\"m\",\"choices\":[{\"index\":0.5,\"delta\":{}}]}",
        b"{\"id\":\"y\",\"model\":\"m\",\"choices\":[{\"index\":\"0\",\"delta\":{}}]}",
    ];
    for payload in bad {
        assert_eq!(Chunk::parse(payload), Err(DecodeError::Json));
    }
}

#[test]
fn chunk_decoding_of_optional_members() {
    let chunk = Chunk::parse(
        b"{\"id\":\"c\",\"model\":\"m\",\"choices\":[{\"index\":2,\"delta\":{\"role\":null},\"finish_reason\":\"tool_calls\"}]}",
    )
    .unwrap();
    assert_eq!(chunk.id, "c");
    assert_eq!(chunk.model, "m");
    assert_eq!(chunk.choices.len(), 1);
    assert_eq!(chunk.choices[0].index, 2);
    assert_eq!(
        chunk.choices[0].delta,
        Delta { role: None, content: String::new() }
    );
    assert_eq!(chunk.choices[0].finish_reason, Some(FinishReason::ToolCalls));

    let chunk = Chunk::parse(
        b"{\"id\":\"c\",\"model\":\"m\",\"choices\":[{\"index\":0,\"delta\":{\"role\":\"tool\",\"content\":\"x\"}}]}",
    )
    .unwrap();
    assert_eq!(
        chunk.choices[0].delta,
        Delta { role: Some(Role::Tool), content: "x".to_string() }
    );
    assert_eq!(chunk.choices[0].finish_reason, None);
}

#[test]
fn chunks_that_do_not_decode() {
    let bad: [&[u8]; 10] = [
        b"{not-json}",
        b"{\"id\":\"c\",\"model\":\"m\"}",
        b"{\"id\":\"c\",\"model\":\"m\",\"choices\":null}",
        b"{\"id\":\"c\",\"model\":\"m\",\"choices\":[{\"index\":0}]}",
        b"{\"id\":\"c\",\"model\":\"m\",\"choices\":[{\"index\":0,\"delta\":5}]}",
        b"{\"id\":\"c\",\"model\":\"m\",\"choices\":[{\"index\":0,\"delta\":[]}]}",
        b"{\"id\":\"c\",\"model\":\"m\",\"choices\":[{\"index\":0,\"delta\":{\"content\":null}}]}",
        b"{\"id\":\"c\",\"model\":\"m\",\"choices\":[{\"index\":0,\"delta\":{\"role\":\"nobody\"}}]}",
        b"{\"id\":\"c\",\"model\":\"m\",\"choices\":[{\"index\":0,\"delta\":{},\"finish_reason\":\"done\"}]}",
        b"{\"id\":\"c\",\"model\":\"m\",\"choices\":[{\"index\":0,\"delta\":{}},7]}",
    ];
    for payload in bad {
        assert_eq!(Chunk::parse(payload), Err(DecodeError::Json));
    }
}

#[test]
fn deltas_keep_the_order_of_chunks_and_choices() {
    let a = Chunk::parse(
        b"{\"id\":\"c\",\"model\":\"m\",\"choices\":[{\"index\":0,\"delta\":{\"content\":\"a0\"}},{\"index\":1,\"delta\":{\"content\":\"a1\"}}]}",
    )
    .unwrap();
    let b = Chunk::parse(b"{\"id\":\"c\",\"model\":\"m\",\"choices\":[]}").unwrap();
    let c = Chunk::parse(
        b"{\"id\":\"c\",\"model\":\"m\",\"choices\":[{\"index\":0,\"delta\":{\"content\":\"c0\"}}]}",
    )
    .unwrap();
    let deltas = deltas_in_order(&vec![a, b, c]);
    let texts: Vec<&str> = deltas.iter().map(|d| d.delta.content.as_str()).collect();
    assert_eq!(texts, vec!["a0", "a1", "c0"]);
    assert_eq!(deltas[1].duplicate(), deltas[1]);
    assert!(deltas_in_order(&Vec::new()).is_empty());
}

#[test]
fn read_reply_checks_status_then_body() {
    let body = b"{\"id\":\"y\",\"model\":\"m\",\"choices\":[]}";
    assert_eq!(read_reply(200, body).unwrap().id, "y");
    assert_eq!(read_reply(299, body).unwrap().id, "y");
    assert_eq!(read_reply(199, body), Err(SessionError::Transport));
    assert_eq!(read_reply(300, body), Err(SessionError::Transport));
    assert_eq!(read_reply(401, body), Err(SessionError::Transport));
    assert_eq!(read_reply(500, b"oops"), Err(SessionError::Transport));
    assert_eq!(
        read_reply(200, b"oops"),
        Err(SessionError::Decode(DecodeError::Json))
    );
}

#[test]
fn values_built_by_hand_decode_like_parsed_ones() {
    let mut delta = serde_json::Map::new();
    delta.insert("role".to_string(), serde_json::Value::from("assistant"));
    delta.insert("content".to_string(), serde_json::Value::from("hey"));
    let mut choice = serde_json::Map::new();
    choice.insert("index".to_string(), serde_json::Value::from(3u64));
    choice.insert("delta".to_string(), serde_json::Value::Object(delta.clone()));
    choice.insert("finish_reason".to_string(), serde_json::Value::Null);
    let mut chunk = serde_json::Map::new();
    chunk.insert("id".to_string(), serde_json::Value::from("i"));
    chunk.insert("model".to_string(), serde_json::Value::from("m"));
    chunk.insert(
        "choices".to_string(),
        serde_json::Value::Array(vec![serde_json::Value::Object(choice.clone())]),
    );

    let d = Delta::from_value(&serde_json::Value::Object(delta)).unwrap();
    assert_eq!(d, Delta { role: Some(Role::Assistant), content: "hey".to_string() });
    let c = deepseek_api::streaming::Choice::from_value(&serde_json::Value::Object(choice)).unwrap();
    assert_eq!(c.index, 3);
    assert_eq!(c.delta, d);
    assert_eq!(c.finish_reason, None);
    let k = Chunk::from_value(&serde_json::Value::Object(chunk)).unwrap();
    assert_eq!(k.id, "i");
    assert_eq!(k.model, "m");
    assert_eq!(k.choices, vec![c]);

    assert_eq!(Delta::from_value(&serde_json::Value::Null), Err(DecodeError::Json));
    assert_eq!(Delta::from_value(&serde_json::Value::from("x")), Err(DecodeError::Json));
    assert_eq!(
        Delta::from_value(&serde_json::Value::Object(serde_json::Map::new())),
        Ok(Delta { role: None, content: String::new() })
    );
    assert_eq!(
        Usage::from_value(&serde_json::Value::Array(Vec::new())),
        Err(DecodeError::Json)
    );
    assert_eq!(
        Response::from_value(&serde_json::Value::from(1u64)),
        Err(DecodeError::Json)
    );
    assert_eq!(
        Choice::all_from_values(&Vec::new()),
        Ok(Vec::new())
    );
}

#[test]
fn quoted_escapes_every_character_as_stated() {
    let hex = b"0123456789abcdef";
    for code in 0..=0x10FFFFu32 {
        let Some(c) = char::from_u32(code) else {
            continue;
        };
        let mut expected = String::from("\"");
        match c {
            '"' => expected.push_str("\\\""),
            '\\' => expected.push_str("\\\\"),
            '\u{8}' => expected.push_str("\\b"),
            '\t' => expected.push_str("\\t"),
            '\n' => expected.push_str("\\n"),
            '\u{c}' => expected.push_str("\\f"),
            '\r' => expected.push_str("\\r"),
            c if code < 0x20 => {
                let _ = c;
                expected.push_str("\\u00");
                expected.push(hex[(code / 16) as usize] as char);
                expected.push(hex[(code % 16) as usize] as char);
            }
            c => expected.push(c),
        }
        expected.push('"');
        assert_eq!(quoted(&c.to_string()), expected);
    }
    assert_eq!(quoted("a\u{1}\"b\\"), "\"a\\u0001\\\"b\\\\\"");
}
