//! Context construction, history bookkeeping and the non-streaming path.
use chatgpt::client::Client;
use chatgpt::error::ChatGPTError;
use chatgpt::types::{ChatResponse, Choice, HistoryMessage, Message};

fn node(id: &str, parent_id: Option<&str>, content: &str) -> HistoryMessage {
    HistoryMessage {
        id: id.to_string(),
        parent_id: parent_id.map(|p| p.to_string()),
        message: Message { role: "user".to_string(), content: content.to_string() },
    }
}

fn ok_response(id: &str, content: &str) -> ChatResponse {
    ChatResponse {
        id: Some(id.to_string()),
        object: None,
        created: None,
        choices: Some(vec![Choice {
            index: 0,
            message: Message { role: "assistant".to_string(), content: content.to_string() },
            finish_reason: "stop".to_string(),
        }]),
        usage: None,
        error: None,
    }
}

#[test]
fn test_build_messages() {
    let mut client = Client::new("".to_string()).unwrap();
    let mut ids = Vec::new();
    let mut history_messages = Vec::new();
    let mut parent_id: Option<String> = None;
    for _i in 0..10 {
        let id = uuid::Uuid::new_v4().to_string();
        ids.push(id.clone());
        history_messages.push(HistoryMessage {
            id: id.clone(),
            parent_id,
            message: Message { role: "user".to_string(), content: id.clone() },
        });
        parent_id = Some(id);
    }
    for history_message in history_messages {
        client.history_messages.insert(history_message);
    }
    let messages =
        client.build_messages("hello".to_string(), ids.last().map(|x| x.to_string())).unwrap();
    println!("{:#?}", messages);
    assert_eq!(messages.len(), 12)
}

#[test]
fn no_parent_yields_system_and_user_only() {
    let mut client = Client::new("key".to_string()).unwrap();
    client.history_messages.insert(node("a", None, "old turn"));
    let messages = client.build_messages("hi there".to_string(), None).unwrap();
    assert_eq!(messages.len(), 2);
    assert_eq!(messages[0].role, "system");
    assert_eq!(messages[1].role, "user");
    assert_eq!(messages[1].content, "hi there");
}

#[test]
fn missing_parent_stops_walk() {
    let client = Client::new("key".to_string()).unwrap();
    let messages = client.build_messages("hi".to_string(), Some("nowhere".to_string())).unwrap();
    assert_eq!(messages.len(), 2);
}

#[test]
fn full_chain_in_chronological_order() {
    let mut client = Client::new("key".to_string()).unwrap();
    client.history_messages.insert(node("a3", None, "oldest"));
    client.history_messages.insert(node("a2", Some("a3"), "middle"));
    client.history_messages.insert(node("a1", Some("a2"), "newest"));
    let messages = client.build_messages("question".to_string(), Some("a1".to_string())).unwrap();
    assert_eq!(messages.len(), 5);
    assert_eq!(messages[0].role, "system");
    assert_eq!(messages[1].content, "oldest");
    assert_eq!(messages[2].content, "middle");
    assert_eq!(messages[3].content, "newest");
    assert_eq!(messages[4].content, "question");
}

#[test]
fn budget_excludes_distant_ancestors() {
    // Three ancestors of roughly a hundred tokens each; the budget admits
    // exactly the two closest, so the most distant one is dropped together
    // with everything beyond it.
    let sys = "You are ChatGPT.".to_string();
    let c1 = "alpha bravo charlie delta echo ".repeat(20);
    let c2 = "foxtrot golf hotel india juliett ".repeat(20);
    let c3 = "kilo lima mike november oscar ".repeat(20);
    let text = "papa quebec romeo";

    // the cumulative counts the walk will compare against the budget
    let t1 = chatgpt::tokenizer::count(&format!("{}{}{}", sys, text, c1)).unwrap();
    let t2 = chatgpt::tokenizer::count(&format!("{}{}{}{}", sys, c1, text, c2)).unwrap();
    let t3 = chatgpt::tokenizer::count(&format!("{}{}{}{}{}", sys, c2, c1, text, c3)).unwrap();
    assert!(t1 <= t2 && t2 < t3);

    let mut client =
        Client::with_config("key".to_string(), "gpt-3.5-turbo".to_string(), t2, sys).unwrap();
    client.history_messages.insert(node("a3", None, &c3));
    client.history_messages.insert(node("a2", Some("a3"), &c2));
    client.history_messages.insert(node("a1", Some("a2"), &c1));

    let messages = client.build_messages(text.to_string(), Some("a1".to_string())).unwrap();
    assert_eq!(messages.len(), 4);
    assert_eq!(messages[0].role, "system");
    assert_eq!(messages[1].content, c2);
    assert_eq!(messages[2].content, c1);
    assert_eq!(messages[3].content, text);
}

#[test]
fn send_single_records_two_nodes() {
    let mut client = Client::new("key".to_string()).unwrap();
    let resp = ok_response("resp-1", "hello back");
    let (content, resp_id) = client
        .complete_send_with_id("who are you".to_string(), None, resp, "user-1".to_string())
        .unwrap();
    assert_eq!(content, "hello back");
    assert_eq!(resp_id, "resp-1");
    assert_eq!(client.history_messages.len(), 2);
    let user_node = client.history_messages.get(&"user-1".to_string()).unwrap();
    assert_eq!(user_node.parent_id, None);
    assert_eq!(user_node.message.role, "user");
    assert_eq!(user_node.message.content, "who are you");
    let answer_node = client.history_messages.get(&"resp-1".to_string()).unwrap();
    assert_eq!(answer_node.parent_id, Some("user-1".to_string()));
    assert_eq!(answer_node.message.role, "assistant");
    assert_eq!(answer_node.message.content, "hello back");
}

#[test]
fn send_single_with_fresh_id_links_nodes() {
    let mut client = Client::new("key".to_string()).unwrap();
    let resp = ok_response("resp-9", "answer");
    let (_, resp_id) =
        client.complete_send("question".to_string(), None, resp).unwrap();
    assert_eq!(client.history_messages.len(), 2);
    let answer_node = client.history_messages.get(&resp_id).unwrap();
    let fresh = answer_node.parent_id.clone().unwrap();
    let user_node = client.history_messages.get(&fresh).unwrap();
    assert_eq!(user_node.message.content, "question");
    assert_eq!(user_node.parent_id, None);
}

#[test]
fn api_error_leaves_history_untouched() {
    let mut client = Client::new("key".to_string()).unwrap();
    let resp = ChatResponse {
        id: Some("resp-1".to_string()),
        object: None,
        created: None,
        choices: None,
        usage: None,
        error: Some(chatgpt::types::Error { message: "boom".to_string(), type_field: None }),
    };
    let r = client.complete_send_with_id("hi".to_string(), None, resp, "user-1".to_string());
    match r {
        Err(ChatGPTError::Api(m)) => assert_eq!(m, "boom"),
        other => panic!("expected an api error, got {:?}", other),
    }
    assert_eq!(client.history_messages.len(), 0);
}

#[test]
fn missing_choices_is_protocol_error() {
    let mut client = Client::new("key".to_string()).unwrap();
    let resp = ChatResponse {
        id: Some("resp-1".to_string()),
        object: None,
        created: None,
        choices: None,
        usage: None,
        error: None,
    };
    let r = client.complete_send_with_id("hi".to_string(), None, resp, "u".to_string());
    match r {
        Err(ChatGPTError::Protocol(m)) => assert_eq!(m, "no choices returned"),
        other => panic!("expected a protocol error, got {:?}", other),
    }
    let mut client2 = Client::new("key".to_string()).unwrap();
    let mut resp2 = ok_response("resp-1", "x");
    resp2.choices = Some(vec![]);
    let r2 = client2.complete_send_with_id("hi".to_string(), None, resp2, "u".to_string());
    assert!(matches!(r2, Err(ChatGPTError::Protocol(_))));
    assert_eq!(client2.history_messages.len(), 0);
}

#[test]
fn missing_id_is_protocol_error() {
    let mut client = Client::new("key".to_string()).unwrap();
    let mut resp = ok_response("resp-1", "x");
    resp.id = None;
    let r = client.complete_send_with_id("hi".to_string(), None, resp, "u".to_string());
    match r {
        Err(ChatGPTError::Protocol(m)) => assert_eq!(m, "no response id"),
        other => panic!("expected a protocol error, got {:?}", other),
    }
    assert_eq!(client.history_messages.len(), 0);
}

#[test]
fn malformed_api_key_is_config_error() {
    let r = Client::new("bad\u{7}key".to_string());
    assert!(matches!(r, Err(ChatGPTError::Config(_))));
    assert!(matches!(Client::new("del\u{7f}key".to_string()), Err(ChatGPTError::Config(_))));
    assert!(Client::new("sk-ordinary-key-123".to_string()).is_ok());
    // what the transport's header accepts, the session accepts: tab and
    // characters beyond ASCII included
    assert!(Client::new("tab\tkey".to_string()).is_ok());
    assert!(Client::new("clé-déjà".to_string()).is_ok());
}

#[test]
fn build_request_carries_model_and_stream_flag() {
    let client = Client::new("key".to_string()).unwrap();
    let req = client.build_request("hi".to_string(), None, Some(true)).unwrap();
    assert_eq!(req.model, "gpt-3.5-turbo");
    assert_eq!(req.stream, Some(true));
    assert_eq!(req.messages.len(), 2);
}

#[test]
fn history_insert_overwrites_same_id() {
    let mut store = chatgpt::history::HistoryStore::new();
    store.insert(node("a", None, "first"));
    store.insert(node("b", Some("a"), "other"));
    store.insert(node("a", None, "second"));
    assert_eq!(store.len(), 2);
    assert_eq!(store.get(&"a".to_string()).unwrap().message.content, "second");
    assert_eq!(store.get(&"b".to_string()).unwrap().message.content, "other");
    assert!(store.get(&"c".to_string()).is_none());
}

#[test]
fn error_messages_carry_their_kind() {
    assert_eq!(ChatGPTError::Api("x".to_string()).message(), "chatgpt_error: x");
    assert_eq!(ChatGPTError::Config("y".to_string()).message(), "config_error: y");
    assert_eq!(ChatGPTError::Transport("t".to_string()).message(), "transport_error: t");
    assert_eq!(ChatGPTError::Decode("d".to_string()).message(), "decode_error: d");
    assert_eq!(ChatGPTError::Protocol("p".to_string()).message(), "protocol_error: p");
}

#[test]
fn default_role_is_assistant() {
    assert_eq!(chatgpt::types::default_role(), "assistant");
}
