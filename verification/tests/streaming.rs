//! Event-stream decoding, the stream lifecycle and the tokenizer.
use chatgpt::stream::{fragment_of, StreamDecoder, StreamPhase};
use chatgpt::error::ChatGPTError;
use chatgpt::types::{ChatChoiceDelta, ChatStreamResponse, Message};

fn chunk(content: &str) -> ChatStreamResponse {
    ChatStreamResponse {
        id: Some("chunk-1".to_string()),
        object: "chat.completion.chunk".to_string(),
        created: 0,
        model: "gpt-3.5-turbo".to_string(),
        choices: vec![ChatChoiceDelta {
            delta: Message { role: "assistant".to_string(), content: content.to_string() },
            index: 0,
        }],
        usage: None,
    }
}

#[test]
fn stream_yields_fragments_in_order_until_done() {
    let mut d = StreamDecoder::new();
    assert_eq!(d.phase(), StreamPhase::Idle);
    d.connect();
    assert_eq!(d.phase(), StreamPhase::Connected);

    let body = b"data: Hel\n\ndata: lo\n\ndata: [DONE]\n\n".to_vec();
    let payloads = d.on_bytes(&body);
    assert_eq!(payloads.len(), 2);
    assert_eq!(payloads[0], b"Hel".to_vec());
    assert_eq!(payloads[1], b"lo".to_vec());
    assert_eq!(d.phase(), StreamPhase::Completed);

    // a completed stream ignores further input
    let more = d.on_bytes(&b"data: late\n\n".to_vec());
    assert!(more.is_empty());
    assert_eq!(d.phase(), StreamPhase::Completed);
}

#[test]
fn stream_handles_split_and_crlf_frames() {
    let mut d = StreamDecoder::new();
    d.connect();
    let mut payloads = Vec::new();
    for piece in [&b"da"[..], b"ta: He", b"l\r", b"\n\r\n", b"data: lo\n", b"\n"] {
        payloads.extend(d.on_bytes(&piece.to_vec()));
    }
    assert_eq!(payloads.len(), 2);
    assert_eq!(payloads[0], b"Hel".to_vec());
    assert_eq!(payloads[1], b"lo".to_vec());
    d.chunk_decoded();
    assert_eq!(d.phase(), StreamPhase::Streaming);
}

#[test]
fn comment_and_other_fields_are_ignored() {
    let mut d = StreamDecoder::new();
    d.connect();
    let body = b": keep-alive\n\nevent: message\ndata: x\n\n".to_vec();
    let payloads = d.on_bytes(&body);
    assert_eq!(payloads.len(), 1);
    assert_eq!(payloads[0], b"x".to_vec());
}

#[test]
fn lone_carriage_return_ends_lines() {
    let mut d = StreamDecoder::new();
    d.connect();
    let payloads = d.on_bytes(&b"data: He\rdata: l\r\r".to_vec());
    assert_eq!(payloads.len(), 1);
    assert_eq!(payloads[0], b"He\nl".to_vec());
}

#[test]
fn bare_data_line_is_an_empty_data_field() {
    let mut d = StreamDecoder::new();
    d.connect();
    let payloads = d.on_bytes(&b"data\ndata: x\n\n".to_vec());
    assert_eq!(payloads.len(), 1);
    assert_eq!(payloads[0], b"\nx".to_vec());
}

#[test]
fn multiple_data_lines_join_with_line_feed() {
    let mut d = StreamDecoder::new();
    d.connect();
    let payloads = d.on_bytes(&b"data: a\ndata: b\n\n".to_vec());
    assert_eq!(payloads.len(), 1);
    assert_eq!(payloads[0], b"a\nb".to_vec());
}

#[test]
fn first_chunk_moves_connected_to_streaming() {
    let mut d = StreamDecoder::new();
    d.connect();
    let payloads = d.on_bytes(&b"data: {}\n\n".to_vec());
    assert_eq!(payloads.len(), 1);
    d.chunk_decoded();
    assert_eq!(d.phase(), StreamPhase::Streaming);
    d.chunk_decoded();
    assert_eq!(d.phase(), StreamPhase::Streaming);
}

#[test]
fn failure_is_terminal() {
    let mut d = StreamDecoder::new();
    d.connect();
    d.fail();
    assert_eq!(d.phase(), StreamPhase::Failed);
    let payloads = d.on_bytes(&b"data: x\n\n".to_vec());
    assert!(payloads.is_empty());
    d.chunk_decoded();
    assert_eq!(d.phase(), StreamPhase::Failed);
}

#[test]
fn fragment_is_first_delta_content() {
    let r = fragment_of(&chunk("Hel"));
    assert_eq!(r.unwrap(), "Hel");
    let mut empty = chunk("x");
    empty.choices.clear();
    assert!(matches!(fragment_of(&empty), Err(ChatGPTError::Protocol(_))));
}

#[test]
fn test_tokenize() {
    let enc = chatgpt::tokenizer::encode("This is a test         with a lot of spaces").unwrap();
    assert_eq!(enc.len(), 10)
}

#[test]
fn count_is_zero_on_empty_and_stable() {
    assert_eq!(chatgpt::tokenizer::count(""), Some(0));
    let s = "the same text, counted twice";
    assert_eq!(chatgpt::tokenizer::count(s), chatgpt::tokenizer::count(s));
    assert!(chatgpt::tokenizer::count(s).unwrap() > 0);
    assert_ne!(
        chatgpt::tokenizer::count("short"),
        chatgpt::tokenizer::count("a much longer sentence with many more words in it")
    );
}

#[test]
fn it() {
    let ps: Vec<_> = chatgpt::prompt::Prompt::all().iter().map(|x| x.name()).collect();
    println!("{:?}", ps);
}

#[test]
fn prompt_catalog_has_nine_entries() {
    let all = chatgpt::prompt::Prompt::all();
    assert_eq!(all.len(), 9);
    assert_eq!(all[0].name(), "Default");
    assert!(all[0].text().starts_with("You are ChatGPT"));
    assert_eq!(all[8].name(), "TravelGuide");
}
