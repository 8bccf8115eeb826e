use lecture_distill::json::{parse, Json};
use lecture_distill::llm::{
    after_send, compact_transcript_for_llm, complete_turn, json_parse_error_diagnostics,
    json_retry_messages, max_concurrency, max_retries, message, prompt_messages, reply_of,
    request_body, send_error, smaller_output, status_error, strip_fences_for_json_mode,
    uses_stream, with_json_instruction, AfterSend, ChatConversation, SendResult,
};
use lecture_distill::llm_forward::{
    forward_log, ForwardAction, ForwardEvent, ForwardRun, LastWord,
};
use lecture_distill::llm_log::{
    is_log_of, list_logs, log_file_name, log_not_found, log_time, preview,
};
use lecture_distill::llm_reply::{
    judge_json_reply, judge_parsed, read_answer, read_value, strip_code_fences_and_parse,
    JsonReply, Received,
};
use lecture_distill::llm_stream::{
    log_result, StreamAction, StreamEvent, StreamOutcome, StreamRun,
};

#[test]
fn test_conversation_new_starts_with_system() {
    let conv = ChatConversation::new("You are a helpful assistant.", "model", "https://provider");
    let msgs = conv.messages();
    assert_eq!(msgs.len(), 1);
    assert_eq!(msgs[0].role, "system");
    assert!(msgs[0].content.contains("helpful assistant"));
}

#[test]
fn test_conversation_fork_is_independent() {
    let mut conv = ChatConversation::new("System.", "model", "https://provider");

    // Seed the conversation with a fake assistant message.
    conv.add_assistant("Fake response 1");

    // Fork — should have the same history.
    let mut fork = conv.fork();
    assert_eq!(fork.messages().len(), 2);
    assert_eq!(fork.messages()[1].content, "Fake response 1");

    // Add to fork — original should be unaffected.
    fork.add_assistant("Fork-only response");
    assert_eq!(fork.messages().len(), 3);
    assert_eq!(conv.messages().len(), 2);
}

#[test]
fn test_conversation_add_assistant() {
    let mut conv = ChatConversation::new("System.", "model", "https://provider");
    assert_eq!(conv.messages().len(), 1);

    conv.add_assistant("Response one.");
    assert_eq!(conv.messages().len(), 2);
    assert_eq!(conv.messages()[1].role, "assistant");
    assert_eq!(conv.messages()[1].content, "Response one.");

    conv.add_assistant("Response two.");
    assert_eq!(conv.messages().len(), 3);
}

#[test]
fn test_conversation_fork_preserves_prefix() {
    let mut conv = ChatConversation::new("System prompt.", "model", "https://provider");
    conv.add_assistant("Digest content here.");

    let fork = conv.fork();
    // Fork must have the exact same prefix for caching.
    assert_eq!(fork.messages().len(), 2);
    assert_eq!(fork.messages()[0].content, "System prompt.");
    assert_eq!(fork.messages()[1].content, "Digest content here.");
}

#[test]
fn test_compact_preserves_headings() {
    let input = "# Course - Date\n\n## 08:00 Video Title - vid1\n\n[00:00] Hello world\n[00:05] This is a test\n";
    let result = compact_transcript_for_llm(input, 10000);
    assert!(result.contains("# Course - Date"));
    assert!(result.contains("## 08:00 Video Title - vid1"));
    assert!(result.contains("[00:00] Hello world [00:05] This is a test"));
}

#[test]
fn test_compact_joins_timestamp_lines() {
    let input = "[00:00] First sentence\n[00:05] Second sentence\n[00:10] Third sentence\n";
    let result = compact_transcript_for_llm(input, 10000);
    // All three should be on one line joined by spaces.
    let lines: Vec<&str> = result.lines().collect();
    let content_lines: Vec<&str> = lines
        .iter()
        .filter(|l| !l.starts_with('#') && !l.is_empty())
        .copied()
        .collect();
    assert_eq!(content_lines.len(), 1);
    assert!(content_lines[0].contains("[00:00] First sentence"));
    assert!(content_lines[0].contains("[00:05] Second sentence"));
    assert!(content_lines[0].contains("[00:10] Third sentence"));
}

#[test]
fn test_compact_collapses_blank_lines() {
    let input = "[00:00] Line one\n\n\n\n[00:05] Line two\n";
    let result = compact_transcript_for_llm(input, 10000);
    // Should have at most one blank line between content.
    let blank_count = result.lines().filter(|l| l.trim().is_empty()).count();
    assert!(blank_count <= 2); // 2 is ok: one after heading area, one between paragraphs
}

#[test]
fn test_compact_truncates_when_needed() {
    let long: String = std::iter::repeat("a").take(500).collect();
    let result = compact_transcript_for_llm(&long, 300);
    assert!(result.contains("truncated"));
    assert!(result.len() < long.len() + 100); // allow for truncation message
}

#[test]
fn test_compact_preserves_non_timestamp_lines() {
    let input = "Some introductory text\n\n[00:00] Timestamped line\n\nMore text after\n";
    let result = compact_transcript_for_llm(input, 10000);
    assert!(result.contains("Some introductory text"));
    assert!(result.contains("Timestamped line"));
    assert!(result.contains("More text after"));
}

#[test]
fn test_parse_error_diagnostics_short_body() {
    let status: u16 = 200;
    let body = "{not valid json";
    let parse_err = parse(body).unwrap_err();

    let (error_msg, response_value) = json_parse_error_diagnostics(status, body, &parse_err);

    // Error message contains key fields.
    assert!(error_msg.contains("failed to parse chat completion response JSON"));
    assert!(error_msg.contains("HTTP status=200"));
    assert!(error_msg.contains(&format!("body char_len={}", body.chars().count())));
    assert!(error_msg.contains(&format!("byte_len={}", body.len())));
    assert!(error_msg.contains("parse error:"));

    // Response value has expected structure.
    assert_eq!(response_value.get("status").unwrap().as_u64(), Some(200));
    assert_eq!(
        response_value.get("raw_text_head").unwrap().as_str(),
        Some("{not valid json")
    );
    // For a body shorter than 200 chars, tail should be empty.
    assert_eq!(response_value.get("raw_text_tail").unwrap().as_str(), Some(""));
}

#[test]
fn test_parse_error_diagnostics_long_body() {
    let status: u16 = 502;
    // Build a body > 200 chars with distinct head and tail.
    let mut body = String::from("HEAD_MARKER_");
    body.extend(std::iter::repeat('x').take(500));
    body.push_str("TAIL_MARKER");
    let parse_err = parse(&body).unwrap_err();

    let (error_msg, response_value) = json_parse_error_diagnostics(status, &body, &parse_err);

    // Status in error message.
    assert!(error_msg.contains("HTTP status=502"));
    assert!(error_msg.contains(&format!("body char_len={}", body.chars().count())));
    assert!(error_msg.contains(&format!("byte_len={}", body.len())));

    // Head should start with HEAD_MARKER_.
    let head = response_value.get("raw_text_head").unwrap().as_str().unwrap();
    assert!(head.starts_with("HEAD_MARKER_"));
    assert_eq!(head.chars().count(), 200); // exactly 200

    // Tail should end with TAIL_MARKER.
    let tail = response_value.get("raw_text_tail").unwrap().as_str().unwrap();
    assert!(tail.ends_with("TAIL_MARKER"));
    assert_eq!(tail.chars().count(), 200); // exactly 200

    assert_eq!(response_value.get("status").unwrap().as_u64(), Some(502));
}

#[test]
fn test_parse_error_diagnostics_empty_body() {
    let status: u16 = 500;
    let body = "";
    let parse_err = parse(body).unwrap_err();

    let (error_msg, response_value) = json_parse_error_diagnostics(status, body, &parse_err);

    assert!(error_msg.contains("body char_len=0"));
    assert!(error_msg.contains("byte_len=0"));
    assert_eq!(response_value.get("raw_text_head").unwrap().as_str(), Some(""));
    assert_eq!(response_value.get("raw_text_tail").unwrap().as_str(), Some(""));
    assert_eq!(response_value.get("status").unwrap().as_u64(), Some(500));
}

#[test]
fn test_parse_error_diagnostics_non_200_status() {
    let status: u16 = 429;
    let body = "<html>Rate limit exceeded</html>";
    let parse_err = parse(body).unwrap_err();

    let (error_msg, response_value) = json_parse_error_diagnostics(status, body, &parse_err);

    assert!(error_msg.contains("HTTP status=429"));
    assert!(error_msg.contains("parse error:"));
    assert_eq!(response_value.get("status").unwrap().as_u64(), Some(429));
    assert!(response_value.get("raw_text_head").unwrap().as_str()
        .unwrap()
        .contains("<html>"));
}

#[test]
fn test_conversation_save_and_load_roundtrip() {
    let mut conv = ChatConversation::new("Test system.", "model", "https://provider");
    conv.add_assistant("First response.");
    conv.add_assistant("Second response.");
    let saved: Vec<_> = conv
        .messages()
        .iter()
        .map(|m| message(&m.role, &m.content))
        .collect();

    let loaded =
        ChatConversation::restore(saved, conv.model().to_string(), conv.base_url().to_string());
    assert_eq!(loaded.messages().len(), 3);
    assert_eq!(loaded.messages()[0].role, "system");
    assert_eq!(loaded.messages()[0].content, "Test system.");
    assert_eq!(loaded.messages()[1].role, "assistant");
    assert_eq!(loaded.messages()[1].content, "First response.");
    assert_eq!(loaded.messages()[2].role, "assistant");
    assert_eq!(loaded.messages()[2].content, "Second response.");
}

#[test]
fn conversations_stay_with_their_provider() {
    let conv = ChatConversation::new("s", "m", "u");
    assert_eq!((conv.model(), conv.base_url()), ("m", "u"));
    assert!(conv.continues_with("m", "u"));
    assert!(!conv.continues_with("n", "u"));
    assert!(!conv.continues_with("m", "v"));
}

#[test]
fn turns_are_kept_only_with_their_reply() {
    let mut conv = ChatConversation::new("s", "model", "https://provider");
    complete_turn(&mut conv, "question", Some("answer"));
    assert_eq!(conv.messages().len(), 3);
    assert_eq!(conv.messages()[1].role, "user");
    assert_eq!(conv.messages()[2].content, "answer");
    complete_turn(&mut conv, "again", None);
    let after: Vec<&str> = conv.messages().iter().map(|m| m.content.as_str()).collect();
    assert_eq!(after[..3], ["s", "question", "answer"]);
}

#[test]
fn settings_have_limits() {
    assert_eq!(max_concurrency(None), 2);
    assert_eq!(max_concurrency(Some("0")), 1);
    assert_eq!(max_concurrency(Some("99")), 32);
    assert_eq!(max_concurrency(Some("x")), 2);
    assert_eq!(max_retries(None), 2);
    assert_eq!(max_retries(Some("9")), 5);
    assert_eq!(max_retries(Some("0")), 0);
}

#[test]
fn requests_are_sent_again_within_the_limit() {
    assert_eq!(after_send(0, 2, SendResult::Status(200)), AfterSend::Accept);
    assert_eq!(after_send(0, 2, SendResult::Status(503)), AfterSend::Wait(500));
    assert_eq!(after_send(1, 2, SendResult::NoResponse), AfterSend::Wait(1000));
    assert_eq!(after_send(1, 2, SendResult::Status(429)), AfterSend::Wait(1000));
    assert_eq!(after_send(2, 2, SendResult::Status(503)), AfterSend::GiveUp);
    assert_eq!(after_send(0, 2, SendResult::Status(400)), AfterSend::GiveUp);
}

#[test]
fn errors_name_the_request() {
    assert!(status_error("chat completion", 500, "body").contains("500"));
    assert!(send_error("chat completion", "timeout").contains("timeout"));
}

#[test]
fn large_outputs_are_streamed_and_halved() {
    assert!(!uses_stream(4096));
    assert!(uses_stream(100_000));
    assert_eq!(smaller_output(32768), Some(16384));
    assert_eq!(smaller_output(16384), None);
}

#[test]
fn json_is_asked_for_in_the_messages() {
    let messages = prompt_messages("system", "user");
    let with = with_json_instruction(&messages);
    let text: String = with.iter().map(|m| m.content.clone()).collect();
    assert!(text.to_lowercase().contains("json"));
    let again = json_retry_messages("s", "u", "r");
    assert_eq!(again.len(), 4);
    assert_eq!(again[2].content, "r");
    assert!(again[3].content.contains("not valid JSON"));
}

#[test]
fn request_bodies_hold_what_is_asked() {
    let body = request_body(
        "m",
        &prompt_messages("s", "u"),
        Json::Numeral("0.3".to_string()),
        99,
        true,
        Some("json_object"),
    );
    assert_eq!(body.get("model").unwrap().as_str(), Some("m"));
    assert_eq!(body.get("max_tokens").unwrap().as_u64(), Some(99));
    assert_eq!(body.get("stream").unwrap().as_bool(), Some(true));
    assert_eq!(
        body.get("response_format").unwrap().get("type").unwrap().as_str(),
        Some("json_object")
    );
    assert_eq!(body.get("messages").unwrap().as_array().unwrap().len(), 2);
}

#[test]
fn replies_are_the_first_choice() {
    let response = parse(
        r#"{"choices": [{"message": {"content": "hi"}, "finish_reason": "stop"}, {}]}"#,
    )
    .unwrap();
    let (content, reason) = reply_of(&response).unwrap();
    assert_eq!(content, "hi");
    assert_eq!(reason.as_deref(), Some("stop"));
    assert!(reply_of(&parse("{}").unwrap()).unwrap_err().contains("choices[0]"));
}

#[test]
fn answers_are_logged() {
    let body = r#"{"choices": [{"message": {"content": "hi"}}]}"#.to_string();
    let answer = read_answer(Received::Body { status: 200, text: body }, true);
    assert_eq!(answer.result, Ok(("hi".to_string(), None)));
    assert_eq!(answer.log.status, "succeeded");
    let response = answer.log.response.unwrap();
    assert_eq!(response.get("content").unwrap().as_str(), Some("hi"));
    assert!(matches!(response.get("finish_reason"), Some(Json::Null)));

    let answer = read_answer(Received::Body { status: 502, text: "<html>".to_string() }, false);
    assert!(answer.result.unwrap_err().contains("HTTP status=502"));
    assert_eq!(answer.log.status, "failed");

    let answer = read_answer(Received::Unreadable { status: 200, error: "cut".to_string() }, false);
    assert_eq!(
        answer.result.unwrap_err(),
        "failed to read chat completion response body as text: HTTP status=200, error=cut"
    );

    let answer = read_answer(Received::Nothing { error: "down".to_string() }, false);
    assert_eq!(answer.log.error.as_deref(), Some("down"));
    assert!(answer.log.response.is_none());

    let answer = read_value(parse("{}").unwrap(), false);
    assert!(answer.result.unwrap_err().contains("unexpected response shape"));
    assert!(answer.log.response.unwrap().get("raw").is_some());
}

#[test]
fn fences_are_taken_off() {
    assert_eq!(strip_fences_for_json_mode(" ```json\n{}\n``` "), "{}");
    assert_eq!(strip_fences_for_json_mode("```\nx"), "x");
    assert_eq!(strip_fences_for_json_mode(" y "), "y");
    let value = strip_code_fences_and_parse("```json\n{\"a\": [1, -2, 1.5, null]}\n```").unwrap();
    let items = value.get("a").unwrap().as_array().unwrap();
    assert_eq!(items[0].as_u64(), Some(1));
    assert!(matches!(&items[1], Json::Numeral(t) if t == "-2"));
    assert!(matches!(&items[2], Json::Numeral(t) if t == "1.5"));
    assert!(matches!(items[3], Json::Null));
    assert!(strip_code_fences_and_parse("```json\nnope\n```").is_err());
}

#[test]
fn json_is_asked_for_twice() {
    assert!(matches!(judge_json_reply("s", "u", "{}", false), JsonReply::Value(_)));
    match judge_json_reply("s", "u", "no", false) {
        JsonReply::AskAgain(messages) => assert_eq!(messages[2].content, "no"),
        other => panic!("unexpected {:?}", other),
    }
    match judge_parsed(Err("e".to_string()), "s", "u", "no", true) {
        JsonReply::Failed(e) => assert_eq!(e, "JSON parse failed on retry as well"),
        other => panic!("unexpected {:?}", other),
    }
}

const PIECE: &str = "data: {\"choices\":[{\"delta\":{\"content\":\"ab\"}}]}\n";

#[test]
fn streamed_replies_are_gathered() {
    let mut run = StreamRun::new();
    let (head, tail) = PIECE.split_at(20);
    assert!(matches!(
        run.read(false, StreamEvent::Chunk(format!(": ping\n{}", head))),
        StreamAction::Read
    ));
    assert!(matches!(
        run.read(false, StreamEvent::Chunk(tail.to_string())),
        StreamAction::Read
    ));
    match run.read(false, StreamEvent::Chunk(format!("{}data: [DONE]\n", PIECE))) {
        StreamAction::Finish(outcome) => {
            let log = log_result(&outcome);
            assert_eq!(log.status, "succeeded");
            match outcome {
                StreamOutcome::Complete { text, .. } => assert_eq!(text, "abab"),
                other => panic!("unexpected {:?}", other),
            }
        }
        other => panic!("unexpected {:?}", other),
    }
    assert!(matches!(run.read(false, StreamEvent::Ended), StreamAction::Idle));
}

#[test]
fn broken_streams_keep_what_arrived() {
    let mut run = StreamRun::new();
    run.read(false, StreamEvent::Chunk(PIECE.to_string()));
    match run.read(false, StreamEvent::Broken("cut".to_string())) {
        StreamAction::Finish(StreamOutcome::Partial { text, error, .. }) => {
            assert_eq!(text, "ab");
            assert_eq!(error, "Stream interrupted: cut");
        }
        other => panic!("unexpected {:?}", other),
    }
    let mut run = StreamRun::new();
    match run.read(false, StreamEvent::Broken("cut".to_string())) {
        StreamAction::Finish(StreamOutcome::Nothing { error }) => {
            assert_eq!(error, "Stream error: cut")
        }
        other => panic!("unexpected {:?}", other),
    }
    let mut run = StreamRun::new();
    match run.read(false, StreamEvent::Chunk("data: nope\n".to_string())) {
        StreamAction::Finish(StreamOutcome::BadPayload { error, partial }) => {
            assert!(error.starts_with("Failed to parse SSE data: "));
            assert_eq!(partial, "");
        }
        other => panic!("unexpected {:?}", other),
    }
}

#[test]
fn pieces_are_passed_on() {
    let mut run = ForwardRun::new();
    match run.read(ForwardEvent::Chunk(format!("{}{}", PIECE, PIECE))) {
        ForwardAction::Send(piece) => assert_eq!(piece, "ab"),
        other => panic!("unexpected {:?}", other),
    }
    match run.read(ForwardEvent::Taken) {
        ForwardAction::Send(piece) => assert_eq!(piece, "ab"),
        other => panic!("unexpected {:?}", other),
    }
    assert!(matches!(run.read(ForwardEvent::Taken), ForwardAction::Read));
    match run.read(ForwardEvent::Ended) {
        ForwardAction::Finish(word) => {
            assert!(matches!(word, LastWord::Complete));
            let log = forward_log(&word, &run.accumulated);
            assert_eq!(log.status, "succeeded");
            assert_eq!(log.response.unwrap().get("content").unwrap().as_str(), Some("abab"));
        }
        other => panic!("unexpected {:?}", other),
    }
}

#[test]
fn receivers_can_leave() {
    let mut run = ForwardRun::new();
    run.read(ForwardEvent::Chunk(PIECE.to_string()));
    match run.read(ForwardEvent::Dropped) {
        ForwardAction::Finish(word) => {
            assert!(matches!(word, LastWord::Silence));
            assert_eq!(forward_log(&word, "ab").status, "succeeded");
        }
        other => panic!("unexpected {:?}", other),
    }
    let mut run = ForwardRun::new();
    match run.read(ForwardEvent::Broken("cut".to_string())) {
        ForwardAction::Finish(LastWord::Failed(e)) => assert_eq!(e, "Stream error: cut"),
        other => panic!("unexpected {:?}", other),
    }
}

#[test]
fn logs_are_listed_newest_first() {
    assert_eq!(list_logs(&[3, 9, 5], 2), vec![1, 2]);
    assert!(list_logs(&[], 5).is_empty());
    let name = log_file_name(1234, "abc");
    assert_eq!(log_time(name.trim_end_matches(".json")), 1234);
    assert_eq!(log_time("none"), 0);
}

#[test]
fn logs_are_found_by_identifier() {
    assert!(is_log_of(&parse(r#"{"id": "x"}"#).unwrap(), "x"));
    assert!(!is_log_of(&parse(r#"{"id": "x"}"#).unwrap(), "y"));
    assert!(log_not_found("q").contains("q"));
    assert_eq!(preview(None, Some("broken")).as_deref(), Some("broken"));
    assert_eq!(preview(None, None), None);
}

#[test]
fn blank_lines_before_headings_are_collapsed() {
    let compacted = compact_transcript_for_llm("a\n\n\n# H\n", 1000);
    assert!(!compacted.contains("\n\n\n"));
    assert_eq!(compacted, "a\n\n# H\n");
}
