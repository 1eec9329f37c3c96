use dvd_categorize::catalog::StoredChatMessage;
use dvd_categorize::prompts::{related_keys_question, user_library_prompt};
use dvd_categorize::chat::{
    pull_success_message,
    build_movie_matcher_prompt, history_session, matcher_request, requested_session,
    first_turn_text, model_or_default, new_turn_messages, ollama_url, rag_system_prompt,
    session_error, stream_start_error, streaming_conversation, tool_chat_history, turns_to_save,
    ChatTurn, Role, SseEvent, Speaker, StreamChunk, StreamState,
};
use dvd_categorize::chat::{chat_reply, stream_events, stream_turns_to_save, ChatReply};

fn turn(role: Role, m: &str) -> ChatTurn {
    ChatTurn { role, message: m.to_string() }
}

fn stored(role: &str, c: &str) -> StoredChatMessage {
    StoredChatMessage { role: role.to_string(), content: c.to_string() }
}

#[test]
fn defaults() {
    assert_eq!(model_or_default(None), "qwen2.5:7b");
    assert_eq!(model_or_default(Some("llama3".to_string())), "llama3");
    assert_eq!(ollama_url(None, None), "http://ollama:11434");
    assert_eq!(ollama_url(Some("localhost".to_string()), None), "http://localhost:11434");
}

#[test]
fn conversation_order() {
    let history = vec![stored("user", "hi"), stored("assistant", "hello"), stored("tool", "x")];
    let turns = vec![turn(Role::User, "find heat"), turn(Role::Ai, "ok")];
    let c = streaming_conversation("SYS", &history, &turns);
    let speakers: Vec<Speaker> = c.iter().map(|m| m.speaker).collect();
    assert_eq!(
        speakers,
        vec![Speaker::System, Speaker::User, Speaker::Assistant, Speaker::Assistant, Speaker::User, Speaker::Assistant]
    );
    assert_eq!(c[0].content, "SYS");
    assert_eq!(c[4].content, "find heat");
    let h = tool_chat_history("SYS", &history);
    assert_eq!(h.len(), 4);
    assert_eq!(new_turn_messages(&turns).len(), 2);
}

#[test]
fn prompts_and_turns() {
    assert_eq!(rag_system_prompt(None, "BASE", "CTX"), "BASE\n\nCTX");
    assert_eq!(rag_system_prompt(Some("MINE".to_string()), "BASE", ""), "MINE\n\n");
    assert_eq!(first_turn_text(&vec![]), "");
    let turns = vec![turn(Role::User, "a"), turn(Role::Ai, "b"), turn(Role::User, "c")];
    assert_eq!(first_turn_text(&turns), "a");
    let save = turns_to_save(&turns, "answer");
    let rows: Vec<(String, String)> = save.iter().map(|t| (t.role.clone(), t.content.clone())).collect();
    assert_eq!(
        rows,
        vec![
            ("user".to_string(), "a".to_string()),
            ("user".to_string(), "c".to_string()),
            ("assistant".to_string(), "answer".to_string())
        ]
    );
}

#[test]
fn stream_gathers_the_answer() {
    let mut st = StreamState::new();
    let step = st.on_chunk(StreamChunk::Piece { content: "Hel".to_string(), done: false }, "sid");
    assert!(!step.finished);
    assert!(matches!(&step.events[..], [SseEvent::Message(m)] if m == "Hel"));
    let step = st.on_chunk(StreamChunk::Piece { content: String::new(), done: false }, "sid");
    assert!(step.events.is_empty());
    let step = st.on_chunk(StreamChunk::Piece { content: "lo".to_string(), done: true }, "sid");
    assert!(step.finished);
    assert_eq!(step.save, Some("Hello".to_string()));
    assert!(matches!(&step.events[..], [SseEvent::Message(_), SseEvent::Session(s), SseEvent::Done] if s == "sid"));
    assert_eq!(st.accumulated, "Hello");
}

#[test]
fn stream_errors() {
    let mut st = StreamState::new();
    let step = st.on_chunk(StreamChunk::Piece { content: String::new(), done: true }, "sid");
    assert_eq!(step.save, None);
    let step = st.on_chunk(StreamChunk::Failed { reason: "reset".to_string() }, "sid");
    assert!(step.finished);
    assert!(matches!(&step.events[..], [SseEvent::Error(e)] if e == "Stream error: reset"));
    assert!(matches!(stream_start_error("refused"), SseEvent::Error(e) if e == "Failed to start stream: refused"));
    assert!(matches!(session_error(), SseEvent::Error(e) if e == "Failed to create session"));
}

#[test]
fn valid_session_ids_are_continued() {
    let id = "550e8400-e29b-41d4-a716-446655440000";
    let expected = uuid::Uuid::parse_str(id).unwrap().as_u128();
    assert_eq!(requested_session(&Some(id.to_string())), Some(expected));
    assert_eq!(requested_session(&Some("not-a-uuid".to_string())), None);
    assert_eq!(requested_session(&None), None);
}

#[test]
fn history_of_malformed_session_is_refused() {
    let id = "550e8400-e29b-41d4-a716-446655440000";
    assert_eq!(history_session(id), Ok(0x550e8400_e29b_41d4_a716_446655440000u128));
    let reason = uuid::Uuid::parse_str("xyz").unwrap_err().to_string();
    assert_eq!(history_session("xyz"), Err(format!("Invalid session ID: {}", reason)));
}

fn test_library_json() -> String {
    let movie = |id: i64, name: &str, year: i64| {
        let mut m = serde_json::Map::new();
        m.insert("id".to_string(), serde_json::Value::from(id));
        m.insert("name".to_string(), serde_json::Value::from(name));
        m.insert("release_year".to_string(), serde_json::Value::from(year));
        serde_json::Value::Object(m)
    };
    serde_json::Value::Array(vec![movie(1, "The Matrix", 1999), movie(2, "Inception", 2010)]).to_string()
}

#[test]
fn test_build_movie_matcher_prompt() {
    let prompt = build_movie_matcher_prompt(&test_library_json());
    assert!(prompt.contains("The Matrix"));
    assert!(prompt.contains("Inception"));
    assert!(!prompt.contains("{USER_MOVIE_LIBRARY}"));
    assert!(prompt.contains("=== Movie ID Matcher System ==="));
}

#[test]
fn test_build_movie_matcher_prompt_empty() {
    let empty: Vec<serde_json::Value> = vec![];
    let prompt = build_movie_matcher_prompt(&serde_json::Value::Array(empty).to_string());
    assert!(prompt.contains("[]"));
}

#[test]
fn library_and_question_prompts() {
    let prompt = user_library_prompt("[]");
    assert!(prompt.contains("=== Active Dataset ===\n[]\n"));
    assert_eq!(related_keys_question("Comedy movies"), "User question: Comedy movies");
}

#[test]
fn matching_against_empty_library_is_refused() {
    let r = matcher_request(0, "prompt".to_string(), "Find movies");
    assert_eq!(r.err(), Some("DVDs empty, cannot match".to_string()));
    let msgs = matcher_request(2, "prompt".to_string(), "Find movies").unwrap();
    assert_eq!(msgs.len(), 2);
    assert_eq!(msgs[0].speaker, Speaker::System);
    assert_eq!(msgs[0].content, "prompt");
    assert_eq!(msgs[1].speaker, Speaker::User);
    assert_eq!(msgs[1].content, "Find movies");
}

#[test]
fn pull_reports() {
    assert_eq!(pull_success_message("qwen2.5:7b", "success"), "Successfully pulled model: qwen2.5:7b (success)");
}

#[test]
fn test_get_matching_movies_empty_dvds() {
    let result = matcher_request(0, build_movie_matcher_prompt("[]"), "Find movies");
    assert!(result.is_err());
    assert_eq!(result.err().unwrap(), "DVDs empty, cannot match");
}

#[test]
fn chat_reply_stores_turns_only_on_an_answer() {
    let turns = vec![turn(Role::User, "hi"), turn(Role::Ai, "earlier"), turn(Role::User, "more")];
    match chat_reply(&turns, "sid-1", Ok("answer".to_string())) {
        ChatReply::Answered { message, session_id, saved } => {
            assert_eq!(message, "answer");
            assert_eq!(session_id, "sid-1");
            assert_eq!(saved.len(), 3);
            assert_eq!(saved[0].content, "hi");
            assert_eq!(saved[1].content, "more");
            assert_eq!(saved[2].role, "assistant");
        }
        _ => panic!("expected an answer"),
    }
    match chat_reply(&turns, "sid-1", Err("model offline".to_string())) {
        ChatReply::Failed { status, message } => {
            assert_eq!(status, 500);
            assert_eq!(message, "Failed to generate AI response: model offline");
        }
        _ => panic!("expected a failure"),
    }
}

#[test]
fn streaming_stores_every_request_turn_as_user() {
    let turns = vec![turn(Role::User, "hi"), turn(Role::Ai, "earlier")];
    let saved = stream_turns_to_save(&turns);
    assert_eq!(saved.len(), 2);
    assert_eq!(saved[0].role, "user");
    assert_eq!(saved[1].role, "user");
    assert_eq!(saved[1].content, "earlier");
}

fn piece(c: &str, done: bool) -> StreamChunk {
    StreamChunk::Piece { content: c.to_string(), done }
}

#[test]
fn whole_stream_events_and_saved_answer() {
    let (events, save) = stream_events(vec![piece("Hel", false), piece("", false), piece("lo", true), piece("x", false)], "s1");
    assert_eq!(events.len(), 4);
    assert!(matches!(&events[0], SseEvent::Message(m) if m == "Hel"));
    assert!(matches!(&events[1], SseEvent::Message(m) if m == "lo"));
    assert!(matches!(&events[2], SseEvent::Session(s) if s == "s1"));
    assert!(matches!(events[3], SseEvent::Done));
    assert_eq!(save, Some("Hello".to_string()));

    let (events, save) = stream_events(vec![piece("a", false), StreamChunk::Failed { reason: "eof".to_string() }], "s1");
    assert_eq!(events.len(), 2);
    assert!(matches!(&events[1], SseEvent::Error(e) if e == "Stream error: eof"));
    assert_eq!(save, None);

    let (events, save) = stream_events(vec![piece("", true)], "s1");
    assert_eq!(events.len(), 2);
    assert_eq!(save, None);
}
