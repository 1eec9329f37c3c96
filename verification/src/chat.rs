//! The chat endpoints' rules: which conversation is sent to the model,
//! which turns are stored afterwards, and how a streamed answer becomes
//! server-sent events.

use vstd::prelude::*;
use crate::catalog::StoredChatMessage;
use crate::text::{replace_all, replace_str, to_chars};
use crate::prompts::MOVIE_ID_MATCHER_PROMPT;

verus! {

/// Who wrote a turn of a chat request.
#[derive(Debug, Clone, Copy, PartialEq, Eq, Structural)]
pub enum Role {
    User,
    Ai,
}

/// One turn of a chat request.
pub struct ChatTurn {
    pub role: Role,
    pub message: String,
}

/// Who speaks in a message sent to the model.
#[derive(Debug, Clone, Copy, PartialEq, Eq)]
pub enum Speaker {
    System,
    User,
    Assistant,
}

/// A message sent to the model.
pub struct OutgoingMessage {
    pub speaker: Speaker,
    pub content: String,
}

/// Model used when the request names none.
pub const DEFAULT_CHAT_MODEL: &'static str = "qwen2.5:7b";

/// Ollama host used when none is configured.
pub const DEFAULT_OLLAMA_HOST: &'static str = "ollama";

/// Ollama port used when none is configured.
pub const DEFAULT_OLLAMA_PORT: &'static str = "11434";

/// The model to use: the requested one, else the default.
pub fn model_or_default(model: Option<String>) -> (r: String)
    ensures
        r@ == (match model {
            Some(m) => m@,
            None => DEFAULT_CHAT_MODEL@,
        }),
{
    match model {
        Some(m) => m,
        None => String::from_str(DEFAULT_CHAT_MODEL),
    }
}

/// `http://<host>:<port>` of the Ollama server, each part defaulting when
/// not configured.
pub fn ollama_url(host: Option<String>, port: Option<String>) -> (r: String)
    ensures
        r@ == "http://"@ + (match host {
            Some(h) => h@,
            None => DEFAULT_OLLAMA_HOST@,
        }) + ":"@ + (match port {
            Some(p) => p@,
            None => DEFAULT_OLLAMA_PORT@,
        }),
{
    let mut r = String::from_str("http://");
    match &host {
        Some(h) => r.append(h.as_str()),
        None => r.append(DEFAULT_OLLAMA_HOST),
    }
    r.append(":");
    match &port {
        Some(p) => r.append(p.as_str()),
        None => r.append(DEFAULT_OLLAMA_PORT),
    }
    r
}

/// The speaker of a stored turn: `"user"` is the user, anything else the
/// assistant.
pub open spec fn stored_speaker(role: Seq<char>) -> Speaker {
    if role == "user"@ {
        Speaker::User
    } else {
        Speaker::Assistant
    }
}

/// The speaker of a request turn.
pub open spec fn turn_speaker(role: Role) -> Speaker {
    match role {
        Role::User => Speaker::User,
        Role::Ai => Speaker::Assistant,
    }
}

/// `m` says `content` as `speaker`.
pub open spec fn says(m: OutgoingMessage, speaker: Speaker, content: Seq<char>) -> bool {
    m.speaker == speaker && m.content@ == content
}

/// Appends the stored turns, each as its speaker.
fn push_history(out: &mut Vec<OutgoingMessage>, history: &Vec<StoredChatMessage>)
    ensures
        final(out)@.len() == old(out)@.len() + history@.len(),
        forall|k: int| 0 <= k < old(out)@.len() ==> #[trigger] final(out)@[k] == old(out)@[k],
        forall|k: int|
            0 <= k < history@.len() ==> says(
                #[trigger] final(out)@[old(out)@.len() + k],
                stored_speaker(history@[k].role@),
                history@[k].content@,
            ),
{
    let user = String::from_str("user");
    let ghost start = out@;
    let mut i: usize = 0;
    while i < history.len()
        invariant
            i <= history.len(),
            user@ == "user"@,
            out@.len() == start.len() + i,
            forall|k: int| 0 <= k < start.len() ==> #[trigger] out@[k] == start[k],
            forall|k: int|
                0 <= k < i ==> says(
                    #[trigger] out@[start.len() + k],
                    stored_speaker(history@[k].role@),
                    history@[k].content@,
                ),
        decreases history.len() - i,
    {
        let speaker = if history[i].role == user {
            Speaker::User
        } else {
            Speaker::Assistant
        };
        out.push(OutgoingMessage { speaker, content: history[i].content.clone() });
        i += 1;
    }
}

/// Appends the request turns, each as its speaker.
fn push_turns(out: &mut Vec<OutgoingMessage>, turns: &Vec<ChatTurn>)
    ensures
        final(out)@.len() == old(out)@.len() + turns@.len(),
        forall|k: int| 0 <= k < old(out)@.len() ==> #[trigger] final(out)@[k] == old(out)@[k],
        forall|k: int|
            0 <= k < turns@.len() ==> says(
                #[trigger] final(out)@[old(out)@.len() + k],
                turn_speaker(turns@[k].role),
                turns@[k].message@,
            ),
{
    let ghost start = out@;
    let mut i: usize = 0;
    while i < turns.len()
        invariant
            i <= turns.len(),
            out@.len() == start.len() + i,
            forall|k: int| 0 <= k < start.len() ==> #[trigger] out@[k] == start[k],
            forall|k: int|
                0 <= k < i ==> says(
                    #[trigger] out@[start.len() + k],
                    turn_speaker(turns@[k].role),
                    turns@[k].message@,
                ),
        decreases turns.len() - i,
    {
        let speaker = match turns[i].role {
            Role::User => Speaker::User,
            Role::Ai => Speaker::Assistant,
        };
        out.push(OutgoingMessage { speaker, content: turns[i].message.clone() });
        i += 1;
    }
}

/// The history the tool-calling chat starts from: the system prompt, then
/// every stored turn. The new turns are handed over separately.
pub fn tool_chat_history(system_prompt: &str, history: &Vec<StoredChatMessage>) -> (r: Vec<OutgoingMessage>)
    ensures
        r@.len() == 1 + history@.len(),
        says(r@[0], Speaker::System, system_prompt@),
        forall|k: int|
            0 <= k < history@.len() ==> says(
                #[trigger] r@[1 + k],
                stored_speaker(history@[k].role@),
                history@[k].content@,
            ),
{
    let mut r: Vec<OutgoingMessage> = Vec::new();
    r.push(OutgoingMessage { speaker: Speaker::System, content: String::from_str(system_prompt) });
    push_history(&mut r, history);
    r
}

/// The new turns of a request as messages to the model.
pub fn new_turn_messages(turns: &Vec<ChatTurn>) -> (r: Vec<OutgoingMessage>)
    ensures
        r@.len() == turns@.len(),
        forall|k: int|
            0 <= k < turns@.len() ==> says(#[trigger] r@[k], turn_speaker(turns@[k].role), turns@[k].message@),
{
    let mut r: Vec<OutgoingMessage> = Vec::new();
    push_turns(&mut r, turns);
    assert forall|k: int| 0 <= k < turns@.len() implies says(
        #[trigger] r@[k],
        turn_speaker(turns@[k].role),
        turns@[k].message@,
    ) by {
        assert(r@[0 + k] == r@[k]);
    }
    r
}

/// The conversation the streaming chat sends: the system prompt, the
/// stored turns, then the new turns.
pub fn streaming_conversation(
    system_prompt: &str,
    history: &Vec<StoredChatMessage>,
    turns: &Vec<ChatTurn>,
) -> (r: Vec<OutgoingMessage>)
    ensures
        r@.len() == 1 + history@.len() + turns@.len(),
        says(r@[0], Speaker::System, system_prompt@),
        forall|k: int|
            0 <= k < history@.len() ==> says(
                #[trigger] r@[1 + k],
                stored_speaker(history@[k].role@),
                history@[k].content@,
            ),
        forall|k: int|
            0 <= k < turns@.len() ==> says(
                #[trigger] r@[1 + history@.len() + k],
                turn_speaker(turns@[k].role),
                turns@[k].message@,
            ),
{
    let mut r = tool_chat_history(system_prompt, history);
    push_turns(&mut r, turns);
    r
}

/// The system prompt of the streaming chat: the request's prompt (else
/// the default one), a blank line, then the movie context.
pub fn rag_system_prompt(custom: Option<String>, default_prompt: &str, movie_context: &str) -> (r: String)
    ensures
        r@ == (match custom {
            Some(p) => p@,
            None => default_prompt@,
        }) + "\n\n"@ + movie_context@,
{
    let mut r = match custom {
        Some(p) => p,
        None => String::from_str(default_prompt),
    };
    r.append("\n\n");
    r.append(movie_context);
    r
}

/// The text of the first turn of a request, or the empty text.
pub fn first_turn_text(turns: &Vec<ChatTurn>) -> (r: String)
    ensures
        r@ == (if turns@.len() > 0 {
            turns@[0].message@
        } else {
            Seq::empty()
        }),
{
    if turns.len() > 0 {
        turns[0].message.clone()
    } else {
        String::new()
    }
}

/// The user's turns of a request, in order.
pub open spec fn user_turns(turns: Seq<ChatTurn>) -> Seq<Seq<char>>
    decreases turns.len(),
{
    if turns.len() == 0 {
        Seq::empty()
    } else {
        let rest = user_turns(turns.drop_last());
        if turns.last().role == Role::User {
            rest.push(turns.last().message@)
        } else {
            rest
        }
    }
}

/// A chat turn to store: its role and content.
pub struct TurnToSave {
    pub role: String,
    pub content: String,
}

/// `saved` is what the tool-calling chat stores after the model answered:
/// each user turn of the request as `"user"`, then the answer as
/// `"assistant"`.
pub open spec fn saves_after_answer(saved: Seq<TurnToSave>, turns: Seq<ChatTurn>, answer: Seq<char>) -> bool {
    &&& saved.len() == user_turns(turns).len() + 1
    &&& forall|k: int|
        0 <= k < user_turns(turns).len() ==> (#[trigger] saved[k]).role@ == "user"@ && saved[k].content@
            == user_turns(turns)[k]
    &&& saved.last().role@ == "assistant"@
    &&& saved.last().content@ == answer
}

/// What the tool-calling chat stores after the model answered: each user
/// turn of the request as `"user"`, then the answer as `"assistant"`.
pub fn turns_to_save(turns: &Vec<ChatTurn>, answer: &str) -> (r: Vec<TurnToSave>)
    ensures
        saves_after_answer(r@, turns@, answer@),
{
    let mut r: Vec<TurnToSave> = Vec::new();
    let mut i: usize = 0;
    while i < turns.len()
        invariant
            i <= turns.len(),
            r@.len() == user_turns(turns@.take(i as int)).len(),
            forall|k: int|
                0 <= k < r@.len() ==> (#[trigger] r@[k]).role@ == "user"@ && r@[k].content@ == user_turns(
                    turns@.take(i as int),
                )[k],
        decreases turns.len() - i,
    {
        assert(turns@.take(i + 1).drop_last() =~= turns@.take(i as int));
        if turns[i].role == Role::User {
            r.push(TurnToSave { role: String::from_str("user"), content: turns[i].message.clone() });
        }
        i += 1;
    }
    assert(turns@.take(turns.len() as int) =~= turns@);
    r.push(TurnToSave { role: String::from_str("assistant"), content: String::from_str(answer) });
    r
}

/// The reply of the tool-calling chat.
pub enum ChatReply {
    /// The model's answer and the session it belongs to, after storing `saved`.
    Answered { message: String, session_id: String, saved: Vec<TurnToSave> },
    /// The request failed with this HTTP status and text; nothing is stored.
    Failed { status: u16, message: String },
}

/// The tool-calling chat's reply to what the model gave: on an answer, the
/// request's user turns and the answer are stored and the answer is sent
/// with the session id; on a failure, nothing is stored and the reply is
/// status 500 with `Failed to generate AI response: <error>`.
pub fn chat_reply(turns: &Vec<ChatTurn>, session_id: &str, answer: Result<String, String>) -> (r: ChatReply)
    ensures
        match answer {
            Ok(a) => r matches ChatReply::Answered { message, session_id: s, saved } && message@ == a@
                && s@ == session_id@ && saves_after_answer(saved@, turns@, a@),
            Err(e) => r matches ChatReply::Failed { status, message } && status == 500 && message@
                == "Failed to generate AI response: "@ + e@,
        },
{
    match answer {
        Ok(a) => {
            let saved = turns_to_save(turns, a.as_str());
            ChatReply::Answered { message: a, session_id: String::from_str(session_id), saved }
        },
        Err(e) => {
            let mut message = String::from_str("Failed to generate AI response: ");
            message.append(e.as_str());
            ChatReply::Failed { status: 500, message }
        },
    }
}

/// The turns the streaming chat stores before it reads the model's stream:
/// every turn of the request, in order, as `"user"`.
pub fn stream_turns_to_save(turns: &Vec<ChatTurn>) -> (r: Vec<TurnToSave>)
    ensures
        r@.len() == turns@.len(),
        forall|k: int|
            0 <= k < turns@.len() ==> (#[trigger] r@[k]).role@ == "user"@ && r@[k].content@ == turns@[k].message@,
{
    let mut r: Vec<TurnToSave> = Vec::new();
    let mut i: usize = 0;
    while i < turns.len()
        invariant
            i <= turns.len(),
            r@.len() == i,
            forall|k: int| 0 <= k < i ==> (#[trigger] r@[k]).role@ == "user"@ && r@[k].content@ == turns@[k].message@,
        decreases turns.len() - i,
    {
        r.push(TurnToSave { role: String::from_str("user"), content: turns[i].message.clone() });
        i += 1;
    }
    r
}

// ---------------------------------------------------------------------------
// Streaming the answer as server-sent events
// ---------------------------------------------------------------------------

/// What the model's stream delivered next.
pub enum StreamChunk {
    /// A piece of the answer; `done` marks the last one.
    Piece { content: String, done: bool },
    /// The stream broke; `reason` describes the failure.
    Failed { reason: String },
}

/// A server-sent event.
#[derive(Debug)]
pub enum SseEvent {
    /// `event: message` with a piece of the answer.
    Message(String),
    /// `event: session` with the session id.
    Session(String),
    /// `event: done` with no data.
    Done,
    /// `event: error` with a description.
    Error(String),
}

/// What to do after one chunk: the events to send, the answer to store
/// (once, when the stream ends with a non-empty answer) and whether the
/// stream is over.
pub struct StreamStep {
    pub events: Vec<SseEvent>,
    pub save: Option<String>,
    pub finished: bool,
}

/// The answer gathered so far.
pub struct StreamState {
    pub accumulated: String,
}

/// The error event sent when the model's stream cannot be started.
pub fn stream_start_error(reason: &str) -> (r: SseEvent)
    ensures
        r matches SseEvent::Error(e) && e@ == "Failed to start stream: "@ + reason@,
{
    let mut e = String::from_str("Failed to start stream: ");
    e.append(reason);
    SseEvent::Error(e)
}

/// The error event sent when no session can be created.
pub fn session_error() -> (r: SseEvent)
    ensures
        r matches SseEvent::Error(e) && e@ == "Failed to create session"@,
{
    SseEvent::Error(String::from_str("Failed to create session"))
}

/// An event as sent on the wire: its name and its data.
pub open spec fn sse_frame(e: SseEvent) -> (Seq<char>, Seq<char>) {
    match e {
        SseEvent::Message(m) => ("message"@, m@),
        SseEvent::Session(s) => ("session"@, s@),
        SseEvent::Done => ("done"@, Seq::empty()),
        SseEvent::Error(x) => ("error"@, x@),
    }
}

/// Events as sent on the wire.
pub open spec fn sse_frames(events: Seq<SseEvent>) -> Seq<(Seq<char>, Seq<char>)> {
    events.map_values(|e: SseEvent| sse_frame(e))
}

/// The events one chunk sends, given the answer gathered before it.
pub open spec fn chunk_frames(chunk: StreamChunk, session_id: Seq<char>) -> Seq<(Seq<char>, Seq<char>)> {
    match chunk {
        StreamChunk::Piece { content, done } => (if content@.len() > 0 {
            seq![("message"@, content@)]
        } else {
            Seq::empty()
        }) + (if done {
            seq![("session"@, session_id), ("done"@, Seq::<char>::empty())]
        } else {
            Seq::empty()
        }),
        StreamChunk::Failed { reason } => seq![("error"@, "Stream error: "@ + reason@)],
    }
}

/// Whether a chunk ends the stream: the last piece, or a failure.
pub open spec fn chunk_ends(chunk: StreamChunk) -> bool {
    match chunk {
        StreamChunk::Piece { done, .. } => done,
        StreamChunk::Failed { .. } => true,
    }
}

/// The answer gathered after a chunk.
pub open spec fn chunk_answer(chunk: StreamChunk, acc: Seq<char>) -> Seq<char> {
    match chunk {
        StreamChunk::Piece { content, .. } => acc + content@,
        StreamChunk::Failed { .. } => acc,
    }
}

/// The answer stored after a chunk: the whole answer, when the chunk is the
/// last piece and the answer is not empty.
pub open spec fn chunk_save(chunk: StreamChunk, acc: Seq<char>) -> Option<Seq<char>> {
    match chunk {
        StreamChunk::Piece { content, done } => if done && (acc + content@).len() > 0 {
            Some(acc + content@)
        } else {
            None
        },
        StreamChunk::Failed { .. } => None,
    }
}

/// The events a stream sends, chunk by chunk until one ends it.
pub open spec fn stream_frames(chunks: Seq<StreamChunk>, session_id: Seq<char>) -> Seq<(Seq<char>, Seq<char>)>
    decreases chunks.len(),
{
    if chunks.len() == 0 {
        Seq::empty()
    } else {
        chunk_frames(chunks[0], session_id) + if chunk_ends(chunks[0]) {
            Seq::empty()
        } else {
            stream_frames(chunks.drop_first(), session_id)
        }
    }
}

/// The answer a stream stores, given the answer gathered before it: the
/// whole answer when the stream ends with a last piece and the answer is
/// not empty; nothing when it fails or never ends.
pub open spec fn stream_save(chunks: Seq<StreamChunk>, acc: Seq<char>) -> Option<Seq<char>>
    decreases chunks.len(),
{
    if chunks.len() == 0 {
        None
    } else if chunk_ends(chunks[0]) {
        chunk_save(chunks[0], acc)
    } else {
        stream_save(chunks.drop_first(), chunk_answer(chunks[0], acc))
    }
}

/// The plain value of an optional text.
pub open spec fn opt_view(o: Option<String>) -> Option<Seq<char>> {
    match o {
        Some(t) => Some(t@),
        None => None,
    }
}

impl StreamState {
    /// Nothing gathered yet.
    pub fn new() -> (r: StreamState)
        ensures
            r.accumulated@.len() == 0,
    {
        StreamState { accumulated: String::new() }
    }

    /// Handles one chunk: a non-empty piece is gathered and forwarded; the
    /// last piece also stores the whole answer (when not empty) and sends
    /// the session id and `done`; a failure sends `Stream error: <reason>`
    /// and ends the stream.
    pub fn on_chunk(&mut self, chunk: StreamChunk, session_id: &str) -> (r: StreamStep)
        ensures
            match chunk {
                StreamChunk::Piece { content, done } => {
                    let acc = old(self).accumulated@ + content@;
                    &&& final(self).accumulated@ == acc
                    &&& r.finished == done
                    &&& r.events@.len() == (if content@.len() > 0 { 1int } else { 0int }) + (if done {
                        2int
                    } else {
                        0int
                    })
                    &&& content@.len() > 0 ==> (r.events@[0] matches SseEvent::Message(m) && m@ == content@)
                    &&& done ==> {
                        let n = r.events@.len() as int;
                        &&& r.events@[n - 2] matches SseEvent::Session(s) && s@ == session_id@
                        &&& r.events@[n - 1] is Done
                    }
                    &&& match r.save {
                        Some(a) => done && acc.len() > 0 && a@ == acc,
                        None => !done || acc.len() == 0,
                    }
                },
                StreamChunk::Failed { reason } => {
                    &&& final(self).accumulated@ == old(self).accumulated@
                    &&& r.finished
                    &&& r.save is None
                    &&& r.events@.len() == 1
                    &&& r.events@[0] matches SseEvent::Error(e) && e@ == "Stream error: "@ + reason@
                },
            },
            sse_frames(r.events@) == chunk_frames(chunk, session_id@),
            r.finished == chunk_ends(chunk),
            final(self).accumulated@ == chunk_answer(chunk, old(self).accumulated@),
            opt_view(r.save) == chunk_save(chunk, old(self).accumulated@),
    {
        match chunk {
            StreamChunk::Piece { content, done } => {
                let mut events: Vec<SseEvent> = Vec::new();
                let has_text = to_chars(content.as_str()).len() > 0;
                let ghost before = self.accumulated@;
                if has_text {
                    self.accumulated.append(content.as_str());
                    events.push(SseEvent::Message(content));
                } else {
                    assert(content@ =~= Seq::<char>::empty());
                    assert(self.accumulated@ =~= before + content@);
                }
                let mut save: Option<String> = None;
                if done {
                    let acc_chars = to_chars(self.accumulated.as_str());
                    if acc_chars.len() > 0 {
                        save = Some(self.accumulated.clone());
                    }
                    events.push(SseEvent::Session(String::from_str(session_id)));
                    events.push(SseEvent::Done);
                }
                StreamStep { events, save, finished: done }
            },
            StreamChunk::Failed { reason } => {
                let mut e = String::from_str("Stream error: ");
                e.append(reason.as_str());
                let mut events: Vec<SseEvent> = Vec::new();
                events.push(SseEvent::Error(e));
                StreamStep { events, save: None, finished: true }
            },
        }
    }
}

/// The text the `message` events of a stream carry, in order.
pub open spec fn sent_text(frames: Seq<(Seq<char>, Seq<char>)>) -> Seq<char>
    decreases frames.len(),
{
    if frames.len() == 0 {
        Seq::empty()
    } else {
        (if frames[0].0 == "message"@ {
            frames[0].1
        } else {
            Seq::empty()
        }) + sent_text(frames.drop_first())
    }
}

/// The text of two runs of events is the text of each, in order.
proof fn lemma_sent_text_append(a: Seq<(Seq<char>, Seq<char>)>, b: Seq<(Seq<char>, Seq<char>)>)
    ensures
        sent_text(a + b) == sent_text(a) + sent_text(b),
    decreases a.len(),
{
    if a.len() == 0 {
        assert(a + b =~= b);
        assert(sent_text(a) + sent_text(b) =~= sent_text(b));
    } else {
        assert((a + b).drop_first() =~= a.drop_first() + b);
        lemma_sent_text_append(a.drop_first(), b);
        assert((a + b)[0] == a[0]);
    }
}

/// The answer a stream stores is the answer gathered before it followed by
/// exactly the text its `message` events carried.
pub proof fn lemma_saved_answer_is_sent_text(chunks: Seq<StreamChunk>, acc: Seq<char>, session_id: Seq<char>)
    ensures
        stream_save(chunks, acc) matches Some(a) ==> a == acc + sent_text(stream_frames(chunks, session_id)),
    decreases chunks.len(),
{
    reveal_strlit("message");
    reveal_strlit("session");
    reveal_strlit("done");
    reveal_strlit("error");
    if chunks.len() > 0 {
        let c = chunks[0];
        let head = chunk_frames(c, session_id);
        let tail: Seq<(Seq<char>, Seq<char>)> = if chunk_ends(c) {
            Seq::empty()
        } else {
            stream_frames(chunks.drop_first(), session_id)
        };
        lemma_sent_text_append(head, tail);
        assert("session"@ != "message"@) by {
            assert("session"@[0] != "message"@[0]);
        }
        assert("done"@ != "message"@) by {
            assert("done"@.len() != "message"@.len());
        }
        match c {
            StreamChunk::Piece { content, done } => {
                let msg: Seq<(Seq<char>, Seq<char>)> = if content@.len() > 0 {
                    seq![("message"@, content@)]
                } else {
                    Seq::empty()
                };
                let fin: Seq<(Seq<char>, Seq<char>)> = if done {
                    seq![("session"@, session_id), ("done"@, Seq::<char>::empty())]
                } else {
                    Seq::empty()
                };
                assert(head == msg + fin);
                lemma_sent_text_append(msg, fin);
                assert(sent_text(msg) == content@) by {
                    if content@.len() > 0 {
                        assert(msg.drop_first() =~= Seq::<(Seq<char>, Seq<char>)>::empty());
                        assert(content@ + Seq::<char>::empty() =~= content@);
                    } else {
                        assert(content@ =~= Seq::<char>::empty());
                    }
                }
                assert(sent_text(fin) =~= Seq::<char>::empty()) by {
                    if done {
                        let f1 = fin.drop_first();
                        assert(f1.len() == 1);
                        assert(f1[0].0 == "done"@);
                        assert(f1.drop_first() =~= Seq::<(Seq<char>, Seq<char>)>::empty());
                        assert(sent_text(f1.drop_first()) =~= Seq::<char>::empty());
                        assert(sent_text(f1) =~= Seq::<char>::empty());
                        assert(fin[0].0 == "session"@);
                        assert(sent_text(fin) == Seq::<char>::empty() + sent_text(f1));
                    } else {
                        assert(fin.len() == 0);
                    }
                }
                assert(sent_text(head) =~= content@);
                if !done {
                    lemma_saved_answer_is_sent_text(chunks.drop_first(), acc + content@, session_id);
                    assert(acc + content@ + sent_text(tail) =~= acc + (content@ + sent_text(tail)));
                } else {
                    assert(sent_text(head) + sent_text(tail) =~= content@);
                }
            },
            StreamChunk::Failed { .. } => {},
        }
    }
}

/// The whole of a streamed answer: the events sent for the chunks the model
/// delivered, in order, up to the one that ends the stream (chunks after it
/// are not read), and the answer stored (once, when the stream ends with a
/// non-empty answer).
pub fn stream_events(chunks: Vec<StreamChunk>, session_id: &str) -> (r: (Vec<SseEvent>, Option<String>))
    ensures
        sse_frames(r.0@) == stream_frames(chunks@, session_id@),
        opt_view(r.1) == stream_save(chunks@, Seq::empty()),
{
    let ghost all = chunks@;
    let mut rest = chunks;
    let mut state = StreamState::new();
    let mut events: Vec<SseEvent> = Vec::new();
    let mut save: Option<String> = None;
    while rest.len() > 0
        invariant
            all == chunks@,
            stream_frames(all, session_id@) == sse_frames(events@) + stream_frames(rest@, session_id@),
            stream_save(all, Seq::empty()) == stream_save(rest@, state.accumulated@),
            save is None,
        decreases rest.len(),
    {
        let ghost before = rest@;
        let ghost acc = state.accumulated@;
        let chunk = rest.remove(0);
        assert(rest@ =~= before.drop_first());
        let mut step = state.on_chunk(chunk, session_id);
        let ghost old_events = events@;
        events.append(&mut step.events);
        assert(sse_frames(events@) =~= sse_frames(old_events) + chunk_frames(chunk, session_id@));
        if step.finished {
            assert(sse_frames(events@) + Seq::<(Seq<char>, Seq<char>)>::empty() =~= sse_frames(events@));
            assert(stream_frames(all, session_id@) =~= sse_frames(events@));
            return (events, step.save);
        }
        assert(stream_frames(all, session_id@) =~= sse_frames(events@) + stream_frames(rest@, session_id@));
    }
    assert(sse_frames(events@) + Seq::<(Seq<char>, Seq<char>)>::empty() =~= sse_frames(events@));
    (events, save)
}

// ---------------------------------------------------------------------------
// Session ids
// ---------------------------------------------------------------------------

/// What `uuid::Uuid::parse_str` gives for a text: the UUID as a 128-bit
/// number, or the text of its error.
pub uninterp spec fn spec_parse_uuid(s: Seq<char>) -> Result<u128, Seq<char>>;

/// Calls `uuid::Uuid::parse_str`; the UUID is handed back as its 128-bit
/// number (`as_u128`), an error as its message. Both are named by
/// `spec_parse_uuid`.
#[verifier::external_body]
fn parse_uuid(s: &str) -> (r: Result<u128, String>)
    ensures
        match r {
            Ok(u) => spec_parse_uuid(s@) == Ok::<u128, Seq<char>>(u),
            Err(e) => spec_parse_uuid(s@) == Err::<u128, Seq<char>>(e@),
        },
{
    match uuid::Uuid::parse_str(s) {
        Ok(u) => Ok(u.as_u128()),
        Err(e) => Err(e.to_string()),
    }
}

/// The session a chat request continues: the requested id when it is a
/// valid UUID; `None` (a new session is created) otherwise.
pub fn requested_session(session_id: &Option<String>) -> (r: Option<u128>)
    ensures
        r == (match session_id {
            Some(s) => match spec_parse_uuid(s@) {
                Ok(u) => Some(u),
                Err(_) => None,
            },
            None => None,
        }),
{
    match session_id {
        Some(s) => match parse_uuid(s.as_str()) {
            Ok(u) => Some(u),
            Err(_) => None,
        },
        None => None,
    }
}

/// The session whose history is asked for; a malformed id is refused with
/// `Invalid session ID: <reason>`.
pub fn history_session(session_id: &str) -> (r: Result<u128, String>)
    ensures
        match spec_parse_uuid(session_id@) {
            Ok(u) => r == Ok::<u128, String>(u),
            Err(e) => r matches Err(m) && m@ == "Invalid session ID: "@ + e,
        },
{
    match parse_uuid(session_id) {
        Ok(u) => Ok(u),
        Err(e) => {
            let mut m = String::from_str("Invalid session ID: ");
            m.append(e.as_str());
            Err(m)
        },
    }
}

// ---------------------------------------------------------------------------
// Matching a request against the user's library
// ---------------------------------------------------------------------------

/// The error when there is no movie to match against.
pub const EMPTY_LIBRARY_ERROR: &'static str = "DVDs empty, cannot match";

/// `MOVIE_ID_MATCHER_PROMPT` with the library (as JSON) in place of
/// `{USER_MOVIE_LIBRARY}`.
pub fn build_movie_matcher_prompt(library_json: &str) -> (r: String)
    ensures
        r@ == replace_all(MOVIE_ID_MATCHER_PROMPT@, "{USER_MOVIE_LIBRARY}"@, library_json@),
{
    proof {
        reveal_strlit("{USER_MOVIE_LIBRARY}");
    }
    replace_str(MOVIE_ID_MATCHER_PROMPT, "{USER_MOVIE_LIBRARY}", library_json)
}

/// The conversation sent to match a request against a library of
/// `movie_count` movies: the matcher prompt as system message, then the
/// request. An empty library is refused before the model is asked.
pub fn matcher_request(movie_count: usize, prompt: String, user_query: &str) -> (r: Result<
    Vec<OutgoingMessage>,
    String,
>)
    ensures
        movie_count == 0 <==> r is Err,
        match r {
            Ok(msgs) => msgs@.len() == 2 && says(msgs@[0], Speaker::System, prompt@) && says(
                msgs@[1],
                Speaker::User,
                user_query@,
            ),
            Err(e) => e@ == EMPTY_LIBRARY_ERROR@,
        },
{
    if movie_count == 0 {
        return Err(String::from_str(EMPTY_LIBRARY_ERROR));
    }
    let mut msgs: Vec<OutgoingMessage> = Vec::new();
    msgs.push(OutgoingMessage { speaker: Speaker::System, content: prompt });
    msgs.push(OutgoingMessage { speaker: Speaker::User, content: String::from_str(user_query) });
    Ok(msgs)
}

// ---------------------------------------------------------------------------
// Model pulls
// ---------------------------------------------------------------------------

/// The report of a finished model pull, with the last status the server
/// sent.
pub fn pull_success_message(model_name: &str, last_status: &str) -> (r: String)
    ensures
        r@ == "Successfully pulled model: "@ + model_name@ + " ("@ + last_status@ + ")"@,
{
    let mut r = String::from_str("Successfully pulled model: ");
    r.append(model_name);
    r.append(" (");
    r.append(last_status);
    r.append(")");
    r
}

} // verus!
