use vstd::prelude::*;
use vstd::string::*;
use crate::text::opt_chars;

verus! {

/// The registration a client sends to the link service: its address and the
/// download link it serves.
pub struct Service {
    pub ip: String,
    pub link: String,
}

/// What the client receives from the link service.
pub enum ClientEvent {
    /// A text frame.
    Text(String),
    /// A close frame.
    Close,
    /// Any other frame.
    Other,
    /// Receiving failed; the text describes the error.
    Failed(String),
}

/// What the client does with it: a line to print, if any, and whether to stop listening.
pub struct ClientAction {
    pub line: Option<String>,
    pub stop: bool,
}

/// The line printed for a text frame.
pub open spec fn received_line(payload: Seq<char>) -> Seq<char> {
    "➤   Received: "@ + payload
}

/// The line printed for a close frame.
pub open spec fn close_line() -> Seq<char> {
    "➤   Received close"@
}

/// The line printed when connecting or receiving fails.
pub open spec fn failure_line(error: Seq<char>) -> Seq<char> {
    "websocket connect fail: "@ + error
}

/// The line printed when connecting or receiving fails with `error`.
pub fn failure_message(error: &str) -> (line: String)
    ensures
        line@ == failure_line(error@),
{
    let mut line = String::from_str("websocket connect fail: ");
    line.append(error);
    line
}

/// What an event calls for: whether to stop, and the line to print.
pub open spec fn client_outcome(event: ClientEvent) -> (bool, Option<Seq<char>>) {
    match event {
        ClientEvent::Text(p) => (false, Some(received_line(p@))),
        ClientEvent::Close => (true, Some(close_line())),
        ClientEvent::Other => (false, None),
        ClientEvent::Failed(e) => (true, Some(failure_line(e@))),
    }
}

/// Law: the client keeps listening after every text frame, whatever it
/// holds, printing the payload after the `➤   Received: ` prefix; it stops
/// exactly on a close frame or a failure, and passes over other frames
/// silently.
pub proof fn lemma_client_outcome(event: ClientEvent)
    ensures
        client_outcome(event).0 <==> (event is Close || event is Failed),
        event matches ClientEvent::Text(p) ==> client_outcome(event).1 == Some("➤   Received: "@ + p@),
        event is Other ==> client_outcome(event).1 is None,
        event is Close ==> client_outcome(event).1 == Some("➤   Received close"@),
        event matches ClientEvent::Failed(e) ==> client_outcome(event).1 == Some(
            "websocket connect fail: "@ + e@,
        ),
{
}

/// What to do with one event: print text frames and go on, print and stop on
/// a close frame or a failure, and pass over other frames.
pub fn on_client_event(event: ClientEvent) -> (action: ClientAction)
    ensures
        (action.stop, opt_chars(action.line)) == client_outcome(event),
        event is Text ==> !action.stop,
        event is Other ==> !action.stop && action.line is None,
        event is Close || event is Failed ==> action.stop,
        event matches ClientEvent::Text(p) ==> action.line is Some && action.line->0@ == "➤   Received: "@
            + p@,
{
    proof {
        lemma_client_outcome(event);
    }
    match event {
        ClientEvent::Text(payload) => {
            let mut line = String::from_str("➤   Received: ");
            line.append(payload.as_str());
            ClientAction { line: Some(line), stop: false }
        },
        ClientEvent::Close => ClientAction { line: Some(String::from_str("➤   Received close")), stop: true },
        ClientEvent::Other => ClientAction { line: None, stop: false },
        ClientEvent::Failed(error) => ClientAction { line: Some(failure_message(error.as_str())), stop: true },
    }
}

} // verus!
