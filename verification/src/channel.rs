//! The command channel: every command travels in a fixed JSON envelope
//! under a fresh request identifier, and a failed transmission is
//! answered by blocking for a new connection — the failed command is
//! dropped, never resent. The transport itself lives outside; this
//! module builds the exact frame text and decides the reconnect steps.

use vstd::prelude::*;

verus! {

/// The JSON string literal that serde_json writes for this text.
pub uninterp spec fn json_string_of(s: Seq<char>) -> Seq<char>;

/// Relies on serde_json::to_string on a str: the result is the JSON
/// string literal for the text, a function of the characters alone;
/// serializing a str cannot fail.
#[verifier::external_body]
fn json_quote(s: &str) -> (r: String)
    ensures
        r@ == json_string_of(s@),
{
    serde_json::to_string(s).unwrap()
}

/// Relies on uuid::Uuid::new_v4 and the hyphenated form its Display
/// uses: a fresh random identifier of exactly 36 characters. Nothing
/// more is assumed of the value: it is random.
#[verifier::external_body]
fn fresh_request_id() -> (r: String)
    ensures
        r@.len() == 36,
{
    uuid::Uuid::new_v4().to_string()
}

/// The envelope around one command, as serde_json renders it with its
/// default map ordering (keys sorted): a version-1 header carrying the
/// request identifier and the command-request purpose, and a body
/// carrying the command text.
pub open spec fn frame_of(request_id: Seq<char>, command: Seq<char>) -> Seq<char> {
    "{\"body\":{\"commandLine\":"@ + json_string_of(command) + ",\"version\":1},\"header\":{\"messagePurpose\":\"commandRequest\",\"messageType\":\"commandRequest\",\"requestId\":"@
        + json_string_of(request_id) + ",\"version\":1}}"@
}

/// Builds the envelope for one command under the given request
/// identifier.
pub fn frame_for(request_id: &String, command: &String) -> (r: String)
    ensures
        r@ == frame_of(request_id@, command@),
{
    let mut s = "{\"body\":{\"commandLine\":".to_owned();
    s.append(json_quote(command.as_str()).as_str());
    s.append(
        ",\"version\":1},\"header\":{\"messagePurpose\":\"commandRequest\",\"messageType\":\"commandRequest\",\"requestId\":",
    );
    s.append(json_quote(request_id.as_str()).as_str());
    s.append(",\"version\":1}}");
    s
}

/// Builds the envelope for one command under a fresh random request
/// identifier.
pub fn make_frame(command: &String) -> (r: String)
    ensures
        exists|id: Seq<char>| id.len() == 36 && r@ == frame_of(id, command@),
{
    let id = fresh_request_id();
    let r = frame_for(&id, command);
    proof {
        assert(id@.len() == 36 && r@ == frame_of(id@, command@));
    }
    r
}

/// What a dispatch attempt asks of the caller next: nothing more, or a
/// blocking wait for a fresh connection. The failed command is dropped,
/// not resent: delivery is at-most-once and best-effort.
#[derive(Clone, Copy, PartialEq, Eq, Structural, Debug)]
pub enum DispatchStep {
    Delivered,
    AwaitConnection,
}

/// An event seen while waiting on the connection hub: a new inbound
/// connection, or anything else.
#[derive(Clone, Copy, PartialEq, Eq, Structural, Debug)]
pub enum ChannelEvent {
    Connected,
    Other,
}

/// Decides, from the transport's send result, whether the dispatch is
/// done or the caller must now block for a new connection.
pub fn dispatch_step(send_ok: bool) -> (s: DispatchStep)
    ensures
        send_ok <==> s is Delivered,
        !send_ok <==> s is AwaitConnection,
{
    if send_ok {
        DispatchStep::Delivered
    } else {
        DispatchStep::AwaitConnection
    }
}

/// Decides whether an event ends the reconnect wait: only a new inbound
/// connection does, and it must be installed as the current handle;
/// every other event is ignored and the wait goes on.
pub fn reconnect_done(ev: &ChannelEvent) -> (b: bool)
    ensures
        b <==> (*ev is Connected),
{
    match ev {
        ChannelEvent::Connected => true,
        ChannelEvent::Other => false,
    }
}

} // verus!
