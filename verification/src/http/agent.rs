//! `POST /agent`: a prompt in the body runs one turn of the served agent
//! device and answers with its event log. This module decides who may ask,
//! what the prompt is, the device paths of a session, when the event log is
//! complete, and the response; the device reads and writes are the caller's.

use vstd::prelude::*;
use vstd::utf8::encode_utf8;
use crate::text::{str_chars, string_from_chars, push_str, utf8_lossy, lossy_utf8};
use crate::seqs::{trim, trim_chars};
use crate::terminal::resize::{find_from, find_chars};
use super::response::{HttpStatus, StaticResponse};

verus! {

/// What a request to the agent endpoint asks for.
#[derive(Debug)]
pub enum AgentRequest {
    /// Refused at once.
    Refused(StaticResponse),
    /// Run a turn with this prompt.
    Turn(String),
}

pub open spec fn refusal_of(loopback: bool, wanix_services: bool, prompt: Seq<char>) -> Option<(HttpStatus, Seq<char>)> {
    if !loopback {
        Some((HttpStatus::Forbidden, "agent endpoint is loopback-only"@))
    } else if !wanix_services {
        Some((HttpStatus::BadRequest, "agent endpoint requires serve --wanix-services"@))
    } else if prompt.len() == 0 {
        Some((HttpStatus::BadRequest, "agent endpoint requires a prompt body"@))
    } else {
        None
    }
}

/// The request's prompt (its body as text, trimmed) or why it is refused:
/// only loopback clients, only with the services on, and only with a
/// prompt.
pub fn agent_request(loopback: bool, wanix_services: bool, body: &[u8]) -> (r: AgentRequest)
    ensures
        match refusal_of(loopback, wanix_services, trim(lossy_utf8(body@))) {
            Some((status, text)) => r matches AgentRequest::Refused(resp) && resp.status == status
                && resp.body@ == encode_utf8(text) && resp.headers@.len() == 0,
            None => r matches AgentRequest::Turn(p) && p@ == trim(lossy_utf8(body@)),
        },
{
    if !loopback {
        return AgentRequest::Refused(
            StaticResponse::plain(HttpStatus::Forbidden, "agent endpoint is loopback-only"),
        );
    }
    if !wanix_services {
        return AgentRequest::Refused(
            StaticResponse::plain(HttpStatus::BadRequest, "agent endpoint requires serve --wanix-services"),
        );
    }
    let text = utf8_lossy(body);
    let prompt = trim_chars(str_chars(text.as_str()).as_slice());
    if prompt.len() == 0 {
        return AgentRequest::Refused(
            StaticResponse::plain(HttpStatus::BadRequest, "agent endpoint requires a prompt body"),
        );
    }
    AgentRequest::Turn(string_from_chars(prompt.as_slice()))
}

/// The session a fresh `#agent/new` read names: its text, trimmed; nothing
/// there means allocation failed.
pub fn agent_session_id(id_bytes: &[u8]) -> (r: Result<String, String>)
    ensures
        trim(lossy_utf8(id_bytes@)).len() > 0 ==> (r matches Ok(id) && id@ == trim(
            lossy_utf8(id_bytes@),
        )),
        trim(lossy_utf8(id_bytes@)).len() == 0 ==> (r matches Err(e) && e@
            == "agent: session allocation failed"@),
{
    let text = utf8_lossy(id_bytes);
    let id = trim_chars(str_chars(text.as_str()).as_slice());
    if id.len() == 0 {
        return Err("agent: session allocation failed".to_owned());
    }
    Ok(string_from_chars(id.as_slice()))
}

/// A file of a session: `#agent/ID/NAME`.
pub fn agent_session_path(id: &str, name: &str) -> (r: String)
    ensures
        r@ == "#agent/"@ + id@ + "/"@ + name@,
{
    let mut out: Vec<char> = Vec::new();
    push_str(&mut out, "#agent/");
    push_str(&mut out, id);
    push_str(&mut out, "/");
    push_str(&mut out, name);
    string_from_chars(out.as_slice())
}

/// Whether the events read so far hold the end of the turn: their text
/// contains `"turn.completed"` (quotes included).
pub fn agent_turn_completed(events: &[u8]) -> (r: bool)
    ensures
        r == (find_from(lossy_utf8(events@), "\"turn.completed\""@, 0) is Some),
{
    let text = utf8_lossy(events);
    find_chars(str_chars(text.as_str()).as_slice(), str_chars("\"turn.completed\"").as_slice()).is_some()
}

/// The answer to a turn: its event log as JSON lines, or the failure as a
/// `409`.
pub fn agent_response(result: Result<Vec<u8>, String>) -> (r: StaticResponse)
    ensures
        r.headers@.len() == 0,
        match result {
            Ok(log) => r.status == HttpStatus::Success && r.body@ == log@ && r.content_type@
                == "application/x-ndjson; charset=utf-8"@,
            Err(e) => r.status == HttpStatus::Conflict && r.body@ == encode_utf8(e@),
        },
{
    match result {
        Ok(log) => StaticResponse {
            status: HttpStatus::Success,
            content_type: "application/x-ndjson; charset=utf-8",
            headers: Vec::new(),
            body: log,
        },
        Err(e) => StaticResponse::plain(HttpStatus::Conflict, e.as_str()),
    }
}

} // verus!
