//! What the gateway answers to each HTTP request.
//!
//! Reading requests, writing replies and waiting for a child are left to the
//! caller; what is decided in between is decided here.

use vstd::prelude::*;

use crate::config::{is_http_url, is_slug, is_url, validate_slug, McpEntry, McpEntryV};
use crate::error::{ProxyError, Result};
use crate::json::{lemma_items_view, lemma_members_view, member, Json, JsonV};
use crate::jsonrpc::is_request;
use crate::order::{in_order, texts};
use crate::proxy::{
    after_request, dispatches, is_line, sent, sent_payload, ChildProxy, Dispatch, ProxyV,
};
use crate::session::{is_uuid, new_session_id};
use crate::state::{added, disabled, live_proxy, AppState};
use crate::table::Table;
use crate::text::begins;

verus! {

/// The body of a reply.
#[derive(Debug)]
pub enum Body {
    Empty,
    Text(String),
    Json(Json),
}

/// A reply: its status, the headers that it sets, and its body.
#[derive(Debug)]
pub struct Reply {
    pub status: u16,
    pub headers: Vec<(String, String)>,
    pub body: Body,
}

/// What a `Body` is.
pub enum BodyV {
    Empty,
    Text(Seq<char>),
    Json(JsonV),
}

/// What a `Reply` is.
#[verifier::ext_equal]
pub struct ReplyV {
    pub status: u16,
    pub headers: Seq<(Seq<char>, Seq<char>)>,
    pub body: BodyV,
}

impl View for Body {
    type V = BodyV;

    open spec fn view(&self) -> BodyV {
        match *self {
            Body::Empty => BodyV::Empty,
            Body::Text(text) => BodyV::Text(text@),
            Body::Json(json) => BodyV::Json(json@),
        }
    }
}

impl View for Reply {
    type V = ReplyV;

    open spec fn view(&self) -> ReplyV {
        ReplyV {
            status: self.status,
            headers: self.headers@.map_values(|h: (String, String)| (h.0@, h.1@)),
            body: self.body@,
        }
    }
}

/// A reply without headers.
pub open spec fn plain(status: u16, body: BodyV) -> ReplyV {
    ReplyV { status, headers: Seq::empty(), body }
}

fn reply(status: u16, body: Body) -> (r: Reply)
    ensures
        r@ == plain(status, body@),
{
    let r = Reply { status, headers: Vec::new(), body };
    assert(r@.headers =~= Seq::empty());
    r
}

fn text_reply(status: u16, text: &str) -> (r: Reply)
    ensures
        r@ == plain(status, BodyV::Text(text@)),
{
    reply(status, Body::Text(text.to_owned()))
}

/// The reply where the server that was asked for cannot be had.
pub fn unavailable(e: &ProxyError) -> (r: Reply)
    ensures
        r@ == plain(404, BodyV::Text(e.message())),
{
    reply(404, Body::Text(e.to_string()))
}

/// The reply of an operation: nothing on success, and the error on failure.
pub fn done(result: Result<()>) -> (r: Reply)
    ensures
        r@ == (match result {
            Ok(_) => plain(200, BodyV::Empty),
            Err(e) => plain(500, BodyV::Text(e.message())),
        }),
{
    match result {
        Ok(()) => reply(200, Body::Empty),
        Err(e) => reply(500, Body::Text(e.to_string())),
    }
}

/// The liveness probe.
pub fn health() -> (text: &'static str)
    ensures
        text@ == "ok"@,
{
    "ok"
}

/// How a server is listed.
pub open spec fn server_row(id: Seq<char>, live: bool) -> JsonV {
    JsonV::Object(
        map![
            "id"@ => JsonV::Str(id),
            "sse"@ => JsonV::Str("/"@ + id + "/sse"@),
            "messages"@ => JsonV::Str("/"@ + id + "/messages"@),
            "live"@ => JsonV::Bool(live),
        ],
    )
}

/// A list of servers.
pub open spec fn servers_json(rows: Seq<JsonV>) -> JsonV {
    JsonV::Object(map!["servers"@ => JsonV::Array(rows)])
}

fn server_list(rows: Vec<Json>) -> (json: Json)
    ensures
        json@ == servers_json(rows@.map_values(|j: Json| j@)),
{
    let mut list: Json = Json::object();
    proof {
        lemma_items_view(rows@);
    }
    list.set("servers", Json::Array(rows));
    list
}

/// The configured servers in alphabetical order, and which of them are live.
pub fn list_servers<P>(state: &AppState<P>) -> (json: Json)
    ensures
        exists|ids: Seq<Seq<char>>| #[trigger]
            in_order(ids) && ids.no_duplicates() && ids.to_set() == state@.config.mcp.dom() && json@
                == servers_json(
                ids.map_values(|id: Seq<char>| server_row(id, state@.proxies.contains_key(id))),
            ),
{
    let ids: Vec<String> = state.ids();
    let ghost names = texts(ids@);
    let mut rows: Vec<Json> = Vec::new();
    let mut i: usize = 0;
    while i < ids.len()
        invariant
            i <= ids@.len(),
            names == texts(ids@),
            rows@.len() == i,
            forall|j: int|
                0 <= j < i ==> #[trigger] rows@[j]@ == server_row(
                    names[j],
                    state@.proxies.contains_key(names[j]),
                ),
        decreases ids@.len() - i,
    {
        let id: &str = ids[i].as_str();
        let mut row: Json = Json::object();
        row.set("id", Json::Str(id.to_owned()));
        row.set("sse", Json::Str("/".to_owned().concat(id).concat("/sse")));
        row.set("messages", Json::Str("/".to_owned().concat(id).concat("/messages")));
        row.set("live", Json::Bool(state.is_live(id)));
        rows.push(row);
        i = i + 1;
    }
    assert(rows@.map_values(|j: Json| j@) =~= names.map_values(
        |id: Seq<char>| server_row(id, state@.proxies.contains_key(id)),
    ));
    assert(in_order(names));
    server_list(rows)
}

/// A list of texts as JSON.
pub open spec fn texts_json(items: Seq<Seq<char>>) -> JsonV {
    JsonV::Array(items.map_values(|s: Seq<char>| JsonV::Str(s)))
}

/// A table of texts as JSON.
pub open spec fn table_json(table: Map<Seq<char>, Seq<char>>) -> JsonV {
    JsonV::Object(table.map_values(|s: Seq<char>| JsonV::Str(s)))
}

/// How a server's settings are shown.
pub open spec fn settings_row(id: Seq<char>, entry: McpEntryV, live: bool) -> JsonV {
    JsonV::Object(
        map![
            "id"@ => JsonV::Str(id),
            "command"@ => JsonV::Str(entry.command),
            "args"@ => texts_json(entry.args),
            "env"@ => table_json(entry.env),
            "cwd"@ => match entry.cwd {
                Some(dir) => JsonV::Str(dir),
                None => JsonV::Null,
            },
            "is_http"@ => JsonV::Bool(entry.is_http),
            "live"@ => JsonV::Bool(live),
        ],
    )
}

fn list_of_texts(items: &Vec<String>) -> (json: Json)
    ensures
        json@ == texts_json(items@.map_values(|s: String| s@)),
{
    let mut list: Vec<Json> = Vec::new();
    let mut i: usize = 0;
    while i < items.len()
        invariant
            i <= items@.len(),
            list@.len() == i,
            forall|j: int| 0 <= j < i ==> #[trigger] list@[j]@ == JsonV::Str(items@[j]@),
        decreases items@.len() - i,
    {
        list.push(Json::Str(items[i].clone()));
        i = i + 1;
    }
    proof {
        lemma_items_view(list@);
        assert(list@.map_values(|j: Json| j@) =~= items@.map_values(|s: String| s@).map_values(
            |s: Seq<char>| JsonV::Str(s),
        ));
    }
    Json::Array(list)
}

fn table_of_texts(table: &Table<String>) -> (json: Json)
    ensures
        json@ == table_json(table@.map_values(|s: String| s@)),
{
    let count: usize = table.len();
    let ghost names = table.names();
    let mut members: Table<Json> = Table::new();
    let mut i: usize = 0;
    while i < count
        invariant
            i <= count == names.len(),
            names == table.names(),
            names.to_set() == table@.dom(),
            members@.dom() == names.take(i as int).to_set(),
            forall|k: Seq<char>| #[trigger]
                members@.contains_key(k) ==> table@.contains_key(k) && members@[k]@ == JsonV::Str(
                    table@[k]@,
                ),
        decreases count - i,
    {
        let row: (&String, &String) = table.row(i);
        let _ = members.insert(row.0.clone(), Json::Str(row.1.clone()));
        proof {
            let before = names.take(i as int);
            assert(names.take(i + 1) =~= before.push(names[i as int]));
            assert(names.take(i + 1).to_set() =~= before.to_set().insert(names[i as int])) by {
                broadcast use vstd::seq_lib::group_seq_properties;
            }
        }
        i = i + 1;
    }
    proof {
        lemma_members_view(members);
        assert(names.take(count as int) =~= names);
        assert(members@.dom() == table@.dom());
        assert(members@.map_values(|j: Json| j@) =~= table@.map_values(
            |s: String| s@,
        ).map_values(|s: Seq<char>| JsonV::Str(s)));
    }
    Json::Object(members)
}

fn settings_json(id: &str, entry: &McpEntry, live: bool) -> (json: Json)
    ensures
        json@ == settings_row(id@, entry@, live),
{
    let mut row: Json = Json::object();
    row.set("id", Json::Str(id.to_owned()));
    row.set("command", Json::Str(entry.command.clone()));
    row.set("args", list_of_texts(&entry.args));
    row.set("env", table_of_texts(&entry.env));
    row.set(
        "cwd",
        match &entry.cwd {
            Some(dir) => Json::Str(dir.clone()),
            None => Json::Null,
        },
    );
    row.set("is_http", Json::Bool(entry.is_http));
    row.set("live", Json::Bool(live));
    row
}

/// The settings of every configured server, each once, and which of them are live.
pub fn get_api_config<P>(state: &AppState<P>) -> (json: Json)
    ensures
        exists|ids: Seq<Seq<char>>| #[trigger]
            ids.no_duplicates() && ids.to_set() == state@.config.mcp.dom() && json@ == servers_json(
                ids.map_values(
                    |id: Seq<char>|
                        settings_row(
                            id,
                            state@.config.mcp[id],
                            state@.proxies.contains_key(id),
                        ),
                ),
            ),
{
    let mcp: &Table<McpEntry> = &state.settings().mcp;
    let count: usize = mcp.len();
    let ghost names = mcp.names();
    let mut rows: Vec<Json> = Vec::new();
    let mut i: usize = 0;
    assert(state@.config.mcp.dom() =~= mcp@.dom());
    while i < count
        invariant
            i <= count == names.len(),
            names == mcp.names(),
            state@.config.mcp == mcp@.map_values(|e: McpEntry| e@),
            rows@.len() == i,
            forall|j: int|
                0 <= j < i ==> #[trigger] rows@[j]@ == settings_row(
                    names[j],
                    state@.config.mcp[names[j]],
                    state@.proxies.contains_key(names[j]),
                ),
        decreases count - i,
    {
        let row: (&String, &McpEntry) = mcp.row(i);
        let live: bool = state.is_live(row.0.as_str());
        rows.push(settings_json(row.0.as_str(), row.1, live));
        i = i + 1;
    }
    assert(rows@.map_values(|j: Json| j@) =~= names.map_values(
        |id: Seq<char>|
            settings_row(id, state@.config.mcp[id], state@.proxies.contains_key(id)),
    ));
    assert(names.no_duplicates());
    server_list(rows)
}

/// Where a session posts its messages.
pub open spec fn endpoint(id: Seq<char>, session_id: Seq<char>) -> Seq<char> {
    "/"@ + id + "/messages?sessionId="@ + session_id
}

/// Opens the stream of session `session_id`. The first thing that it hears is the path that is
/// returned, to which it posts its messages.
pub fn open_sse_as<S, W>(
    proxy: &mut ChildProxy<S, W>,
    id: &str,
    session_id: &str,
    tx: S,
) -> (path: String)
    ensures
        path@ == endpoint(id@, session_id@),
        final(proxy)@ == (ProxyV {
            sessions: old(proxy)@.sessions.insert(session_id@, tx),
            active: old(proxy)@.active.insert(session_id@),
            ..old(proxy)@
        }),
{
    proxy.register_session(session_id.to_owned(), tx);
    "/".to_owned().concat(id).concat("/messages?sessionId=").concat(session_id)
}

/// Opens the stream of a new session; returns the session's id and the path that it hears first.
pub fn open_sse<S, W>(proxy: &mut ChildProxy<S, W>, id: &str, tx: S) -> (r: (String, String))
    ensures
        is_uuid(r.0@),
        r.1@ == endpoint(id@, r.0@),
        final(proxy)@ == (ProxyV {
            sessions: old(proxy)@.sessions.insert(r.0@, tx),
            active: old(proxy)@.active.insert(r.0@),
            ..old(proxy)@
        }),
{
    let session_id: String = new_session_id();
    let path: String = open_sse_as(proxy, id, session_id.as_str(), tx);
    (session_id, path)
}

/// The stream of a session that posts to its endpoint has ended.
pub fn close_sse<S, W>(proxy: &mut ChildProxy<S, W>, session_id: &str)
    ensures
        final(proxy)@ == (ProxyV {
            sessions: old(proxy)@.sessions.remove(session_id@),
            ..old(proxy)@
        }),
{
    proxy.drop_session(session_id);
}

/// A session posts a message to its endpoint: the line is for the child, and the answer comes on
/// the session's stream.
pub fn post_message<S, W>(proxy: &mut ChildProxy<S, W>, session_id: &str, body: Json) -> (r: (
    String,
    Reply,
))
    ensures
        final(proxy)@ == sent(old(proxy)@, session_id@, body@),
        is_line(r.0@, sent_payload(old(proxy)@, session_id@, body@)),
        r.1@ == plain(202, BodyV::Empty),
{
    let line: String = proxy.send_from_session(session_id, body);
    (line, reply(202, Body::Empty))
}

/// What a message that is posted to the single endpoint comes to, before the server is asked for.
#[derive(Debug)]
pub enum McpPlan {
    /// It is refused.
    Refuse(Reply),
    /// It goes to the server in the name of `session_id`, which it opens where `opens` says so.
    Send { session_id: String, opens: bool },
}

/// The body asks to open a session.
pub open spec fn is_initialize(body: JsonV) -> bool {
    member(body, "method"@) == Some(JsonV::Str("initialize"@))
}

fn opens_session(body: &Json) -> (r: bool)
    ensures
        r == is_initialize(body@),
{
    match body.get("method") {
        Some(method) => method.is_str("initialize"),
        None => false,
    }
}

/// What a posted message comes to, where a session that it opens is called `fresh_id`.
pub fn plan_mcp_post(session: Option<String>, body: &Json, fresh_id: String) -> (plan: McpPlan)
    ensures
        (match session {
            Some(given) => plan matches McpPlan::Send { session_id, opens } && session_id@ == given@
                && !opens,
            None => if is_initialize(body@) {
                plan matches McpPlan::Send { session_id, opens } && session_id@ == fresh_id@
                    && opens
            } else {
                plan matches McpPlan::Refuse(r) && r@ == plain(
                    400,
                    BodyV::Text("Missing or invalid session ID for non-initialize request"@),
                )
            },
        }),
{
    match session {
        Some(session_id) => McpPlan::Send { session_id, opens: false },
        None => {
            if opens_session(body) {
                McpPlan::Send { session_id: fresh_id, opens: true }
            } else {
                McpPlan::Refuse(
                    text_reply(400, "Missing or invalid session ID for non-initialize request"),
                )
            }
        },
    }
}

/// What a message that is posted to the single endpoint comes to; `session` is the session that
/// it names.
pub fn post_mcp_message(session: Option<String>, body: &Json) -> (plan: McpPlan)
    ensures
        (match session {
            Some(given) => plan matches McpPlan::Send { session_id, opens } && session_id@ == given@
                && !opens,
            None => if is_initialize(body@) {
                plan matches McpPlan::Send { session_id, opens } && is_uuid(session_id@) && opens
            } else {
                plan matches McpPlan::Refuse(r) && r@ == plain(
                    400,
                    BodyV::Text("Missing or invalid session ID for non-initialize request"@),
                )
            },
        }),
{
    let fresh_id: String = if session.is_none() && opens_session(body) {
        new_session_id()
    } else {
        String::new()
    };
    plan_mcp_post(session, body, fresh_id)
}

/// What to do with a posted message once its server is there.
#[derive(Debug)]
pub enum McpStep {
    /// Reply at once.
    Reply(Reply),
    /// Write the line to the child, and reply.
    Tell { line: String, reply: Reply },
    /// Write the line to the child and wait for the answer, if there is to be one.
    Ask(Dispatch),
}

/// Session `session_id` may speak.
pub open spec fn may_speak<S, W>(proxy: ProxyV<S, W>, session_id: Seq<char>) -> bool {
    proxy.active.contains(session_id) || proxy.sessions.contains_key(session_id)
}

/// The proxy once a posted message is about to be sent: a session that it opens may speak.
pub open spec fn admitted<S, W>(
    proxy: ProxyV<S, W>,
    session_id: Seq<char>,
    opens: bool,
) -> ProxyV<S, W> {
    if opens {
        ProxyV { active: proxy.active.insert(session_id), ..proxy }
    } else {
        proxy
    }
}

/// Takes a posted message to its server. The answer to a request wakes `waiter`.
pub fn send_mcp_message<S, W>(
    proxy: &mut ChildProxy<S, W>,
    session_id: &str,
    opens: bool,
    body: Json,
    waiter: W,
) -> (step: McpStep)
    ensures
        ({
            let before = admitted(old(proxy)@, session_id@, opens);
            if !opens && !may_speak(old(proxy)@, session_id@) {
                &&& step matches McpStep::Reply(r) && r@ == plain(
                    404,
                    BodyV::Text("Session expired or invalid"@),
                )
                &&& final(proxy)@ == old(proxy)@
            } else if opens || is_request(body@) {
                &&& step matches McpStep::Ask(dispatch) && dispatches(
                    dispatch,
                    before,
                    session_id@,
                    body@,
                )
                &&& final(proxy)@ == after_request(before, session_id@, body@, waiter)
            } else {
                &&& step matches McpStep::Tell { line, reply } && is_line(
                    line@,
                    sent_payload(before, session_id@, body@),
                ) && reply@ == plain(202, BodyV::Empty)
                &&& final(proxy)@ == sent(before, session_id@, body@)
            }
        }),
        opens || old(proxy)@.active.contains(session_id@) || old(proxy)@.sessions.contains_key(
            session_id@,
        ) ==> (match body@ {
            JsonV::Object(members) if members.contains_key("method"@) && members.contains_key(
                "id"@,
            ) && members["id"@] != JsonV::Null => {
                &&& step matches McpStep::Ask(dispatch) && (dispatch matches Dispatch::Request {
                    outbound_id,
                    ..
                } && outbound_id == old(proxy)@.mux.next)
                &&& final(proxy)@.waiting == old(proxy)@.waiting.insert(
                    old(proxy)@.mux.next,
                    waiter,
                )
                &&& final(proxy)@.mux.pending == old(proxy)@.mux.pending.insert(
                    old(proxy)@.mux.next,
                    (session_id@, members["id"@]),
                )
            },
            _ => {
                &&& !opens ==> step is Tell
                &&& final(proxy)@.waiting == old(proxy)@.waiting
                &&& final(proxy)@.mux == old(proxy)@.mux
            },
        }),
{
    if opens {
        proxy.add_active_session(session_id.to_owned());
    } else {
        if !proxy.has_active_session(session_id) {
            return McpStep::Reply(text_reply(404, "Session expired or invalid"));
        }
        let has_id: bool = match body.get("id") {
            Some(id) => !id.is_null(),
            None => false,
        };
        let has_method: bool = body.get("method").is_some();
        if !(has_id && has_method) {
            let line: String = proxy.send_from_session(session_id, body);
            return McpStep::Tell { line, reply: reply(202, Body::Empty) };
        }
    }
    McpStep::Ask(proxy.send_request_from_session(session_id, body, waiter))
}

/// The headers of the reply that opens a session.
pub open spec fn session_headers(session_id: Seq<char>) -> Seq<(Seq<char>, Seq<char>)> {
    seq![
        ("mcp-session-id"@, session_id),
        ("Access-Control-Expose-Headers"@, "mcp-session-id, MCP-Session-Id"@),
    ]
}

/// The reply to a posted message whose caller waited, by what came of it. A message that was to
/// have no answer came to `null`. Where opening a session fails, the session is let go.
pub fn finish_mcp_message<S, W>(
    proxy: &mut ChildProxy<S, W>,
    session_id: &str,
    opens: bool,
    outcome: Result<Json>,
) -> (r: Reply)
    ensures
        (match outcome {
            Ok(answer) => {
                &&& r@ == (ReplyV {
                    status: 200,
                    headers: if opens {
                        session_headers(session_id@)
                    } else {
                        Seq::empty()
                    },
                    body: BodyV::Json(answer@),
                })
                &&& opens ==> r.headers@.len() > 0 && r.headers@[0].0@ == "mcp-session-id"@
                    && r.headers@[0].1@ == session_id@
                &&& final(proxy)@ == old(proxy)@
            },
            Err(e) => {
                &&& r@ == plain(500, BodyV::Text(e.message()))
                &&& final(proxy)@ == (if opens {
                    ProxyV { active: old(proxy)@.active.remove(session_id@), ..old(proxy)@ }
                } else {
                    old(proxy)@
                })
            },
        }),
{
    match outcome {
        Ok(answer) => {
            let mut headers: Vec<(String, String)> = Vec::new();
            if opens {
                headers.push(("mcp-session-id".to_owned(), session_id.to_owned()));
                headers.push(
                    (
                        "Access-Control-Expose-Headers".to_owned(),
                        "mcp-session-id, MCP-Session-Id".to_owned(),
                    ),
                );
            }
            let r = Reply { status: 200, headers, body: Body::Json(answer) };
            proof {
                if opens {
                    assert(r@.headers =~= session_headers(session_id@));
                } else {
                    assert(r@.headers =~= Seq::empty());
                }
            }
            r
        },
        Err(e) => {
            if opens {
                proxy.drop_active_session(session_id);
            }
            reply(500, Body::Text(e.to_string()))
        },
    }
}

/// The session that a request names in its header; a request that names none is refused.
pub fn named_session(session: Option<String>) -> (r: std::result::Result<String, Reply>)
    ensures
        (match session {
            Some(given) => r matches Ok(session_id) && session_id@ == given@,
            None => r matches Err(refusal) && refusal@ == plain(
                400,
                BodyV::Text("Missing mcp-session-id header"@),
            ),
        }),
{
    match session {
        Some(session_id) => Ok(session_id),
        None => Err(text_reply(400, "Missing mcp-session-id header")),
    }
}

/// Gives a session that may speak a stream.
pub fn get_mcp_sse<S, W>(proxy: &mut ChildProxy<S, W>, session_id: &str, tx: S) -> (refusal: Option<
    Reply,
>)
    ensures
        if may_speak(old(proxy)@, session_id@) {
            &&& refusal is None
            &&& final(proxy)@ == (ProxyV {
                sessions: old(proxy)@.sessions.insert(session_id@, tx),
                active: old(proxy)@.active.insert(session_id@),
                ..old(proxy)@
            })
        } else {
            &&& refusal matches Some(r) && r@ == plain(
                404,
                BodyV::Text("Session expired or invalid"@),
            )
            &&& final(proxy)@ == old(proxy)@
        },
{
    if !proxy.has_active_session(session_id) {
        return Some(text_reply(404, "Session expired or invalid"));
    }
    proxy.register_session(session_id.to_owned(), tx);
    None
}

/// The proxy after a session was let go altogether.
pub open spec fn let_go<S, W>(proxy: ProxyV<S, W>, session_id: Seq<char>) -> ProxyV<S, W> {
    ProxyV {
        sessions: proxy.sessions.remove(session_id),
        active: proxy.active.remove(session_id),
        ..proxy
    }
}

/// The stream of a session of the single endpoint has ended, and the session with it.
pub fn close_mcp_sse<S, W>(proxy: &mut ChildProxy<S, W>, session_id: &str)
    ensures
        final(proxy)@ == let_go(old(proxy)@, session_id@),
{
    proxy.drop_session(session_id);
    proxy.drop_active_session(session_id);
}

/// Ends a session.
pub fn delete_mcp_session<S, W>(proxy: &mut ChildProxy<S, W>, session_id: &str) -> (r: Reply)
    ensures
        final(proxy)@ == let_go(old(proxy)@, session_id@),
        r@ == plain(200, BodyV::Empty),
{
    proxy.drop_session(session_id);
    proxy.drop_active_session(session_id);
    reply(200, Body::Empty)
}

/// The settings that a client sends for a server.
#[derive(Debug)]
pub struct AddServerPayload {
    pub command: String,
    pub args: Vec<String>,
    pub env: Table<String>,
    pub cwd: Option<String>,
}

/// The entry that a client's settings make.
pub open spec fn payload_entry(payload: AddServerPayload) -> McpEntryV {
    McpEntryV {
        command: payload.command@,
        args: payload.args@.map_values(|a: String| a@),
        env: payload.env@.map_values(|v: String| v@),
        cwd: match payload.cwd {
            Some(dir) => Some(dir@),
            None => None,
        },
        is_http: is_url(payload.command@),
    }
}

/// Adds a server, or gives it other settings, unless its id is refused. The configuration is
/// then to be saved.
pub fn post_api_server<P>(
    state: &mut AppState<P>,
    id: String,
    payload: AddServerPayload,
) -> (refusal: Option<Reply>)
    ensures
        if is_slug(id@) {
            &&& refusal is None
            &&& final(state)@ == added(old(state)@, id@, payload_entry(payload))
        } else {
            &&& refusal matches Some(r) && r@ == plain(
                400,
                BodyV::Text("Invalid slug: invalid server id: "@ + id@),
            )
            &&& final(state)@ == old(state)@
        },
{
    if let Err(e) = validate_slug(id.as_str()) {
        let text: String = "Invalid slug: ".to_owned().concat(e.to_string().as_str());
        proof {
            reveal_strlit("Invalid slug: ");
            reveal_strlit("invalid server id: ");
            reveal_strlit("Invalid slug: invalid server id: ");
            assert(text@ =~= "Invalid slug: invalid server id: "@ + id@);
        }
        return Some(reply(400, Body::Text(text)));
    }
    let is_http: bool = is_http_url(payload.command.as_str());
    let entry = McpEntry {
        command: payload.command,
        args: payload.args,
        env: payload.env,
        cwd: payload.cwd,
        is_http,
    };
    state.add_server(id, entry);
    None
}

/// What deleting a server comes to.
#[derive(Debug)]
pub struct Deletion<P> {
    pub reply: Reply,
    /// The configuration is to be saved.
    pub save: bool,
    /// The proxy that was live. What stands behind it is to be stopped.
    pub proxy: Option<P>,
}

/// Disables a server.
pub fn delete_api_server<P>(state: &mut AppState<P>, id: &str) -> (r: Deletion<P>)
    ensures
        final(state)@ == disabled(old(state)@, id@),
        r.reply@ == (if old(state)@.config.mcp.contains_key(id@)
            || old(state)@.proxies.contains_key(id@) {
            plain(200, BodyV::Empty)
        } else {
            plain(404, BodyV::Empty)
        }),
        r.save == old(state)@.config.mcp.contains_key(id@),
        r.proxy == live_proxy(old(state)@, id@),
{
    let result = state.disable_server(id);
    let status: u16 = if result.found {
        200
    } else {
        404
    };
    Deletion { reply: reply(status, Body::Empty), save: result.save, proxy: result.proxy }
}

/// The reply to a reload, by what came of it.
pub fn post_api_reload(outcome: Result<()>) -> (r: Reply)
    ensures
        r@ == (match outcome {
            Ok(_) => plain(200, BodyV::Empty),
            Err(e) => plain(500, BodyV::Text(e.message())),
        }),
{
    done(outcome)
}

/// The path that a session hears first names the server and the session.
pub proof fn law_endpoint_names_server_and_session(id: Seq<char>, session_id: Seq<char>)
    ensures
        begins(endpoint(id, session_id), "/"@ + id + "/messages?sessionId="@),
        endpoint(id, session_id).skip(("/"@ + id + "/messages?sessionId="@).len() as int)
            == session_id,
{
    let front = "/"@ + id + "/messages?sessionId="@;
    assert(endpoint(id, session_id).take(front.len() as int) =~= front);
    assert(endpoint(id, session_id).skip(front.len() as int) =~= session_id);
}

/// A session that a message opens may speak from then on.
pub proof fn law_opened_session_may_speak<S, W>(
    proxy: ProxyV<S, W>,
    session_id: Seq<char>,
    body: JsonV,
    waiter: W,
)
    ensures
        may_speak(
            after_request(admitted(proxy, session_id, true), session_id, body, waiter),
            session_id,
        ),
{
}

/// A session that was ended may not speak, and what other sessions may do is as before.
pub proof fn law_ended_session_may_not_speak<S, W>(
    proxy: ProxyV<S, W>,
    session_id: Seq<char>,
    other: Seq<char>,
)
    ensures
        !may_speak(let_go(proxy, session_id), session_id),
        other != session_id ==> may_speak(let_go(proxy, session_id), other) == may_speak(
            proxy,
            other,
        ),
        let_go(proxy, session_id).mux == proxy.mux,
{
}

/// Where opening a session fails, nobody may speak who could not before.
pub proof fn law_failed_opening_leaves_no_session<S, W>(
    proxy: ProxyV<S, W>,
    session_id: Seq<char>,
    other: Seq<char>,
)
    requires
        !may_speak(proxy, session_id),
    ensures
        ({
            let opened = admitted(proxy, session_id, true);
            let failed = ProxyV { active: opened.active.remove(session_id), ..opened };
            may_speak(failed, other) == may_speak(proxy, other)
        }),
{
}

/// The reply that opens a session names it: its header `mcp-session-id` holds the whole session id
/// and nothing else, so that a message under what the header holds is one of a session that may
/// speak. Browsers are told that they may read it.
pub proof fn law_the_reply_that_opens_a_session_names_it<S, W>(
    proxy: ProxyV<S, W>,
    session_id: Seq<char>,
    body: JsonV,
    waiter: W,
    i: int,
)
    ensures
        session_headers(session_id).contains(("mcp-session-id"@, session_id)),
        session_headers(session_id).contains(
            ("Access-Control-Expose-Headers"@, "mcp-session-id, MCP-Session-Id"@),
        ),
        session_headers(session_id).len() == 2,
        0 <= i < session_headers(session_id).len() && session_headers(session_id)[i].0
            == "mcp-session-id"@ ==> {
            let named = session_headers(session_id)[i].1;
            let opened = after_request(admitted(proxy, session_id, true), session_id, body, waiter);
            &&& named == session_id
            &&& opened.active.contains(named)
            &&& may_speak(opened, named)
        },
{
    let headers = session_headers(session_id);
    assert(headers[0] == ("mcp-session-id"@, session_id));
    assert(headers[1] == (
        "Access-Control-Expose-Headers"@,
        "mcp-session-id, MCP-Session-Id"@,
    ));
    reveal_strlit("mcp-session-id");
    reveal_strlit("Access-Control-Expose-Headers");
    assert("mcp-session-id"@.len() != "Access-Control-Expose-Headers"@.len());
}

/// A session may speak exactly where it was let speak or has a stream, whatever it is called.
pub proof fn law_who_may_speak<S, W>(proxy: ProxyV<S, W>, session_id: Seq<char>)
    ensures
        may_speak(proxy, session_id) <==> proxy.active.contains(session_id)
            || proxy.sessions.contains_key(session_id),
{
}

/// A message that opens a session lets that session speak and no other; one that opens none
/// changes nothing.
pub proof fn law_opening_lets_one_session_speak<S, W>(
    proxy: ProxyV<S, W>,
    session_id: Seq<char>,
    other: Seq<char>,
)
    ensures
        ({
            let after = admitted(proxy, session_id, true);
            &&& after.active.contains(session_id)
            &&& other != session_id ==> after.active.contains(other) == proxy.active.contains(other)
            &&& after.sessions == proxy.sessions && after.mux == proxy.mux
            &&& after.waiting == proxy.waiting && after.id == proxy.id
            &&& after.is_http == proxy.is_http
            &&& admitted(proxy, session_id, false) == proxy
        }),
{
}

/// Ending a session takes away its stream and its right to speak, and leaves every other session,
/// every open request and every caller that waits.
pub proof fn law_ending_a_session_leaves_every_other<S, W>(
    proxy: ProxyV<S, W>,
    session_id: Seq<char>,
    other: Seq<char>,
)
    requires
        other != session_id,
    ensures
        ({
            let after = let_go(proxy, session_id);
            &&& !after.active.contains(session_id) && !after.sessions.contains_key(session_id)
            &&& after.active.contains(other) == proxy.active.contains(other)
            &&& after.sessions.contains_key(other) == proxy.sessions.contains_key(other)
            &&& proxy.sessions.contains_key(other) ==> after.sessions[other]
                == proxy.sessions[other]
            &&& after.mux == proxy.mux && after.waiting == proxy.waiting
            &&& after.id == proxy.id && after.is_http == proxy.is_http
        }),
{
}

/// A body asks to open a session exactly where its method is the string `initialize`.
pub proof fn law_initialize_opens_a_session(body: JsonV, members: Map<Seq<char>, JsonV>)
    ensures
        is_initialize(JsonV::Object(members)) <==> members.contains_key("method"@)
            && members["method"@] == JsonV::Str("initialize"@),
        !(body is Object) ==> !is_initialize(body),
{
}

/// A plain reply has its status and its body and sets no header.
pub proof fn law_a_plain_reply_sets_no_header(status: u16, body: BodyV)
    ensures
        plain(status, body).status == status,
        plain(status, body).headers.len() == 0,
        plain(status, body).body == body,
{
}

/// A reply is told whole: its status, each header with its whole name and value, and its body.
pub proof fn law_replies_are_told_whole(r: Reply, text: String, json: Json, i: int)
    ensures
        r@.status == r.status,
        r@.headers.len() == r.headers@.len(),
        0 <= i < r.headers@.len() ==> r@.headers[i] == (r.headers@[i].0@, r.headers@[i].1@),
        r@.body == r.body@,
        Body::Empty@ == BodyV::Empty,
        Body::Text(text)@ == BodyV::Text(text@),
        Body::Json(json)@ == BodyV::Json(json@),
{
}

/// A server is listed under its whole id, with the paths that lead to it and whether it is live,
/// and with nothing else.
pub proof fn law_a_server_is_listed_with_its_paths(id: Seq<char>, live: bool)
    ensures
        ({
            let row = server_row(id, live);
            &&& member(row, "id"@) == Some(JsonV::Str(id))
            &&& member(row, "sse"@) == Some(JsonV::Str("/"@ + id + "/sse"@))
            &&& member(row, "messages"@) == Some(JsonV::Str("/"@ + id + "/messages"@))
            &&& member(row, "live"@) == Some(JsonV::Bool(live))
            &&& row->Object_0.dom() == set!["id"@, "sse"@, "messages"@, "live"@]
        }),
{
    reveal_strlit("id");
    reveal_strlit("sse");
    reveal_strlit("messages");
    reveal_strlit("live");
    assert("id"@.len() == 2 && "sse"@.len() == 3 && "messages"@.len() == 8 && "live"@.len() == 4);
    assert(server_row(id, live)->Object_0.dom() =~= set!["id"@, "sse"@, "messages"@, "live"@]);
}

/// A list of servers holds its rows under `servers`, and nothing else.
pub proof fn law_a_list_holds_its_rows(rows: Seq<JsonV>)
    ensures
        member(servers_json(rows), "servers"@) == Some(JsonV::Array(rows)),
        servers_json(rows)->Object_0.dom() == set!["servers"@],
{
    assert(servers_json(rows)->Object_0.dom() =~= set!["servers"@]);
}

/// A server's settings are shown whole: every argument in its order, every variable of its
/// environment, and `null` where it has no directory.
pub proof fn law_settings_are_shown_whole(
    id: Seq<char>,
    entry: McpEntryV,
    live: bool,
    i: int,
    name: Seq<char>,
)
    ensures
        ({
            let row = settings_row(id, entry, live);
            &&& member(row, "id"@) == Some(JsonV::Str(id))
            &&& member(row, "command"@) == Some(JsonV::Str(entry.command))
            &&& member(row, "is_http"@) == Some(JsonV::Bool(entry.is_http))
            &&& member(row, "live"@) == Some(JsonV::Bool(live))
            &&& entry.cwd is None ==> member(row, "cwd"@) == Some(JsonV::Null)
            &&& entry.cwd is Some ==> member(row, "cwd"@) == Some(JsonV::Str(entry.cwd->Some_0))
            &&& member(row, "args"@) matches Some(JsonV::Array(args)) && args.len()
                == entry.args.len() && (0 <= i < args.len() ==> args[i] == JsonV::Str(
                entry.args[i],
            ))
            &&& member(row, "env"@) matches Some(JsonV::Object(env)) && env.dom()
                == entry.env.dom() && (entry.env.contains_key(name) ==> env[name] == JsonV::Str(
                entry.env[name],
            ))
            &&& row->Object_0.dom() == set![
                "id"@,
                "command"@,
                "args"@,
                "env"@,
                "cwd"@,
                "is_http"@,
                "live"@,
            ]
        }),
{
    reveal_strlit("id");
    reveal_strlit("command");
    reveal_strlit("args");
    reveal_strlit("env");
    reveal_strlit("cwd");
    reveal_strlit("is_http");
    reveal_strlit("live");
    assert("id"@.len() == 2 && "command"@.len() == 7 && "args"@.len() == 4 && "env"@.len() == 3
        && "cwd"@.len() == 3 && "is_http"@.len() == 7 && "live"@.len() == 4);
    assert("command"@[0] != "is_http"@[0]);
    assert("args"@[0] != "live"@[0]);
    assert("env"@[0] != "cwd"@[0]);
    let row = settings_row(id, entry, live);
    assert(row->Object_0.dom() =~= set![
        "id"@,
        "command"@,
        "args"@,
        "env"@,
        "cwd"@,
        "is_http"@,
        "live"@,
    ]);
    assert(table_json(entry.env)->Object_0.dom() =~= entry.env.dom());
}

/// The entry that a client's settings make has just these settings; it is one of an endpoint
/// exactly where the command is a URL.
pub proof fn law_settings_of_a_client_are_taken_whole(payload: AddServerPayload)
    ensures
        ({
            let entry = payload_entry(payload);
            &&& entry.command == payload.command@
            &&& entry.args == payload.args@.map_values(|a: String| a@)
            &&& entry.env == payload.env@.map_values(|v: String| v@)
            &&& (entry.cwd is Some) == (payload.cwd is Some)
            &&& payload.cwd is Some ==> entry.cwd->Some_0 == payload.cwd->Some_0@
            &&& entry.is_http <==> is_url(payload.command@)
        }),
{
}

} // verus!
