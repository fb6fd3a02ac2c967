//! The watch over the running sessions of a DSH service.
//!
//! The launch token that the service prints is exchanged for a cookie; with the cookie the
//! list of sessions is asked for at a fixed interval, and whether any session is running
//! is reported. The watch only reads: whatever goes wrong, it ends and leaves the service
//! alone.

use vstd::prelude::*;

use crate::adapters;
use crate::adapters::{
    json_bool, json_get, json_items, json_str, parse_json, parse_url, url_origin, url_with_pair,
    Json,
};
use crate::text;
use crate::text::{chars_of, cut_at, equal, number, position, string_of, trimmed};
use crate::update::clone_text;

verus! {

/// How many seconds pass between two requests, and how many one may take.
pub const POLL_INTERVAL_SECS: u64 = 1;

pub const HTTP_TIMEOUT_SECS: u64 = 8;

/// After so many exchanges that failed the watch ends.
pub const EXCHANGE_MAX_ATTEMPTS: u32 = 30;

/// After so many requests in a row that failed the watch ends.
pub const POLL_MAX_FAILURES: u32 = 3;

/// How many sessions are running.
#[derive(Debug, Clone, Copy, PartialEq, Eq, Structural)]
pub struct RunningSnapshot {
    pub main: usize,
    pub subagents: usize,
}

/// What gives access to the service. It is kept in memory only.
#[derive(Debug, PartialEq, Eq)]
pub struct SessionCredentials {
    pub origin: String,
    pub token: Option<String>,
    pub cookie: Option<String>,
}

#[verifier::ext_equal]
pub struct CredentialsView {
    pub origin: Seq<char>,
    pub token: Option<Seq<char>>,
    pub cookie: Option<Seq<char>>,
}

impl View for SessionCredentials {
    type V = CredentialsView;

    open spec fn view(&self) -> CredentialsView {
        CredentialsView {
            origin: self.origin@,
            token: text::opt_text(self.token),
            cookie: text::opt_text(self.cookie),
        }
    }
}

impl Clone for SessionCredentials {
    fn clone(&self) -> (r: Self)
        ensures
            r == *self,
    {
        SessionCredentials {
            origin: self.origin.clone(),
            token: clone_text(&self.token),
            cookie: clone_text(&self.cookie),
        }
    }
}

// ---------------------------------------------------------------------------
// Tokens and cookies
// ---------------------------------------------------------------------------

pub fn web_scheme(scheme: &str) -> (r: bool)
    ensures
        r == adapters::is_web_scheme(scheme@),
{
    equal(scheme, "http") || equal(scheme, "https")
}

/// The value of the first pair with the given name.
pub open spec fn first_value(
    pairs: Seq<(Seq<char>, Seq<char>)>,
    name: Seq<char>,
) -> Option<Seq<char>> {
    crate::config::looked_up(pairs, name)
}

pub fn value_of(pairs: &Vec<(String, String)>, name: &str) -> (r: Option<String>)
    ensures
        text::opt_text(r) == first_value(
            pairs@.map_values(|p: (String, String)| (p.0@, p.1@)),
            name@,
        ),
{
    let ghost all = pairs@.map_values(|p: (String, String)| (p.0@, p.1@));
    let mut i: usize = 0;
    assert(all.skip(0) == all);
    while i < pairs.len()
        invariant
            i <= pairs.len(),
            all == pairs@.map_values(|p: (String, String)| (p.0@, p.1@)),
            first_value(all, name@) == first_value(all.skip(i as int), name@),
        decreases pairs.len() - i,
    {
        assert(all.skip(i as int)[0] == all[i as int]);
        if equal(pairs[i].0.as_str(), name) {
            return Some(pairs[i].1.clone());
        }
        assert(all.skip(i as int).skip(1) == all.skip(i as int + 1));
        i += 1;
    }
    None
}

/// The token of a web address that carries one.
pub open spec fn web_token(url: adapters::UrlView) -> Option<Seq<char>> {
    match first_value(url.query, "token"@) {
        Some(token) => if adapters::is_web_scheme(url.scheme) && token.len() > 0 {
            Some(token)
        } else {
            None
        },
        None => None,
    }
}

/// What the parts of an address say of its token.
pub fn token_of(url: &adapters::UrlParts) -> (r: Option<String>)
    ensures
        text::opt_text(r) == web_token(url@),
{
    if !web_scheme(url.scheme.as_str()) {
        return None;
    }
    match value_of(&url.query, "token") {
        Some(token) => if chars_of(token.as_str()).len() > 0 {
            Some(token)
        } else {
            None
        },
        None => None,
    }
}

/// The origin and the token of an address that was written down.
pub open spec fn authenticated(url: Seq<char>) -> Option<(Seq<char>, Seq<char>)> {
    match adapters::url_of(text::trim(url)) {
        Ok(parts) => match web_token(parts) {
            Some(token) => Some((adapters::web_origin(parts), token)),
            None => None,
        },
        Err(_) => None,
    }
}

pub fn parse_authenticated(url: &str) -> (r: Option<(String, String)>)
    ensures
        match r {
            Some(p) => authenticated(url@) == Some((p.0@, p.1@)),
            None => authenticated(url@) is None,
        },
{
    let line = string_of(trimmed(chars_of(url).as_slice()));
    match parse_url(line.as_str()) {
        Ok(parts) => match token_of(&parts) {
            Some(token) => Some((url_origin(line.as_str()), token)),
            None => None,
        },
        Err(_) => None,
    }
}

/// The credentials that an address gives: its origin and token, no cookie yet.
pub open spec fn credentials_of(url: Seq<char>) -> Option<CredentialsView> {
    match authenticated(url) {
        Some(p) => Some(CredentialsView { origin: p.0, token: Some(p.1), cookie: None }),
        None => None,
    }
}

pub open spec fn opt_credentials(c: Option<SessionCredentials>) -> Option<CredentialsView> {
    match c {
        Some(c) => Some(c@),
        None => None,
    }
}

impl SessionCredentials {
    pub fn from_authenticated_url(url: &str) -> (r: Option<SessionCredentials>)
        ensures
            opt_credentials(r) == credentials_of(url@),
    {
        match parse_authenticated(url) {
            Some((origin, token)) => Some(
                SessionCredentials { origin, token: Some(token), cookie: None },
            ),
            None => None,
        }
    }
}

/// An origin and a token whose address is not too long to be handled.
pub open spec fn fits_an_address(origin: Seq<char>, token: Seq<char>) -> bool {
    origin.len() < 0x0fff_ffff && token.len() < 0x0400_0000
}

/// The address at which a token is exchanged for a cookie.
pub fn exchange_url(origin: &str, token: &str) -> (r: Result<String, String>)
    ensures
        !fits_an_address(origin@, token@) ==> (r matches Err(e) && e@ == "origin 无效：地址过长"@),
        fits_an_address(origin@, token@) ==> match adapters::url_with(
            origin@ + "/"@,
            "token"@,
            token@,
        ) {
            Ok(url) => r matches Ok(u) && u@ == url,
            Err(error) => r matches Err(e) && e@ == "origin 无效："@ + error,
        },
        r is Ok <==> fits_an_address(origin@, token@) && adapters::url_of(
            origin@ + "/"@,
        ) is Ok,
{
    if origin.unicode_len() >= 0x0fff_ffff || token.unicode_len() >= 0x0400_0000 {
        return Err("origin 无效：地址过长".to_string());
    }
    proof {
        reveal_strlit("/");
        reveal_strlit("token");
    }
    let base = origin.to_string().concat("/");
    match url_with_pair(base.as_str(), "token", token) {
        Ok(url) => Ok(url),
        Err(error) => Err("origin 无效：".to_string().concat(error.as_str())),
    }
}

/// The cookie that a `Set-Cookie` header sets, without its attributes.
pub open spec fn cookie_pair(header: Seq<char>) -> Option<Seq<char>> {
    let pair = text::trim(header.take(text::find(header, ';')));
    match text::split_once(pair, '=') {
        Some(p) => {
            let name = text::trim(p.0);
            let value = text::trim(p.1);
            if name.len() > 0 && value.len() > 0 {
                Some(name + "="@ + value)
            } else {
                None
            }
        },
        None => None,
    }
}

pub fn cookie_from_set_cookie(header: &str) -> (r: Option<String>)
    ensures
        text::opt_text(r) == cookie_pair(header@),
{
    let all = chars_of(header);
    let n: usize = position(all.as_slice(), ';');
    let first = vstd::slice::slice_subrange(all.as_slice(), 0, n);
    assert(first@ == header@.take(n as int));
    match cut_at(trimmed(first), '=') {
        Some((name, value)) => {
            let name = trimmed(name);
            let value = trimmed(value);
            if name.len() > 0 && value.len() > 0 {
                Some(string_of(name).concat("=").concat(string_of(value).as_str()))
            } else {
                None
            }
        },
        None => None,
    }
}

/// How the request for a cookie ended.
#[derive(Debug)]
pub enum ExchangeOutcome {
    /// There was no usable response; why.
    Failed(String),
    Response { status: u16, set_cookie: Option<String> },
}

/// The cookie that came back, or why none did. The service redirects and sets the cookie.
pub open spec fn exchanged(o: ExchangeOutcome) -> Result<Seq<char>, Seq<char>> {
    match o {
        ExchangeOutcome::Failed(e) => Err("请求失败："@ + e@),
        ExchangeOutcome::Response { status, set_cookie } => if !(300 <= status < 400) {
            Err("预期 3xx 重定向，实际状态码 "@ + text::decimal(status as nat))
        } else {
            match set_cookie {
                Some(header) => match cookie_pair(header@) {
                    Some(cookie) => Ok(cookie),
                    None => Err("响应缺少 Set-Cookie 头"@),
                },
                None => Err("响应缺少 Set-Cookie 头"@),
            }
        },
    }
}

pub fn exchange_cookie(o: &ExchangeOutcome) -> (r: Result<String, String>)
    ensures
        crate::process::text_outcome(r) == exchanged(*o),
{
    match o {
        ExchangeOutcome::Failed(e) => Err("请求失败：".to_string().concat(e.as_str())),
        ExchangeOutcome::Response { status, set_cookie } => {
            if *status < 300 || *status >= 400 {
                return Err(
                    "预期 3xx 重定向，实际状态码 ".to_string().concat(
                        number(*status as u64).as_str(),
                    ),
                );
            }
            match set_cookie {
                Some(header) => match cookie_from_set_cookie(header.as_str()) {
                    Some(cookie) => Ok(cookie),
                    None => Err("响应缺少 Set-Cookie 头".to_string()),
                },
                None => Err("响应缺少 Set-Cookie 头".to_string()),
            }
        },
    }
}

// ---------------------------------------------------------------------------
// The list of sessions
// ---------------------------------------------------------------------------

/// The body of the request for the list of sessions.
pub open spec fn list_request(rpc_id: u64) -> Seq<char> {
    "{\"method\":\"session/list\",\"payload\":{\"args\":{\"_request\":{}}},\"rpcId\":\"monitor-"@
        + text::decimal(rpc_id as nat) + "\",\"type\":\"client-request\"}"@
}

pub fn list_request_body(rpc_id: u64) -> (r: String)
    ensures
        r@ == list_request(rpc_id),
{
    "{\"method\":\"session/list\",\"payload\":{\"args\":{\"_request\":{}}},\"rpcId\":\"monitor-".to_string().concat(
        number(rpc_id).as_str(),
    ).concat("\",\"type\":\"client-request\"}")
}

/// The address of the request for the list of sessions.
pub fn list_request_url(origin: &str) -> (r: String)
    ensures
        r@ == origin@ + "/api/session/list"@,
{
    origin.to_string().concat("/api/session/list")
}

/// A member of a member.
pub open spec fn member_of(v: Option<Json>, key: Seq<char>) -> Option<Json> {
    match v {
        Some(v) => adapters::json_member(v, key),
        None => None,
    }
}

/// The listed sessions of a successful answer.
pub open spec fn listed_items(answer: Json) -> Option<Seq<Json>> {
    let result = adapters::json_member(answer, "result"@);
    if member_of(result, "ok"@) == Some(Json::Bool(true)) {
        match member_of(member_of(result, "value"@), "items"@) {
            Some(Json::List(items)) => Some(items),
            _ => None,
        }
    } else {
        None
    }
}

/// A session that is in the middle of a turn.
pub open spec fn is_running(item: Json) -> bool {
    adapters::json_member(item, "running"@) == Some(Json::Bool(true))
}

pub open spec fn is_subagent(item: Json) -> bool {
    adapters::json_member(item, "origin"@) == Some(Json::Text("subagent"@))
}

/// How many of the sessions run, on their own or for another session.
pub open spec fn count_running(items: Seq<Json>, subagents: bool) -> nat
    decreases items.len(),
{
    if items.len() == 0 {
        0
    } else {
        count_running(items.drop_last(), subagents) + if is_running(items.last()) && is_subagent(
            items.last(),
        ) == subagents {
            1nat
        } else {
            0nat
        }
    }
}

fn bool_member(v: &serde_json::Value, key: &str) -> (r: Option<bool>)
    ensures
        match adapters::json_member(adapters::json(*v), key@) {
            Some(Json::Bool(b)) => r == Some(b),
            _ => r is None,
        },
{
    match json_get(v, key) {
        Some(m) => json_bool(m),
        None => None,
    }
}

fn item_is_subagent(item: &serde_json::Value) -> (r: bool)
    ensures
        r == is_subagent(adapters::json(*item)),
{
    match json_get(item, "origin") {
        Some(origin) => match json_str(origin) {
            Some(name) => equal(name.as_str(), "subagent"),
            None => false,
        },
        None => false,
    }
}

/// How many sessions the answer lists as running. A session that does not say whether it
/// runs does not count.
pub fn parse_running_sessions(value: &serde_json::Value) -> (r: Option<RunningSnapshot>)
    ensures
        match listed_items(adapters::json(*value)) {
            Some(items) => r matches Some(s) && s.main == count_running(items, false)
                && s.subagents == count_running(items, true),
            None => r is None,
        },
{
    let result = match json_get(value, "result") {
        Some(result) => result,
        None => return None,
    };
    match bool_member(result, "ok") {
        Some(ok) => {
            if !ok {
                return None;
            }
        },
        None => return None,
    }
    let list = match json_get(result, "value") {
        Some(list) => list,
        None => return None,
    };
    let items = match json_get(list, "items") {
        Some(items) => items,
        None => return None,
    };
    let items = match json_items(items) {
        Some(items) => items,
        None => return None,
    };
    let ghost all = listed_items(adapters::json(*value))->0;
    let mut main: usize = 0;
    let mut subagents: usize = 0;
    let mut i: usize = 0;
    while i < items.len()
        invariant
            i <= items.len(),
            items@.len() == all.len(),
            forall|j: int| 0 <= j < all.len() ==> adapters::json(*#[trigger] items@[j]) == all[j],
            main == count_running(all.take(i as int), false),
            subagents == count_running(all.take(i as int), true),
            main <= i,
            subagents <= i,
        decreases items.len() - i,
    {
        let ghost next = all.take(i as int + 1);
        assert(next.drop_last() == all.take(i as int));
        let item = items[i];
        assert(adapters::json(*item) == all[i as int]);
        let running = match bool_member(item, "running") {
            Some(b) => b,
            None => false,
        };
        if running {
            if item_is_subagent(item) {
                subagents += 1;
            } else {
                main += 1;
            }
        }
        i += 1;
    }
    assert(all.take(all.len() as int) == all);
    Some(RunningSnapshot { main, subagents })
}

/// Why the list of sessions was not had.
#[derive(Debug)]
pub enum PollFailure {
    /// The cookie is not accepted.
    Unauthorized,
    /// The service answered something else.
    Server(String),
    /// The service did not answer.
    Transport(String),
}

/// How the request for the list of sessions ended.
#[derive(Debug)]
pub enum PollOutcome {
    Status(u16),
    Transport(String),
    /// The body of the answer, or why it could not be read.
    Body(Result<String, String>),
}

/// What a request that ended this way says.
pub open spec fn poll_result_is(
    o: PollOutcome,
    r: Result<RunningSnapshot, PollFailure>,
) -> bool {
    match o {
        PollOutcome::Status(status) => if status == 401 {
            r matches Err(PollFailure::Unauthorized)
        } else {
            r matches Err(PollFailure::Server(e)) && e@ == "HTTP "@ + text::decimal(status as nat)
        },
        PollOutcome::Transport(error) => r matches Err(PollFailure::Transport(e)) && e@ == error@,
        PollOutcome::Body(Err(error)) => r matches Err(PollFailure::Server(e)) && e@
            == "读取响应失败："@ + error@,
        PollOutcome::Body(Ok(body)) => match adapters::json_text(body@) {
            Err(error) => r matches Err(PollFailure::Server(e)) && e@
                == "响应不是合法 JSON："@ + error,
            Ok(answer) => match listed_items(answer) {
                Some(items) => r matches Ok(s) && s.main == count_running(items, false)
                    && s.subagents == count_running(items, true),
                None => r matches Err(PollFailure::Server(e)) && e@
                    == "响应缺少 result.value.items"@,
            },
        },
    }
}

pub fn poll_running(o: &PollOutcome) -> (r: Result<RunningSnapshot, PollFailure>)
    ensures
        poll_result_is(*o, r),
{
    match o {
        PollOutcome::Status(status) => if *status == 401 {
            Err(PollFailure::Unauthorized)
        } else {
            Err(
                PollFailure::Server("HTTP ".to_string().concat(number(*status as u64).as_str())),
            )
        },
        PollOutcome::Transport(error) => Err(PollFailure::Transport(error.clone())),
        PollOutcome::Body(Err(error)) => Err(
            PollFailure::Server("读取响应失败：".to_string().concat(error.as_str())),
        ),
        PollOutcome::Body(Ok(body)) => match parse_json(body.as_str()) {
            Err(error) => Err(
                PollFailure::Server("响应不是合法 JSON：".to_string().concat(error.as_str())),
            ),
            Ok(answer) => match parse_running_sessions(&answer) {
                Some(snapshot) => Ok(snapshot),
                None => Err(PollFailure::Server("响应缺少 result.value.items".to_string())),
            },
        },
    }
}

// ---------------------------------------------------------------------------
// The watch
// ---------------------------------------------------------------------------

#[derive(Debug, Clone, Copy, PartialEq, Eq, Structural)]
pub enum MonitorStage {
    /// The token must be exchanged for a first cookie.
    Exchange,
    /// The sessions must be asked for.
    Poll,
    /// The cookie was refused: the token must be exchanged again.
    Renew,
    Ended,
}

#[derive(Debug)]
pub struct SessionMonitor {
    pub origin: String,
    pub token: Option<String>,
    pub cookie: Option<String>,
    pub attempts: u32,
    pub failures: u32,
    pub sequence: u64,
    pub stage: MonitorStage,
}

/// What the watch does besides asking.
#[derive(Debug)]
pub enum MonitorEffect {
    Log { level: &'static str, message: String },
    /// The cookie is kept with the credentials, for a watch that follows.
    KeepCookie(String),
    /// Whether any session is running.
    Running(bool),
    /// The interval must pass.
    Pause,
}

pub enum MonitorNote {
    Log { level: Seq<char>, message: Seq<char> },
    KeepCookie(Seq<char>),
    Running(bool),
    Pause,
}

pub open spec fn note_of(e: MonitorEffect) -> MonitorNote {
    match e {
        MonitorEffect::Log { level, message } => MonitorNote::Log {
            level: level@,
            message: message@,
        },
        MonitorEffect::KeepCookie(c) => MonitorNote::KeepCookie(c@),
        MonitorEffect::Running(b) => MonitorNote::Running(b),
        MonitorEffect::Pause => MonitorNote::Pause,
    }
}

pub open spec fn notes(v: Seq<MonitorEffect>) -> Seq<MonitorNote> {
    v.map_values(|e: MonitorEffect| note_of(e))
}

/// Whether any session runs is told once, and this is what is told.
pub open spec fn tells_running(v: Seq<MonitorEffect>, running: bool) -> bool {
    exists|i: int|
        0 <= i < v.len() && #[trigger] v[i] == MonitorEffect::Running(running) && forall|j: int|
            0 <= j < v.len() && #[trigger] v[j] is Running ==> j == i
}

pub open spec fn noted(level: Seq<char>, message: Seq<char>) -> MonitorNote {
    MonitorNote::Log { level, message }
}

#[verifier::ext_equal]
pub struct MonitorView {
    pub origin: Seq<char>,
    pub token: Option<Seq<char>>,
    pub cookie: Option<Seq<char>>,
    pub attempts: u32,
    pub failures: u32,
    pub sequence: u64,
    pub stage: MonitorStage,
}

impl View for SessionMonitor {
    type V = MonitorView;

    open spec fn view(&self) -> MonitorView {
        MonitorView {
            origin: self.origin@,
            token: text::opt_text(self.token),
            cookie: text::opt_text(self.cookie),
            attempts: self.attempts,
            failures: self.failures,
            sequence: self.sequence,
            stage: self.stage,
        }
    }
}

impl MonitorView {
    /// What the stage needs is there, and the counters are below their limits.
    pub open spec fn wf(self) -> bool {
        &&& self.stage == MonitorStage::Exchange ==> self.token is Some && self.attempts < 30
        &&& self.stage == MonitorStage::Renew ==> self.token is Some
        &&& self.stage == MonitorStage::Poll || self.stage == MonitorStage::Renew
            ==> self.cookie is Some
        &&& self.stage != MonitorStage::Ended ==> self.failures < 3
    }
}

/// The request that the watch makes next.
#[derive(Debug)]
pub enum MonitorAction {
    Exchange { origin: String, token: String },
    Poll { origin: String, cookie: String, rpc_id: u64 },
    Finished,
}

/// How a watch over the given credentials starts.
pub open spec fn monitor_started(c: Option<CredentialsView>) -> (Option<MonitorView>, Seq<
    MonitorNote,
>) {
    match c {
        None => (
            None,
            seq![noted("warning"@, "会话监视：未提供有效鉴权凭据，未启动"@)],
        ),
        Some(c) => {
            let m = MonitorView {
                origin: c.origin,
                token: c.token,
                cookie: c.cookie,
                attempts: 0,
                failures: 0,
                sequence: 0,
                stage: if c.cookie is Some {
                    MonitorStage::Poll
                } else {
                    MonitorStage::Exchange
                },
            };
            if c.cookie is Some {
                (
                    Some(m),
                    seq![
                        noted(
                            "info"@,
                            "会话监视：已启动并复用已有会话凭据（"@ + c.origin + "）"@,
                        ),
                    ],
                )
            } else if c.token is Some {
                (Some(m), seq![])
            } else {
                (None, seq![noted("warning"@, "会话监视：缺少 token 与 cookie，未启动"@)])
            }
        },
    }
}

/// The watch after it was found out whether it is still wanted, before its next request.
pub open spec fn monitor_next(m: MonitorView, cancelled: bool) -> (MonitorView, Seq<MonitorNote>) {
    if m.stage == MonitorStage::Exchange && cancelled {
        (MonitorView { stage: MonitorStage::Ended, ..m }, seq![])
    } else if m.stage == MonitorStage::Poll && cancelled {
        (
            MonitorView { stage: MonitorStage::Ended, ..m },
            seq![noted("info"@, "会话监视：已停止"@)],
        )
    } else {
        (m, seq![])
    }
}

/// The watch after an exchange.
pub open spec fn monitor_exchanged(m: MonitorView, r: Result<Seq<char>, Seq<char>>) -> (
    MonitorView,
    Seq<MonitorNote>,
) {
    match (m.stage, r) {
        (MonitorStage::Exchange, Ok(cookie)) => (
            MonitorView { cookie: Some(cookie), stage: MonitorStage::Poll, ..m },
            seq![
                MonitorNote::KeepCookie(cookie),
                noted("info"@, "会话监视：launch token 换取 cookie 成功"@),
            ],
        ),
        (MonitorStage::Exchange, Err(error)) => {
            let attempts = (m.attempts + 1) as u32;
            let complaint = if attempts == 1 || attempts % 10 == 0 {
                seq![
                    noted(
                        "error"@,
                        "会话监视：token 换取 cookie 失败（第 "@ + text::decimal(attempts as nat)
                            + " 次）："@ + error,
                    ),
                ]
            } else {
                seq![]
            };
            if attempts >= 30 {
                (
                    MonitorView { attempts, stage: MonitorStage::Ended, ..m },
                    complaint.push(
                        noted("error"@, "会话监视：多次换取 cookie 失败，已停止监视"@),
                    ),
                )
            } else {
                (MonitorView { attempts, ..m }, complaint.push(MonitorNote::Pause))
            }
        },
        (MonitorStage::Renew, Ok(cookie)) => (
            MonitorView { cookie: Some(cookie), stage: MonitorStage::Poll, ..m },
            seq![MonitorNote::KeepCookie(cookie), MonitorNote::Pause],
        ),
        (MonitorStage::Renew, Err(error)) => (
            MonitorView { stage: MonitorStage::Poll, ..m },
            seq![
                noted("error"@, "会话监视：重新换取 cookie 失败："@ + error),
                MonitorNote::Pause,
            ],
        ),
        _ => (m, seq![]),
    }
}

/// The watch after a request for the sessions.
pub open spec fn monitor_polled(m: MonitorView, r: Result<RunningSnapshot, PollFailure>) -> (
    MonitorView,
    Seq<MonitorNote>,
) {
    if m.stage != MonitorStage::Poll {
        (m, seq![])
    } else {
        match r {
            Ok(s) => (
                MonitorView { failures: 0, ..m },
                seq![MonitorNote::Running(s.main > 0 || s.subagents > 0), MonitorNote::Pause],
            ),
            Err(PollFailure::Unauthorized) => if m.token is Some {
                (
                    MonitorView { failures: 0, stage: MonitorStage::Renew, ..m },
                    seq![noted("warning"@, "会话监视：cookie 已失效，尝试重新用 token 换取"@)],
                )
            } else {
                (
                    MonitorView { failures: 0, stage: MonitorStage::Ended, ..m },
                    seq![noted("error"@, "会话监视：cookie 已失效且无可用 token，已停止监视"@)],
                )
            },
            Err(PollFailure::Transport(error)) => {
                let failures = (m.failures + 1) as u32;
                if failures >= 3 {
                    (
                        MonitorView { failures, stage: MonitorStage::Ended, ..m },
                        seq![
                            noted(
                                "info"@,
                                "会话监视：DSH 无法访问（"@ + error@ + "），已退出"@,
                            ),
                        ],
                    )
                } else {
                    (MonitorView { failures, ..m }, seq![MonitorNote::Pause])
                }
            },
            Err(PollFailure::Server(error)) => {
                let failures = (m.failures + 1) as u32;
                let complaint = noted("error"@, "会话监视：会话列表响应异常："@ + error@);
                if failures >= 3 {
                    (
                        MonitorView { failures, stage: MonitorStage::Ended, ..m },
                        seq![complaint],
                    )
                } else {
                    (MonitorView { failures, ..m }, seq![complaint, MonitorNote::Pause])
                }
            },
        }
    }
}

fn log(level: &'static str, message: String) -> (r: MonitorEffect)
    ensures
        note_of(r) == noted(level@, message@),
{
    MonitorEffect::Log { level, message }
}

impl SessionMonitor {
    /// Starts a watch, if the credentials allow one.
    pub fn start(credentials: Option<SessionCredentials>) -> (r: (
        Option<SessionMonitor>,
        Vec<MonitorEffect>,
    ))
        ensures
            ({
                let started = monitor_started(opt_credentials(credentials));
                &&& notes(r.1@) == started.1
                &&& match r.0 {
                    Some(m) => started.0 == Some(m@) && m@.wf(),
                    None => started.0 is None,
                }
            }),
    {
        let mut effects: Vec<MonitorEffect> = Vec::new();
        let c = match credentials {
            None => {
                effects.push(
                    log("warning", "会话监视：未提供有效鉴权凭据，未启动".to_string()),
                );
                assert(notes(effects@) =~= monitor_started(None).1);
                return (None, effects);
            },
            Some(c) => c,
        };
        let ghost started = monitor_started(Some(c@));
        let stage = if c.cookie.is_some() {
            effects.push(
                log(
                    "info",
                    "会话监视：已启动并复用已有会话凭据（".to_string().concat(c.origin.as_str()).concat(
                        "）",
                    ),
                ),
            );
            MonitorStage::Poll
        } else {
            if c.token.is_none() {
                effects.push(
                    log("warning", "会话监视：缺少 token 与 cookie，未启动".to_string()),
                );
                assert(notes(effects@) =~= started.1);
                return (None, effects);
            }
            MonitorStage::Exchange
        };
        assert(notes(effects@) =~= started.1);
        let m = SessionMonitor {
            origin: c.origin,
            token: c.token,
            cookie: c.cookie,
            attempts: 0,
            failures: 0,
            sequence: 0,
            stage,
        };
        (Some(m), effects)
    }

    /// The next request, unless the watch is no longer wanted. A renewal that is due is
    /// tried in any case.
    pub fn next(&mut self, cancelled: bool) -> (r: (MonitorAction, Vec<MonitorEffect>))
        requires
            old(self)@.wf(),
        ensures
            final(self)@.wf(),
            ({
                let n = monitor_next(old(self)@, cancelled);
                &&& notes(r.1@) == n.1
                &&& match n.0.stage {
                    MonitorStage::Exchange | MonitorStage::Renew => {
                        &&& r.0 matches MonitorAction::Exchange { origin, token }
                        &&& origin@ == n.0.origin && Some(token@) == n.0.token
                        &&& final(self)@ == n.0
                    },
                    MonitorStage::Poll => {
                        &&& r.0 matches MonitorAction::Poll { origin, cookie, rpc_id }
                        &&& origin@ == n.0.origin && Some(cookie@) == n.0.cookie && rpc_id
                            == n.0.sequence
                        &&& final(self)@ == (MonitorView {
                            sequence: n.0.sequence.wrapping_add(1),
                            ..n.0
                        })
                    },
                    MonitorStage::Ended => r.0 is Finished && final(self)@ == n.0,
                }
            }),
    {
        let mut effects: Vec<MonitorEffect> = Vec::new();
        let ghost n = monitor_next(old(self)@, cancelled);
        if cancelled && self.stage == MonitorStage::Exchange {
            self.stage = MonitorStage::Ended;
        } else if cancelled && self.stage == MonitorStage::Poll {
            effects.push(log("info", "会话监视：已停止".to_string()));
            self.stage = MonitorStage::Ended;
        }
        assert(notes(effects@) =~= n.1);
        let action = match self.stage {
            MonitorStage::Exchange | MonitorStage::Renew => match &self.token {
                Some(token) => MonitorAction::Exchange {
                    origin: self.origin.clone(),
                    token: token.clone(),
                },
                None => MonitorAction::Finished,
            },
            MonitorStage::Poll => match &self.cookie {
                Some(cookie) => {
                    let rpc_id: u64 = self.sequence;
                    let action = MonitorAction::Poll {
                        origin: self.origin.clone(),
                        cookie: cookie.clone(),
                        rpc_id,
                    };
                    self.sequence = rpc_id.wrapping_add(1);
                    action
                },
                None => MonitorAction::Finished,
            },
            MonitorStage::Ended => MonitorAction::Finished,
        };
        (action, effects)
    }

    pub fn exchanged(&mut self, result: Result<String, String>) -> (r: Vec<MonitorEffect>)
        requires
            old(self)@.wf(),
        ensures
            final(self)@.wf(),
            (final(self)@, notes(r@)) == monitor_exchanged(
                old(self)@,
                crate::process::text_outcome(result),
            ),
    {
        let mut effects: Vec<MonitorEffect> = Vec::new();
        let ghost want = monitor_exchanged(old(self)@, crate::process::text_outcome(result));
        match (self.stage, result) {
            (MonitorStage::Exchange, Ok(cookie)) => {
                effects.push(MonitorEffect::KeepCookie(cookie.clone()));
                effects.push(
                    log("info", "会话监视：launch token 换取 cookie 成功".to_string()),
                );
                self.cookie = Some(cookie);
                self.stage = MonitorStage::Poll;
            },
            (MonitorStage::Exchange, Err(error)) => {
                self.attempts = self.attempts + 1;
                if self.attempts == 1 || self.attempts % 10 == 0 {
                    effects.push(
                        log(
                            "error",
                            "会话监视：token 换取 cookie 失败（第 ".to_string().concat(
                                number(self.attempts as u64).as_str(),
                            ).concat(" 次）：").concat(error.as_str()),
                        ),
                    );
                }
                if self.attempts >= EXCHANGE_MAX_ATTEMPTS {
                    effects.push(
                        log("error", "会话监视：多次换取 cookie 失败，已停止监视".to_string()),
                    );
                    self.stage = MonitorStage::Ended;
                } else {
                    effects.push(MonitorEffect::Pause);
                }
            },
            (MonitorStage::Renew, Ok(cookie)) => {
                effects.push(MonitorEffect::KeepCookie(cookie.clone()));
                effects.push(MonitorEffect::Pause);
                self.cookie = Some(cookie);
                self.stage = MonitorStage::Poll;
            },
            (MonitorStage::Renew, Err(error)) => {
                effects.push(
                    log("error", "会话监视：重新换取 cookie 失败：".to_string().concat(error.as_str())),
                );
                effects.push(MonitorEffect::Pause);
                self.stage = MonitorStage::Poll;
            },
            _ => {},
        }
        assert(notes(effects@) =~= want.1);
        effects
    }

    pub fn polled(&mut self, result: Result<RunningSnapshot, PollFailure>) -> (r: Vec<
        MonitorEffect,
    >)
        requires
            old(self)@.wf(),
        ensures
            final(self)@.wf(),
            (final(self)@, notes(r@)) == monitor_polled(old(self)@, result),
            old(self).stage == MonitorStage::Poll ==> match result {
                Ok(s) => tells_running(r@, s.main >= 1 || s.subagents >= 1),
                Err(_) => forall|i: int| 0 <= i < r@.len() ==> !(#[trigger] r@[i] is Running),
            },
    {
        let mut effects: Vec<MonitorEffect> = Vec::new();
        let ghost want = monitor_polled(old(self)@, result);
        if self.stage != MonitorStage::Poll {
            assert(notes(effects@) =~= want.1);
            return effects;
        }
        match result {
            Ok(s) => {
                self.failures = 0;
                effects.push(MonitorEffect::Running(s.main > 0 || s.subagents > 0));
                effects.push(MonitorEffect::Pause);
            },
            Err(PollFailure::Unauthorized) => {
                self.failures = 0;
                if self.token.is_some() {
                    effects.push(
                        log(
                            "warning",
                            "会话监视：cookie 已失效，尝试重新用 token 换取".to_string(),
                        ),
                    );
                    self.stage = MonitorStage::Renew;
                } else {
                    effects.push(
                        log(
                            "error",
                            "会话监视：cookie 已失效且无可用 token，已停止监视".to_string(),
                        ),
                    );
                    self.stage = MonitorStage::Ended;
                }
            },
            Err(PollFailure::Transport(error)) => {
                self.failures = self.failures + 1;
                if self.failures >= POLL_MAX_FAILURES {
                    effects.push(
                        log(
                            "info",
                            "会话监视：DSH 无法访问（".to_string().concat(error.as_str()).concat(
                                "），已退出",
                            ),
                        ),
                    );
                    self.stage = MonitorStage::Ended;
                } else {
                    effects.push(MonitorEffect::Pause);
                }
            },
            Err(PollFailure::Server(error)) => {
                self.failures = self.failures + 1;
                effects.push(
                    log("error", "会话监视：会话列表响应异常：".to_string().concat(error.as_str())),
                );
                if self.failures >= POLL_MAX_FAILURES {
                    self.stage = MonitorStage::Ended;
                } else {
                    effects.push(MonitorEffect::Pause);
                }
            },
        }
        assert(notes(effects@) =~= want.1);
        effects
    }
}

/// What a sequence of requests for the sessions leaves of the watch.
pub open spec fn monitor_polled_all(
    m: MonitorView,
    results: Seq<Result<RunningSnapshot, PollFailure>>,
) -> MonitorView
    decreases results.len(),
{
    if results.len() == 0 {
        m
    } else {
        monitor_polled(monitor_polled_all(m, results.drop_last()), results.last()).0
    }
}

pub open spec fn is_unanswered(r: Result<RunningSnapshot, PollFailure>) -> bool {
    r matches Err(f) && !(f is Unauthorized)
}

/// Three requests in a row that fail end the watch, and two do not.
pub proof fn three_failures_end_the_watch(
    m: MonitorView,
    a: Result<RunningSnapshot, PollFailure>,
    b: Result<RunningSnapshot, PollFailure>,
    c: Result<RunningSnapshot, PollFailure>,
)
    requires
        m.wf(),
        m.stage == MonitorStage::Poll,
        m.failures == 0,
        is_unanswered(a),
        is_unanswered(b),
        is_unanswered(c),
    ensures
        monitor_polled_all(m, seq![a, b]).stage == MonitorStage::Poll,
        monitor_polled_all(m, seq![a, b, c]).stage == MonitorStage::Ended,
{
    reveal_with_fuel(monitor_polled_all, 4);
    assert(seq![a, b, c].drop_last() =~= seq![a, b]);
    assert(seq![a, b].drop_last() =~= seq![a]);
    assert(seq![a].drop_last() =~= seq![]);
}

/// An answer makes the watch forget the failures before it.
pub proof fn an_answer_resets_the_failures(m: MonitorView, s: RunningSnapshot)
    requires
        m.stage == MonitorStage::Poll,
    ensures
        monitor_polled(m, Ok(s)).0 == (MonitorView { failures: 0, ..m }),
{
}

/// A watch that has ended asks for nothing and does nothing.
pub proof fn an_ended_watch_stays_ended(
    m: MonitorView,
    cancelled: bool,
    exchange: Result<Seq<char>, Seq<char>>,
    poll: Result<RunningSnapshot, PollFailure>,
)
    requires
        m.stage == MonitorStage::Ended,
    ensures
        monitor_next(m, cancelled) == (m, Seq::<MonitorNote>::empty()),
        monitor_exchanged(m, exchange) == (m, Seq::<MonitorNote>::empty()),
        monitor_polled(m, poll) == (m, Seq::<MonitorNote>::empty()),
{
}

/// Where the watch is after `n` exchanges that failed.
pub open spec fn monitor_refused(m: MonitorView, errors: Seq<Seq<char>>) -> MonitorView
    decreases errors.len(),
{
    if errors.len() == 0 {
        m
    } else {
        monitor_exchanged(
            monitor_refused(m, errors.drop_last()),
            Err::<Seq<char>, Seq<char>>(errors.last()),
        ).0
    }
}

/// A watch tries its first exchange thirty times and then ends.
pub proof fn thirty_refusals_end_the_watch(m: MonitorView, errors: Seq<Seq<char>>)
    requires
        m.stage == MonitorStage::Exchange,
        m.attempts == 0,
    ensures
        errors.len() < 30 ==> monitor_refused(m, errors).stage == MonitorStage::Exchange
            && monitor_refused(m, errors).attempts == errors.len(),
        errors.len() >= 30 ==> monitor_refused(m, errors).stage == MonitorStage::Ended,
    decreases errors.len(),
{
    if errors.len() > 0 {
        thirty_refusals_end_the_watch(m, errors.drop_last());
    }
}

/// An answer is told once: that a session runs exactly if at least one does, on its own or for
/// another session. Nothing else is told of the sessions, and a request that failed tells
/// nothing.
pub proof fn an_answer_tells_whether_any_session_runs(
    m: MonitorView,
    r: Result<RunningSnapshot, PollFailure>,
)
    requires
        m.stage == MonitorStage::Poll,
    ensures
        ({
            let told = monitor_polled(m, r).1;
            match r {
                Ok(s) => {
                    &&& told.contains(MonitorNote::Running(s.main + s.subagents >= 1))
                    &&& !told.contains(MonitorNote::Running(s.main + s.subagents == 0))
                    &&& told.filter(|n: MonitorNote| n is Running).len() == 1
                },
                Err(_) => forall|i: int| 0 <= i < told.len() ==> !(#[trigger] told[i] is Running),
            }
        }),
{
    let told = monitor_polled(m, r).1;
    if let Ok(s) = r {
        let runs = MonitorNote::Running(s.main > 0 || s.subagents > 0);
        assert(told =~= seq![runs].push(MonitorNote::Pause));
        assert(told[0] == runs);
        let keep = |n: MonitorNote| n is Running;
        reveal(Seq::filter);
        assert(told.drop_last() =~= seq![runs]);
        assert(seq![runs].drop_last() =~= Seq::<MonitorNote>::empty());
        assert(Seq::<MonitorNote>::empty().filter(keep) =~= Seq::<MonitorNote>::empty());
        assert(seq![runs].filter(keep) =~= seq![runs]);
        assert(told.filter(keep) =~= seq![runs]);
    }
}

/// A header that sets a cookie, whatever attributes follow, gives its name and value.
pub proof fn a_cookie_is_read_without_its_attributes(
    name: Seq<char>,
    value: Seq<char>,
    attributes: Seq<char>,
)
    requires
        name.len() > 0,
        value.len() > 0,
        !name.contains('=') && !name.contains(';'),
        !value.contains(';'),
        !text::is_space(name[0]) && !text::is_space(name.last()),
        !text::is_space(value[0]) && !text::is_space(value.last()),
    ensures
        cookie_pair(name + seq!['='] + value) == Some(name + "="@ + value),
        cookie_pair(name + seq!['='] + value + seq![';'] + attributes) == Some(
            name + "="@ + value,
        ),
        cookie_pair(name + seq!['=']) is None,
        cookie_pair(seq!['='] + value) is None,
        cookie_pair(name) is None,
{
    reveal_strlit("=");
    let pair = name + seq!['='] + value;
    let whole = pair + seq![';'] + attributes;
    assert(!pair.contains(';'));
    text::lemma_find_is(pair, ';', pair.len() as int);
    text::lemma_find_is(whole, ';', pair.len() as int);
    assert(pair.take(pair.len() as int) =~= pair);
    assert(whole.take(pair.len() as int) =~= pair);
    assert(pair[0] == name[0] && pair.last() == value.last());
    text::lemma_trimmed(pair);
    text::lemma_find_is(pair, '=', name.len() as int);
    assert(pair.take(name.len() as int) =~= name);
    assert(pair.skip(name.len() as int + 1) =~= value);
    text::lemma_trimmed(name);
    text::lemma_trimmed(value);
    let bare = name + seq!['='];
    text::lemma_find_is(bare, ';', bare.len() as int);
    assert(bare.take(bare.len() as int) =~= bare);
    assert(bare[0] == name[0] && bare.last() == '=');
    text::lemma_trimmed(bare);
    text::lemma_find_is(bare, '=', name.len() as int);
    assert(bare.skip(name.len() as int + 1) =~= Seq::<char>::empty());
    let nameless = seq!['='] + value;
    text::lemma_find_is(nameless, ';', nameless.len() as int);
    assert(nameless.take(nameless.len() as int) =~= nameless);
    assert(nameless[0] == '=' && nameless.last() == value.last());
    text::lemma_trimmed(nameless);
    text::lemma_find_is(nameless, '=', 0);
    assert(nameless.take(0) =~= Seq::<char>::empty());
    text::lemma_find_is(name, ';', name.len() as int);
    assert(name.take(name.len() as int) =~= name);
    text::lemma_find_is(name, '=', name.len() as int);
}

/// A cookie comes back exactly where the service redirects and sets one.
pub proof fn a_redirection_brings_the_cookie(o: ExchangeOutcome)
    ensures
        match exchanged(o) {
            Ok(cookie) => o matches ExchangeOutcome::Response { status, set_cookie } && 300 <= status
                <= 399 && (set_cookie matches Some(header) && cookie_pair(header@) == Some(cookie)),
            Err(_) => !(o matches ExchangeOutcome::Response { status, set_cookie } && 300 <= status
                <= 399 && (set_cookie matches Some(header) && cookie_pair(header@) is Some)),
        },
{
}

/// The sessions that count are those that say that they run; they count as those of another
/// session or as such on their own.
pub proof fn running_sessions_are_counted(items: Seq<Json>)
    ensures
        count_running(items, false) == items.filter(
            |i: Json|
                adapters::json_member(i, "running"@) == Some(Json::Bool(true))
                    && adapters::json_member(i, "origin"@) != Some(Json::Text("subagent"@)),
        ).len(),
        count_running(items, true) == items.filter(
            |i: Json|
                adapters::json_member(i, "running"@) == Some(Json::Bool(true))
                    && adapters::json_member(i, "origin"@) == Some(Json::Text("subagent"@)),
        ).len(),
    decreases items.len(),
{
    reveal(Seq::filter);
    if items.len() > 0 {
        running_sessions_are_counted(items.drop_last());
    }
}

/// The sessions are listed under `result.value.items` of an answer whose `result.ok` is true,
/// and nowhere else.
pub proof fn sessions_are_listed_by_a_good_answer(answer: Json)
    ensures
        ({
            let result = adapters::json_member(answer, "result"@);
            let value = adapters::json_member(result->0, "value"@);
            let items = adapters::json_member(value->0, "items"@);
            let good = result is Some && adapters::json_member(result->0, "ok"@) == Some(
                Json::Bool(true),
            ) && value is Some && items is Some && items->0 is List;
            &&& listed_items(answer) is Some <==> good
            &&& good ==> Json::List(listed_items(answer)->0) == items->0
        }),
{
}

/// A watch begins with the sessions where a cookie is known, else with the exchange of the
/// token; without either there is none.
pub proof fn a_watch_begins_with_what_is_known(c: Option<CredentialsView>)
    ensures
        ({
            let (m, _) = monitor_started(c);
            &&& m is Some <==> c is Some && (c->0.cookie is Some || c->0.token is Some)
            &&& m matches Some(m) ==> {
                &&& m.stage == if c->0.cookie is Some {
                    MonitorStage::Poll
                } else {
                    MonitorStage::Exchange
                }
                &&& m.origin == c->0.origin && m.token == c->0.token && m.cookie == c->0.cookie
                &&& m.attempts == 0 && m.failures == 0
                &&& m.wf()
            }
        }),
{
}

/// A watch that is no longer wanted ends before its next request, but for the renewal of a
/// cookie; one that is wanted goes on.
pub proof fn a_watch_ends_when_it_is_not_wanted(m: MonitorView, cancelled: bool)
    ensures
        ({
            let (m2, told) = monitor_next(m, cancelled);
            &&& !cancelled ==> m2 == m && told.len() == 0
            &&& cancelled && (m.stage == MonitorStage::Exchange || m.stage == MonitorStage::Poll)
                ==> m2.stage == MonitorStage::Ended
            &&& m.stage == MonitorStage::Renew ==> m2 == m
        }),
{
}

/// A cookie that comes back is kept for a watch that follows and used for the requests from
/// then on. A first exchange that fails is tried again, and a renewal that fails leaves the
/// cookie as it was.
pub proof fn a_cookie_is_used_and_kept(m: MonitorView, r: Result<Seq<char>, Seq<char>>)
    requires
        m.stage == MonitorStage::Exchange || m.stage == MonitorStage::Renew,
        m.attempts < 30,
    ensures
        ({
            let (m2, told) = monitor_exchanged(m, r);
            &&& m2.origin == m.origin && m2.token == m.token && m2.sequence == m.sequence
            &&& match r {
                Ok(cookie) => m2.stage == MonitorStage::Poll && m2.cookie == Some(cookie)
                    && told.contains(MonitorNote::KeepCookie(cookie)),
                Err(_) => {
                    &&& m2.cookie == m.cookie
                    &&& forall|i: int|
                        0 <= i < told.len() ==> !(#[trigger] told[i] is KeepCookie)
                    &&& m.stage == MonitorStage::Renew ==> m2.stage == MonitorStage::Poll
                    &&& m.stage == MonitorStage::Exchange && m.attempts < 29 ==> m2.stage
                        == MonitorStage::Exchange && told.contains(MonitorNote::Pause)
                    &&& m.stage == MonitorStage::Exchange && m.attempts == 29 ==> m2.stage
                        == MonitorStage::Ended
                },
            }
            &&& forall|i: int| 0 <= i < told.len() ==> !(#[trigger] told[i] is Running)
        }),
{
    let (m2, told) = monitor_exchanged(m, r);
    if let Ok(cookie) = r {
        assert(told[0] == MonitorNote::KeepCookie(cookie));
    } else if m.stage == MonitorStage::Exchange && m.attempts < 29 {
        assert(told.last() == MonitorNote::Pause);
    }
}

/// A cookie that is refused is renewed where a token is known, and ends the watch where none
/// is; any other failure counts, and the third in a row ends it.
pub proof fn a_refused_cookie_is_renewed(m: MonitorView, r: Result<RunningSnapshot, PollFailure>)
    requires
        m.stage == MonitorStage::Poll,
        m.failures < 3,
    ensures
        ({
            let (m2, told) = monitor_polled(m, r);
            &&& m2.origin == m.origin && m2.token == m.token && m2.cookie == m.cookie
            &&& match r {
                Ok(_) => m2.stage == MonitorStage::Poll && m2.failures == 0 && told.contains(
                    MonitorNote::Pause,
                ),
                Err(PollFailure::Unauthorized) => m2.stage == if m.token is Some {
                    MonitorStage::Renew
                } else {
                    MonitorStage::Ended
                },
                Err(_) => m2.failures == m.failures + 1 && m2.stage == if m.failures == 2 {
                    MonitorStage::Ended
                } else {
                    MonitorStage::Poll
                } && (m.failures < 2 ==> told.contains(MonitorNote::Pause)),
            }
        }),
{
    let (m2, told) = monitor_polled(m, r);
    match r {
        Ok(_) => {
            assert(told[1] == MonitorNote::Pause);
        },
        Err(PollFailure::Unauthorized) => {},
        Err(_) => {
            if m.failures < 2 {
                assert(told.last() == MonitorNote::Pause);
            }
        },
    }
}

// ---------------------------------------------------------------------------
// What is asked and answered
// ---------------------------------------------------------------------------

/// The sessions are asked for by one request, under the number that it was given.
pub proof fn a_request_bears_its_number(rpc_id: u64)
    ensures
        text::starts_with(
            list_request(rpc_id),
            "{\"method\":\"session/list\",\"payload\":{\"args\":{\"_request\":{}}},\"rpcId\":\"monitor-"@
                + text::decimal(rpc_id as nat),
        ),
        text::ends_with(list_request(rpc_id), "\",\"type\":\"client-request\"}"@),
{
    let front =
        "{\"method\":\"session/list\",\"payload\":{\"args\":{\"_request\":{}}},\"rpcId\":\"monitor-"@
        + text::decimal(rpc_id as nat);
    let back = "\",\"type\":\"client-request\"}"@;
    let r = list_request(rpc_id);
    assert(r.take(front.len() as int) =~= front);
    assert(r.skip(r.len() - back.len()) =~= back);
}

/// Only the status 401 means that the cookie is refused; any other status, a body that cannot
/// be read and an answer without sessions are failures of the service, and no answer at all is
/// one of the way to it.
pub proof fn a_failure_is_told_by_its_kind(
    status: u16,
    why: String,
    r: Result<RunningSnapshot, PollFailure>,
)
    ensures
        poll_result_is(PollOutcome::Status(401), r) ==> r is Err && r->Err_0 is Unauthorized,
        status != 401 && poll_result_is(PollOutcome::Status(status), r) ==> r is Err && r->Err_0
            is Server,
        poll_result_is(PollOutcome::Transport(why), r) ==> r is Err && r->Err_0 is Transport,
        poll_result_is(PollOutcome::Body(Err(why)), r) ==> r is Err && r->Err_0 is Server,
{
}

/// A body with a good list of sessions gives the numbers of the main sessions and of the
/// subagents that run; any other body is a failure of the service.
pub proof fn a_body_gives_the_numbers(body: String, r: Result<RunningSnapshot, PollFailure>)
    requires
        poll_result_is(PollOutcome::Body(Ok(body)), r),
    ensures
        match adapters::json_text(body@) {
            Ok(answer) => match listed_items(answer) {
                Some(items) => {
                    &&& r is Ok
                    &&& r->Ok_0.main == count_running(items, false)
                    &&& r->Ok_0.subagents == count_running(items, true)
                },
                None => r is Err && r->Err_0 is Server,
            },
            Err(_) => r is Err && r->Err_0 is Server,
        },
{
}

/// The credentials are the origin of a web address and the first token of its query, without a
/// cookie; an address without a token, or that is not of the web, has none.
pub proof fn credentials_are_origin_and_token(url: Seq<char>)
    ensures
        ({
            let parts = adapters::url_of(text::trim(url));
            let token = crate::config::looked_up(parts->Ok_0.query, "token"@);
            let web = parts->Ok_0.scheme == "http"@ || parts->Ok_0.scheme == "https"@;
            let good = parts is Ok && web && token is Some && token->0.len() > 0;
            &&& credentials_of(url) is Some <==> good
            &&& good ==> credentials_of(url)->0.token == token && credentials_of(url)->0.cookie
                is None && credentials_of(url)->0.origin == adapters::web_origin(parts->Ok_0)
        }),
{
}

/// What the watch tells is seen as what it is.
pub proof fn a_note_is_seen_as_it_is(level: &'static str, message: String, running: bool)
    ensures
        note_of(MonitorEffect::Log { level, message }) == (MonitorNote::Log {
            level: level@,
            message: message@,
        }),
        note_of(MonitorEffect::KeepCookie(message)) == MonitorNote::KeepCookie(message@),
        note_of(MonitorEffect::Running(running)) == MonitorNote::Running(running),
        note_of(MonitorEffect::Pause) == MonitorNote::Pause,
{
}

/// A poll that fails is followed by a pause and another one, until the third failure in a row;
/// the log quotes what was wrong with an answer, and at the end why there was none.
pub proof fn a_failed_poll_is_followed_by_another(m: MonitorView, why: String)
    requires
        m.stage == MonitorStage::Poll,
        m.failures < 2,
    ensures
        ({
            let (lost, lost_notes) = monitor_polled(m, Err(PollFailure::Transport(why)));
            let (odd, odd_notes) = monitor_polled(m, Err(PollFailure::Server(why)));
            &&& lost == MonitorView { failures: (m.failures + 1) as u32, ..m }
            &&& lost_notes == seq![MonitorNote::Pause]
            &&& odd == MonitorView { failures: (m.failures + 1) as u32, ..m }
            &&& odd_notes.len() == 2
            &&& odd_notes[0] is Log && odd_notes[0]->level == "error"@ && text::ends_with(
                odd_notes[0]->message,
                why@,
            )
            &&& odd_notes[1] == MonitorNote::Pause
        }),
{
    let (_, notes) = monitor_polled(m, Err(PollFailure::Server(why)));
    let message = "会话监视：会话列表响应异常："@ + why@;
    assert(notes[0]->message == message);
    assert(message.skip(message.len() - why@.len()) =~= why@);
}

} // verus!
