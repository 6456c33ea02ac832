//! The HTTP transport: reading a request head within its limits, admitting
//! the request, and routing it.
use crate::profile::ToolProfile;
use crate::text::{
    after,
    ascii_lowered,
    cat2,
    cat4,
    cat5,
    chars_of,
    decimal,
    decimal_text,
    has_white_space,
    is_blank,
    optional_text,
    parse_unsigned,
    parsed_unsigned,
    same_text,
    split_words,
    starts_with,
    strip_prefix,
    text_between,
    texts,
    to_ascii_lowercase,
    trim,
    trimmed,
    white_space,
    words,
};
use vstd::prelude::*;
use vstd::utf8::encode_utf8;

verus! {

/// The longest request line, in bytes.
pub const MAX_REQUEST_LINE_BYTES: usize = 4096;

/// The largest request head, in bytes.
pub const MAX_HEADER_BYTES: usize = 16_384;

/// The largest number of header lines.
pub const MAX_HEADER_COUNT: usize = 64;

/// The largest request body, in bytes.
pub const MAX_BODY_SIZE: usize = 10_485_760;

/// The largest number of connections served at once.
pub const MAX_CONNECTIONS: usize = 32;

/// The length of a text in UTF-8.
pub open spec fn byte_length(s: Seq<char>) -> nat {
    encode_utf8(s).len()
}

/// A line read with a budget of `max` bytes is accepted: it is there, within
/// the budget, and complete.
pub open spec fn line_fits(read: int, max: int, line: Seq<char>) -> bool {
    max > 0 && 0 < read <= max && line.len() > 0 && line.last() == '\n'
}

/// Whether a line of `read` bytes, read with a budget of `max` bytes, is
/// accepted.
pub fn accept_line(read: usize, max: usize, line: &str) -> (r: bool)
    ensures
        r == line_fits(read as int, max as int, line@),
{
    let chars = chars_of(line);
    max > 0 && read > 0 && read <= max && chars.len() > 0 && chars[chars.len() - 1] == '\n'
}

/// Whether one more connection may be served beside `active` others.
pub fn admit_connection(active: usize) -> (r: bool)
    ensures
        r == (active < MAX_CONNECTIONS),
{
    active < MAX_CONNECTIONS
}

/// The method and the path of a request line; `None` if it has fewer than two
/// words.
pub fn parse_request_line(line: &str) -> (r: Option<(String, String)>)
    ensures
        (match r {
            Some((method, path)) => words(line@).len() >= 2 && method@ == words(line@)[0] && path@
                == words(line@)[1],
            None => words(line@).len() < 2,
        }),
{
    let parts = split_words(line);
    if parts.len() < 2 {
        assert(texts(parts@).len() < 2);
        return None;
    }
    assert(texts(parts@)[0] == parts@[0]@);
    assert(texts(parts@)[1] == parts@[1]@);
    Some((parts[0].clone(), parts[1].clone()))
}

/// What has been read of a request head.
pub struct RequestHead {
    pub bytes: usize,
    pub count: usize,
    pub content_length: usize,
    pub authorization: Option<String>,
    pub host: Option<String>,
    pub origin: Option<String>,
}

/// What a request head says.
pub struct HeadView {
    pub bytes: int,
    pub count: int,
    pub content_length: int,
    pub authorization: Option<Seq<char>>,
    pub host: Option<Seq<char>>,
    pub origin: Option<Seq<char>>,
}

impl View for RequestHead {
    type V = HeadView;

    open spec fn view(&self) -> HeadView {
        HeadView {
            bytes: self.bytes as int,
            count: self.count as int,
            content_length: self.content_length as int,
            authorization: optional_text(self.authorization),
            host: optional_text(self.host),
            origin: optional_text(self.origin),
        }
    }
}

/// What a header line does to the head read so far.
pub enum HeadStep {
    /// The line ends the head.
    End(RequestHead),
    /// The line was taken up.
    Next(RequestHead),
    /// The head is over its limits.
    TooLarge,
    /// The line is malformed: the connection is dropped without a reply.
    Abort,
}

/// What a header line does to the head read so far.
pub enum HeadStepView {
    End(HeadView),
    Next(HeadView),
    TooLarge,
    Abort,
}

impl View for HeadStep {
    type V = HeadStepView;

    open spec fn view(&self) -> HeadStepView {
        match *self {
            HeadStep::End(head) => HeadStepView::End(head@),
            HeadStep::Next(head) => HeadStepView::Next(head@),
            HeadStep::TooLarge => HeadStepView::TooLarge,
            HeadStep::Abort => HeadStepView::Abort,
        }
    }
}

/// The offset of the first colon of `s`, or its length.
pub open spec fn colon_index(s: Seq<char>) -> int
    decreases s.len(),
{
    if s.len() == 0 || s[0] == ':' {
        0
    } else {
        1 + colon_index(s.subrange(1, s.len() as int))
    }
}

proof fn lemma_colon_index(s: Seq<char>, k: int)
    requires
        0 <= k <= s.len(),
        forall|i: int| 0 <= i < k ==> (#[trigger] s[i]) != ':',
        k == s.len() || s[k] == ':',
    ensures
        colon_index(s) == k,
    decreases s.len(),
{
    if k > 0 {
        let rest = s.subrange(1, s.len() as int);
        assert forall|i: int| 0 <= i < k - 1 implies (#[trigger] rest[i]) != ':' by {
            assert(s[i + 1] != ':');
        }
        lemma_colon_index(rest, k - 1);
    }
}

/// What the header called `name` with the given value does to a head.
pub open spec fn header_applied(head: HeadView, name: Seq<char>, value: Seq<char>) -> HeadStepView {
    if name == "content-length"@ {
        match parsed_unsigned(trimmed(value), usize::MAX as int) {
            Some(n) => HeadStepView::Next(HeadView { content_length: n, ..head }),
            None => HeadStepView::Abort,
        }
    } else if name == "authorization"@ {
        HeadStepView::Next(HeadView { authorization: Some(trimmed(value)), ..head })
    } else if name == "host"@ {
        HeadStepView::Next(HeadView { host: Some(trimmed(value)), ..head })
    } else if name == "origin"@ {
        HeadStepView::Next(HeadView { origin: Some(trimmed(value)), ..head })
    } else {
        HeadStepView::Next(head)
    }
}

/// What a header line does to a head: a blank line ends it; any other is
/// counted against the limits, split at its first colon, and applied.
pub open spec fn head_step(head: HeadView, line: Seq<char>) -> HeadStepView {
    let counted = HeadView { bytes: head.bytes + byte_length(line), count: head.count + 1, ..head };
    if trimmed(line).len() == 0 {
        HeadStepView::End(head)
    } else if counted.count > MAX_HEADER_COUNT || counted.bytes > MAX_HEADER_BYTES {
        HeadStepView::TooLarge
    } else if colon_index(line) == line.len() {
        HeadStepView::Abort
    } else {
        header_applied(
            counted,
            ascii_lowered(line.subrange(0, colon_index(line))),
            after(line, colon_index(line) + 1),
        )
    }
}

/// What becomes of a head that reads the given lines one after the other: the
/// outcome of the first line that does not leave it open, or the head after
/// the last.
pub open spec fn read_lines(head: HeadView, lines: Seq<Seq<char>>) -> HeadStepView
    decreases lines.len(),
{
    if lines.len() == 0 {
        HeadStepView::Next(head)
    } else {
        match head_step(head, lines[0]) {
            HeadStepView::Next(next) => read_lines(next, lines.subrange(1, lines.len() as int)),
            other => other,
        }
    }
}

/// The head is within its limits.
pub open spec fn within_limits(head: HeadView) -> bool {
    head.bytes <= MAX_HEADER_BYTES && head.count <= MAX_HEADER_COUNT
}

/// The number of bytes of a text in UTF-8.
pub fn utf8_length(s: &str) -> (n: usize)
    ensures
        n == byte_length(s@),
{
    s.as_bytes().len()
}

impl RequestHead {
    /// The head after the request line alone.
    pub fn new(request_line: &str) -> (head: RequestHead)
        ensures
            head@ == (HeadView {
                bytes: byte_length(request_line@) as int,
                count: 0,
                content_length: 0,
                authorization: None,
                host: None,
                origin: None,
            }),
    {
        RequestHead {
            bytes: utf8_length(request_line),
            count: 0,
            content_length: 0,
            authorization: None,
            host: None,
            origin: None,
        }
    }

    /// The bytes that the next header line may take.
    pub fn remaining(&self) -> (n: usize)
        ensures
            n == (if self@.bytes <= MAX_HEADER_BYTES {
                MAX_HEADER_BYTES - self@.bytes
            } else {
                0
            }),
    {
        if self.bytes <= MAX_HEADER_BYTES {
            MAX_HEADER_BYTES - self.bytes
        } else {
            0
        }
    }

    /// Takes up one header line.
    pub fn step(self, line: &str) -> (r: HeadStep)
        ensures
            r@ == head_step(self@, line@),
    {
        proof {
            crate::text::lemma_blank_is_trimmed_away(line@);
        }
        if is_blank(line) {
            return HeadStep::End(self);
        }
        let length = utf8_length(line);
        if self.count >= MAX_HEADER_COUNT || self.bytes > MAX_HEADER_BYTES || length
            > MAX_HEADER_BYTES - self.bytes {
            return HeadStep::TooLarge;
        }
        let counted = RequestHead {
            bytes: self.bytes + length,
            count: self.count + 1,
            content_length: self.content_length,
            authorization: self.authorization,
            host: self.host,
            origin: self.origin,
        };
        let chars = chars_of(line);
        let mut colon: usize = 0;
        while colon < chars.len() && chars[colon] != ':'
            invariant
                colon <= chars.len(),
                forall|i: int| 0 <= i < colon ==> (#[trigger] chars@[i]) != ':',
            decreases chars.len() - colon,
        {
            colon = colon + 1;
        }
        proof {
            lemma_colon_index(line@, colon as int);
        }
        if colon == chars.len() {
            return HeadStep::Abort;
        }
        let name = to_ascii_lowercase(&text_between(&chars, 0, colon));
        let value = trim(&text_between(&chars, colon + 1, chars.len()));
        counted.apply(&name, value)
    }

    /// Applies one header whose value is already trimmed.
    fn apply(self, name: &str, value: String) -> (r: HeadStep)
        ensures
            forall|raw: Seq<char>|
                trimmed(raw) == value@ ==> r@ == #[trigger] header_applied(self@, name@, raw),
    {
        if same_text(name, "content-length") {
            match parse_unsigned(&value, usize::MAX as u64) {
                Some(n) => HeadStep::Next(
                    RequestHead {
                        bytes: self.bytes,
                        count: self.count,
                        content_length: n as usize,
                        authorization: self.authorization,
                        host: self.host,
                        origin: self.origin,
                    },
                ),
                None => HeadStep::Abort,
            }
        } else if same_text(name, "authorization") {
            HeadStep::Next(
                RequestHead {
                    bytes: self.bytes,
                    count: self.count,
                    content_length: self.content_length,
                    authorization: Some(value),
                    host: self.host,
                    origin: self.origin,
                },
            )
        } else if same_text(name, "host") {
            HeadStep::Next(
                RequestHead {
                    bytes: self.bytes,
                    count: self.count,
                    content_length: self.content_length,
                    authorization: self.authorization,
                    host: Some(value),
                    origin: self.origin,
                },
            )
        } else if same_text(name, "origin") {
            HeadStep::Next(
                RequestHead {
                    bytes: self.bytes,
                    count: self.count,
                    content_length: self.content_length,
                    authorization: self.authorization,
                    host: self.host,
                    origin: Some(value),
                },
            )
        } else {
            HeadStep::Next(self)
        }
    }
}

/// `value` is the decimal number of a port.
pub open spec fn port_text(value: Seq<char>) -> bool {
    parsed_unsigned(value, u16::MAX as int) is Some
}

/// `value` is `name`, a colon, and a port.
pub open spec fn name_and_port(value: Seq<char>, name: Seq<char>) -> bool {
    starts_with(value, name) && port_text(after(value, name.len() as int))
}

/// `value` names this machine by a loopback name, with or without a port.
pub open spec fn loopback_authority(value: Seq<char>) -> bool {
    ||| value == "localhost"@
    ||| value == "127.0.0.1"@
    ||| value == "[::1]"@
    ||| name_and_port(value, "localhost:"@)
    ||| name_and_port(value, "127.0.0.1:"@)
    ||| name_and_port(value, "[::1]:"@)
}

/// `value` is the HTTP or HTTPS origin of a loopback name.
pub open spec fn loopback_origin(value: Seq<char>) -> bool {
    ||| starts_with(value, "http://"@) && loopback_authority(after(value, "http://"@.len() as int))
    ||| starts_with(value, "https://"@) && loopback_authority(
        after(value, "https://"@.len() as int),
    )
}

/// Whether `value` is the decimal number of a port.
pub fn valid_port(value: &str) -> (r: bool)
    ensures
        r == port_text(value@),
{
    parse_unsigned(value, 65_535).is_some()
}

/// Whether `value` is `name` followed by a port.
fn has_name_and_port(value: &str, name: &str) -> (r: bool)
    ensures
        r == name_and_port(value@, name@),
{
    match strip_prefix(value, name) {
        Some(port) => valid_port(&port),
        None => false,
    }
}

/// Whether `value` names this machine by a loopback name, with or without a
/// port.
pub fn is_loopback_authority(value: &str) -> (r: bool)
    ensures
        r == loopback_authority(value@),
{
    same_text(value, "localhost") || same_text(value, "127.0.0.1") || same_text(value, "[::1]")
        || has_name_and_port(value, "localhost:") || has_name_and_port(value, "127.0.0.1:")
        || has_name_and_port(value, "[::1]:")
}

/// Whether `value` is the HTTP or HTTPS origin of a loopback name.
pub fn is_loopback_origin(value: &str) -> (r: bool)
    ensures
        r == loopback_origin(value@),
{
    if let Some(authority) = strip_prefix(value, "http://") {
        if is_loopback_authority(&authority) {
            return true;
        }
    }
    match strip_prefix(value, "https://") {
        Some(authority) => is_loopback_authority(&authority),
        None => false,
    }
}

/// Whether a request is served, and how it is refused if not.
#[derive(Clone, Copy, Debug, PartialEq, Eq, Structural)]
pub enum Admission {
    Admitted,
    Unauthorized,
    Forbidden,
    PayloadTooLarge,
    HeaderFieldsTooLarge,
}

/// The request carries the bearer token.
pub open spec fn authorized(head: HeadView, token: Seq<char>) -> bool {
    head.authorization == Some("Bearer "@ + token)
}

/// The request is addressed to this machine and, if it names an origin, comes
/// from it.
pub open spec fn local_request(head: HeadView) -> bool {
    &&& head.host is Some && loopback_authority(head.host->0)
    &&& head.origin is Some ==> loopback_origin(head.origin->0)
}

/// Whether a complete head is admitted: the token is looked at first, then
/// host and origin, then the size of the body.
pub open spec fn admission(head: HeadView, token: Seq<char>) -> Admission {
    if !authorized(head, token) {
        Admission::Unauthorized
    } else if !local_request(head) {
        Admission::Forbidden
    } else if head.content_length > MAX_BODY_SIZE {
        Admission::PayloadTooLarge
    } else {
        Admission::Admitted
    }
}

/// Whether what a request supplies as authorization is the bearer token.
pub fn carries_token(supplied: &Option<String>, token: &str) -> (r: bool)
    ensures
        r == (optional_text(*supplied) == Some("Bearer "@ + token@)),
{
    match supplied {
        Some(value) => same_text(value, &cat2("Bearer ", token)),
        None => false,
    }
}

impl RequestHead {
    /// Whether the complete head is admitted.
    pub fn admission(&self, token: &str) -> (r: Admission)
        ensures
            r == self::admission(self@, token@),
    {
        if !carries_token(&self.authorization, token) {
            return Admission::Unauthorized;
        }
        let host_ok = match &self.host {
            Some(value) => is_loopback_authority(value),
            None => false,
        };
        let origin_ok = match &self.origin {
            Some(value) => is_loopback_origin(value),
            None => true,
        };
        if !host_ok || !origin_ok {
            return Admission::Forbidden;
        }
        if self.content_length > MAX_BODY_SIZE {
            return Admission::PayloadTooLarge;
        }
        Admission::Admitted
    }
}

impl Admission {
    /// The status line text of the refusal.
    pub open spec fn refusal_status(self) -> Option<Seq<char>> {
        match self {
            Admission::Admitted => None,
            Admission::Unauthorized => Some("401 Unauthorized"@),
            Admission::Forbidden => Some("403 Forbidden"@),
            Admission::PayloadTooLarge => Some("413 Payload Too Large"@),
            Admission::HeaderFieldsTooLarge => Some("431 Request Header Fields Too Large"@),
        }
    }

    /// The whole reply to a refused request, which has no body; `None` if the
    /// request is admitted.
    pub fn refusal(self) -> (r: Option<String>)
        ensures
            (match r {
                Some(reply) => self.refusal_status() is Some && reply@ == "HTTP/1.1 "@
                    + self.refusal_status()->0
                    + "\r\nContent-Length: 0\r\nConnection: close\r\n\r\n"@,
                None => self == Admission::Admitted,
            }),
    {
        let status = match self {
            Admission::Admitted => {
                return None;
            },
            Admission::Unauthorized => "401 Unauthorized",
            Admission::Forbidden => "403 Forbidden",
            Admission::PayloadTooLarge => "413 Payload Too Large",
            Admission::HeaderFieldsTooLarge => "431 Request Header Fields Too Large",
        };
        Some(
            crate::text::cat3(
                "HTTP/1.1 ",
                status,
                "\r\nContent-Length: 0\r\nConnection: close\r\n\r\n",
            ),
        )
    }
}

/// Where an admitted request goes.
#[derive(Clone, Copy, Debug, PartialEq, Eq, Structural)]
pub enum Route {
    Health,
    Search,
    SearchRouted,
    Rerank,
    Stats,
    Add,
    AddEdge,
    DeleteFact,
    RecordOutcome,
    VerifyIntegrity,
    Discord,
    MaintenanceCheck,
    MaintenanceVacuum,
    MaintenanceReembed,
    MaintenanceReconcile,
    MaintenanceRebuildHnsw,
    MaintenanceCompactHnsw,
    MaintenanceAutoEdge,
    NotFound,
}

impl Route {
    /// Method and path of the route.
    pub open spec fn address(self) -> Option<(Seq<char>, Seq<char>)> {
        match self {
            Route::Health => Some(("GET"@, "/health"@)),
            Route::Search => Some(("POST"@, "/search"@)),
            Route::SearchRouted => Some(("POST"@, "/search-routed"@)),
            Route::Rerank => Some(("POST"@, "/rerank"@)),
            Route::Stats => Some(("POST"@, "/stats"@)),
            Route::Add => Some(("POST"@, "/add"@)),
            Route::AddEdge => Some(("POST"@, "/add-edge"@)),
            Route::DeleteFact => Some(("POST"@, "/delete-fact"@)),
            Route::RecordOutcome => Some(("POST"@, "/record-outcome"@)),
            Route::VerifyIntegrity => Some(("GET"@, "/verify-integrity"@)),
            Route::Discord => Some(("POST"@, "/discord"@)),
            Route::MaintenanceCheck => Some(("POST"@, "/maintenance/check"@)),
            Route::MaintenanceVacuum => Some(("POST"@, "/maintenance/vacuum"@)),
            Route::MaintenanceReembed => Some(("POST"@, "/maintenance/reembed"@)),
            Route::MaintenanceReconcile => Some(("POST"@, "/maintenance/reconcile"@)),
            Route::MaintenanceRebuildHnsw => Some(("POST"@, "/maintenance/rebuild-hnsw"@)),
            Route::MaintenanceCompactHnsw => Some(("POST"@, "/maintenance/compact-hnsw"@)),
            Route::MaintenanceAutoEdge => Some(("POST"@, "/maintenance/auto-edge"@)),
            Route::NotFound => None,
        }
    }

    /// The route writes to the store.
    pub open spec fn is_write(self) -> bool {
        ||| self == Route::Add
        ||| self == Route::AddEdge
        ||| self == Route::DeleteFact
        ||| self == Route::RecordOutcome
    }

    /// The route maintains the store.
    pub open spec fn is_maintenance(self) -> bool {
        ||| self == Route::MaintenanceCheck
        ||| self == Route::MaintenanceVacuum
        ||| self == Route::MaintenanceReembed
        ||| self == Route::MaintenanceReconcile
        ||| self == Route::MaintenanceRebuildHnsw
        ||| self == Route::MaintenanceCompactHnsw
        ||| self == Route::MaintenanceAutoEdge
    }

    /// A server with the given profile serves the route.
    pub open spec fn served(self, profile: ToolProfile) -> bool {
        ||| self == Route::Health
        ||| {
            &&& profile != ToolProfile::Lean
            &&& profile != ToolProfile::Standard
            &&& self.is_write() ==> profile == ToolProfile::Agent || profile == ToolProfile::Full
            &&& self.is_maintenance() ==> profile == ToolProfile::Full
        }
    }
}

/// `route` is where a request goes: the served route of its address, or nowhere
/// if there is none.
pub open spec fn routed(
    route: Route,
    method: Seq<char>,
    path: Seq<char>,
    profile: ToolProfile,
) -> bool {
    if route == Route::NotFound {
        forall|r: Route| (#[trigger] r.address()) == Some((method, path)) ==> !r.served(profile)
    } else {
        route.address() == Some((method, path)) && route.served(profile)
    }
}

/// The route of a path under `POST`.
fn post_route(path: &str) -> (route: Route)
    ensures
        route != Route::NotFound ==> route.address() == Some(("POST"@, path@)),
        route == Route::NotFound ==> forall|r: Route|
            (#[trigger] r.address()) != Some(("POST"@, path@)),
{
    proof {
        reveal_strlit("GET");
        reveal_strlit("POST");
        assert("GET"@.len() != "POST"@.len());
    }
    if same_text(path, "/search") {
        Route::Search
    } else if same_text(path, "/search-routed") {
        Route::SearchRouted
    } else if same_text(path, "/rerank") {
        Route::Rerank
    } else if same_text(path, "/stats") {
        Route::Stats
    } else if same_text(path, "/add") {
        Route::Add
    } else if same_text(path, "/add-edge") {
        Route::AddEdge
    } else if same_text(path, "/delete-fact") {
        Route::DeleteFact
    } else if same_text(path, "/record-outcome") {
        Route::RecordOutcome
    } else if same_text(path, "/discord") {
        Route::Discord
    } else if same_text(path, "/maintenance/check") {
        Route::MaintenanceCheck
    } else if same_text(path, "/maintenance/vacuum") {
        Route::MaintenanceVacuum
    } else if same_text(path, "/maintenance/reembed") {
        Route::MaintenanceReembed
    } else if same_text(path, "/maintenance/reconcile") {
        Route::MaintenanceReconcile
    } else if same_text(path, "/maintenance/rebuild-hnsw") {
        Route::MaintenanceRebuildHnsw
    } else if same_text(path, "/maintenance/compact-hnsw") {
        Route::MaintenanceCompactHnsw
    } else if same_text(path, "/maintenance/auto-edge") {
        Route::MaintenanceAutoEdge
    } else {
        Route::NotFound
    }
}

/// The addresses of two different routes differ.
pub proof fn lemma_addresses_differ(a: Route, b: Route)
    requires
        a.address() is Some,
        a.address() == b.address(),
    ensures
        a == b,
{
    reveal_strlit("GET");
    reveal_strlit("POST");
    reveal_strlit("/health");
    reveal_strlit("/search");
    reveal_strlit("/search-routed");
    reveal_strlit("/rerank");
    reveal_strlit("/stats");
    reveal_strlit("/add");
    reveal_strlit("/add-edge");
    reveal_strlit("/delete-fact");
    reveal_strlit("/record-outcome");
    reveal_strlit("/verify-integrity");
    reveal_strlit("/discord");
    reveal_strlit("/maintenance/check");
    reveal_strlit("/maintenance/vacuum");
    reveal_strlit("/maintenance/reembed");
    reveal_strlit("/maintenance/reconcile");
    reveal_strlit("/maintenance/rebuild-hnsw");
    reveal_strlit("/maintenance/compact-hnsw");
    reveal_strlit("/maintenance/auto-edge");
    assert("GET"@.len() == 3 && "POST"@.len() == 4);
    assert("/health"@.len() == 7);
    assert("/search"@.len() == 7);
    assert("/search-routed"@.len() == 14);
    assert("/rerank"@.len() == 7);
    assert("/stats"@.len() == 6);
    assert("/add"@.len() == 4);
    assert("/add-edge"@.len() == 9);
    assert("/delete-fact"@.len() == 12);
    assert("/record-outcome"@.len() == 15);
    assert("/verify-integrity"@.len() == 17);
    assert("/discord"@.len() == 8);
    assert("/maintenance/check"@.len() == 18);
    assert("/maintenance/vacuum"@.len() == 19);
    assert("/maintenance/reembed"@.len() == 20);
    assert("/maintenance/reconcile"@.len() == 22);
    assert("/maintenance/rebuild-hnsw"@.len() == 25);
    assert("/maintenance/compact-hnsw"@.len() == 25);
    assert("/maintenance/auto-edge"@.len() == 22);
    assert("/maintenance/auto-edge"@[13] == 'a' && "/maintenance/reconcile"@[13] == 'r');
    assert("/rerank"@[1] == 'r' && "/search"@[1] == 's');
    assert("/maintenance/rebuild-hnsw"@[13] == 'r' && "/maintenance/compact-hnsw"@[13] == 'c');
}

/// Where an admitted request goes.
pub fn route(method: &str, path: &str, profile: ToolProfile) -> (r: Route)
    ensures
        routed(r, method@, path@, profile),
{
    proof {
        reveal_strlit("GET");
        reveal_strlit("POST");
        assert("GET"@.len() != "POST"@.len());
        assert forall|a: Route, b: Route|
            a.address() is Some && #[trigger] a.address() == #[trigger] b.address() implies a
            == b by {
            lemma_addresses_differ(a, b);
        }
    }
    let candidate = if same_text(method, "GET") {
        if same_text(path, "/health") {
            Route::Health
        } else if same_text(path, "/verify-integrity") {
            Route::VerifyIntegrity
        } else {
            Route::NotFound
        }
    } else if same_text(method, "POST") {
        post_route(path)
    } else {
        Route::NotFound
    };
    match candidate {
        Route::Health => candidate,
        _ => {
            if !profile.allows_http_route() {
                return Route::NotFound;
            }
            match candidate {
                Route::Add | Route::AddEdge | Route::DeleteFact | Route::RecordOutcome => if profile.allows_http_write() {
                    candidate
                } else {
                    Route::NotFound
                },
                Route::MaintenanceCheck
                | Route::MaintenanceVacuum
                | Route::MaintenanceReembed
                | Route::MaintenanceReconcile
                | Route::MaintenanceRebuildHnsw
                | Route::MaintenanceCompactHnsw
                | Route::MaintenanceAutoEdge => if profile.allows_http_maintenance() {
                    candidate
                } else {
                    Route::NotFound
                },
                _ => candidate,
            }
        },
    }
}

/// The head of a reply whose JSON body has the given number of bytes.
pub fn response_head(status: &str, body_bytes: usize) -> (head: String)
    ensures
        head@ == "HTTP/1.1 "@ + status@ + "\r\nContent-Type: application/json\r\nContent-Length: "@
            + decimal(body_bytes as nat) + "\r\nConnection: close\r\n\r\n"@,
{
    cat5(
        "HTTP/1.1 ",
        status,
        "\r\nContent-Type: application/json\r\nContent-Length: ",
        &decimal_text(body_bytes as u64),
        "\r\nConnection: close\r\n\r\n",
    )
}

/// `raw` holds white space inside, after trimming.
pub open spec fn split_token(raw: Seq<char>) -> bool {
    exists|i: int| 0 <= i < trimmed(raw).len() && white_space(#[trigger] trimmed(raw)[i])
}

/// What a configured bearer token is: the trimmed text, or why it is none.
pub open spec fn normalized_token(raw: Seq<char>, source: Seq<char>) -> Result<
    Seq<char>,
    Seq<char>,
> {
    if trimmed(raw).len() == 0 {
        Err("HTTP authorization token from "@ + source + " is empty"@)
    } else if split_token(raw) {
        Err("HTTP authorization token from "@ + source + " contains whitespace"@)
    } else {
        Ok(trimmed(raw))
    }
}

/// The texts of a result.
pub open spec fn result_texts(r: Result<String, String>) -> Result<Seq<char>, Seq<char>> {
    match r {
        Ok(s) => Ok(s@),
        Err(s) => Err(s@),
    }
}

/// The bearer token configured as `raw`, or why it is none; `source` says
/// where it comes from.
pub fn normalize_http_auth_token(raw: &str, source: &str) -> (r: Result<String, String>)
    ensures
        result_texts(r) == normalized_token(raw@, source@),
{
    let token = trim(raw);
    if token.as_str().is_empty() {
        return Err(
            crate::text::cat3("HTTP authorization token from ", source, " is empty"),
        );
    }
    if has_white_space(&token) {
        return Err(
            crate::text::cat3("HTTP authorization token from ", source, " contains whitespace"),
        );
    }
    Ok(token)
}

/// A token file: its name, and what reading it gave.
pub struct TokenFile {
    pub path: String,
    pub content: Result<String, String>,
}

/// The name of a token file, and what reading it gave.
pub type TokenFileView = (Seq<char>, Result<Seq<char>, Seq<char>>);

impl View for TokenFile {
    type V = TokenFileView;

    open spec fn view(&self) -> TokenFileView {
        (
            self.path@,
            match self.content {
                Ok(content) => Ok(content@),
                Err(error) => Err(error@),
            },
        )
    }
}

/// The bearer token of a server, or why it has none that is usable: the
/// explicit one if there is one, else the content of the token file; nothing
/// if neither is configured.
pub open spec fn resolved_token(
    explicit: Option<Seq<char>>,
    token_file: Option<TokenFileView>,
) -> Option<Result<Seq<char>, Seq<char>>> {
    match (explicit, token_file) {
        (Some(token), _) => Some(normalized_token(token, "--http-auth-token"@)),
        (None, Some((path, Ok(content)))) => Some(normalized_token(content, path)),
        (None, Some((path, Err(error)))) => Some(
            Err("failed to read "@ + path + ": "@ + error),
        ),
        (None, None) => None,
    }
}

/// The bearer token of a server: the explicit one if there is one, else the
/// content of the token file; `None` if neither is configured.
pub fn resolve_http_auth_token(explicit: Option<&str>, token_file: Option<&TokenFile>) -> (r:
    Result<Option<String>, String>)
    ensures
        resolved_texts(r) == resolved_token(
            match explicit {
                Some(token) => Some(token@),
                None => None,
            },
            match token_file {
                Some(file) => Some(file@),
                None => None,
            },
        ),
{
    let found = match explicit {
        Some(token) => normalize_http_auth_token(token, "--http-auth-token"),
        None => match token_file {
            Some(file) => match &file.content {
                Ok(content) => normalize_http_auth_token(content, &file.path),
                Err(error) => Err(cat4("failed to read ", &file.path, ": ", error)),
            },
            None => {
                return Ok(None);
            },
        },
    };
    match found {
        Ok(token) => Ok(Some(token)),
        Err(message) => Err(message),
    }
}

/// A server goes without a token only where neither an explicit one nor a file
/// is configured. An explicit token decides whatever the file holds. A file that
/// cannot be read is an error where it is what decides.
pub proof fn law_token_sources(
    explicit: Option<Seq<char>>,
    token_file: Option<TokenFileView>,
    other: Option<TokenFileView>,
)
    ensures
        resolved_token(explicit, token_file) is None <==> explicit is None && token_file is None,
        explicit is Some ==> resolved_token(explicit, token_file) == resolved_token(
            explicit,
            other,
        ),
        (match (explicit, token_file) {
            (None, Some((path, Err(error)))) => resolved_token(explicit, token_file) == Some(
                Err::<Seq<char>, Seq<char>>("failed to read "@ + path + ": "@ + error),
            ),
            _ => true,
        }),
{
}

/// The token or the message of a resolution; `None` if nothing is configured.
pub open spec fn resolved_texts(r: Result<Option<String>, String>) -> Option<
    Result<Seq<char>, Seq<char>>,
> {
    match r {
        Ok(Some(token)) => Some(Ok(token@)),
        Ok(None) => None,
        Err(message) => Some(Err(message@)),
    }
}

/// How a process serves: over HTTP, at a port and with a token, and over its
/// standard streams.
pub struct Serving {
    pub http: Option<(u16, String)>,
    pub stdio: bool,
}

/// How a process serves.
#[verifier::ext_equal]
pub struct ServingView {
    pub http: Option<(u16, Seq<char>)>,
    pub stdio: bool,
}

impl View for Serving {
    type V = ServingView;

    open spec fn view(&self) -> ServingView {
        ServingView {
            http: match self.http {
                Some(at) => Some((at.0, at.1@)),
                None => None,
            },
            stdio: self.stdio,
        }
    }
}

/// How a process serves, given how it was started and what was made of its
/// token, or why it does not start. A stable build has no HTTP transport; any
/// other has one where a port is given, and then needs a token.
pub open spec fn planned_serving(
    stable: bool,
    port: Option<u16>,
    http_only: bool,
    token: Option<Result<Seq<char>, Seq<char>>>,
) -> Result<ServingView, Seq<char>> {
    if stable {
        if port is Some || http_only {
            Err(
                "HTTP transport is unavailable in the compile-time stable build; use stdio MCP or rebuild with --features full"@,
            )
        } else {
            Ok(ServingView { http: None, stdio: true })
        }
    } else {
        match (port, token) {
            (None, _) => Ok(ServingView { http: None, stdio: !http_only }),
            (Some(_), Some(Err(message))) => Err(message),
            (Some(_), None) => Err(
                "--http-port requires --http-auth-token or --http-auth-token-file. Refusing to start HTTP server without authorization."@,
            ),
            (Some(at), Some(Ok(bearer))) => Ok(
                ServingView { http: Some((at, bearer)), stdio: !http_only },
            ),
        }
    }
}

/// How a process serves, given how it was started and what was made of its
/// token, or why it does not start.
pub fn plan_serving(
    stable: bool,
    port: Option<u16>,
    http_only: bool,
    token: Result<Option<String>, String>,
) -> (r: Result<Serving, String>)
    ensures
        (match r {
            Ok(serving) => Ok(serving@),
            Err(message) => Err(message@),
        }) == planned_serving(stable, port, http_only, resolved_texts(token)),
{
    if stable {
        if port.is_some() || http_only {
            return Err(
                "HTTP transport is unavailable in the compile-time stable build; use stdio MCP or rebuild with --features full".to_owned(),
            );
        }
        return Ok(Serving { http: None, stdio: true });
    }
    match port {
        None => Ok(Serving { http: None, stdio: !http_only }),
        Some(at) => match token {
            Err(message) => Err(message),
            Ok(None) => Err(
                "--http-port requires --http-auth-token or --http-auth-token-file. Refusing to start HTTP server without authorization.".to_owned(),
            ),
            Ok(Some(bearer)) => Ok(Serving { http: Some((at, bearer)), stdio: !http_only }),
        },
    }
}

/// HTTP is served only with a token that is not blank and has no white space.
pub proof fn law_http_needs_a_token(
    stable: bool,
    port: Option<u16>,
    http_only: bool,
    raw: Seq<char>,
    source: Seq<char>,
)
    ensures
        planned_serving(stable, port, http_only, None) matches Ok(serving) ==> serving.http is None,
        planned_serving(stable, port, http_only, Some(normalized_token(raw, source))) matches Ok(
            serving,
        ) ==> (serving.http matches Some(at) ==> at.1 == trimmed(raw) && at.1.len() > 0
            && !split_token(raw)),
{
}

/// Reading header lines keeps a head within its limits: a head that is open
/// or complete after any lines never holds more than the limits allow.
pub proof fn law_open_heads_are_within_limits(head: HeadView, lines: Seq<Seq<char>>)
    requires
        within_limits(head),
    ensures
        read_lines(head, lines) is Next ==> within_limits(read_lines(head, lines)->Next_0),
        read_lines(head, lines) is End ==> within_limits(read_lines(head, lines)->End_0),
    decreases lines.len(),
{
    if lines.len() > 0 {
        match head_step(head, lines[0]) {
            HeadStepView::Next(next) => {
                law_open_heads_are_within_limits(next, lines.subrange(1, lines.len() as int));
            },
            _ => {},
        }
    }
}

/// A request is admitted only if it carries the bearer token, is addressed to a
/// loopback name, names no other origin, and is within the body limit.
pub proof fn law_admitted_requests_are_authorized(head: HeadView, token: Seq<char>)
    ensures
        admission(head, token) == Admission::Admitted <==> {
            &&& authorized(head, token)
            &&& local_request(head)
            &&& head.content_length <= MAX_BODY_SIZE
        },
{
}

/// A request without the bearer token is answered `401`, whatever else it says.
pub proof fn law_missing_token_is_unauthorized(head: HeadView, token: Seq<char>)
    requires
        !authorized(head, token),
    ensures
        admission(head, token) == Admission::Unauthorized,
{
}

/// The health check is served under every profile.
pub proof fn law_health_is_always_served(r: Route, profile: ToolProfile)
    requires
        routed(r, "GET"@, "/health"@, profile),
    ensures
        r == Route::Health,
{
    assert(Route::Health.address() == Some(("GET"@, "/health"@)));
    assert(Route::Health.served(profile));
    if r != Route::NotFound {
        lemma_addresses_differ(r, Route::Health);
    }
}

/// Under the lean and the standard profile nothing but the health check is
/// served.
pub proof fn law_lean_serves_only_health(
    r: Route,
    method: Seq<char>,
    path: Seq<char>,
    profile: ToolProfile,
)
    requires
        profile == ToolProfile::Lean || profile == ToolProfile::Standard,
        routed(r, method, path, profile),
    ensures
        r == Route::Health || r == Route::NotFound,
{
}

/// A profile that is served maintenance routes is also served write routes.
pub proof fn law_maintenance_implies_write(r: Route, w: Route, profile: ToolProfile)
    requires
        r.is_maintenance(),
        r.served(profile),
        w.is_write(),
    ensures
        w.served(profile),
{
}

/// A token that was accepted once is accepted again, unchanged.
pub proof fn law_token_normalization_is_idempotent(raw: Seq<char>, source: Seq<char>)
    requires
        normalized_token(raw, source) is Ok,
    ensures
        normalized_token(normalized_token(raw, source)->Ok_0, source) == normalized_token(
            raw,
            source,
        ),
{
    crate::text::lemma_trimmed_idempotent(raw);
}

/// Every port of a loopback name is one of its addresses, and so is the name
/// itself.
proof fn lemma_loopback_ports(port: u16)
    ensures
        loopback_authority("localhost:"@ + decimal(port as nat)),
        loopback_authority("127.0.0.1:"@ + decimal(port as nat)),
        loopback_authority("[::1]:"@ + decimal(port as nat)),
{
    crate::text::law_decimals_are_read_back(port as nat, u16::MAX as int);
    let digits = decimal(port as nat);
    let (a, b, c) = ("localhost:"@, "127.0.0.1:"@, "[::1]:"@);
    assert(after(a + digits, a.len() as int) =~= digits);
    assert(after(b + digits, b.len() as int) =~= digits);
    assert(after(c + digits, c.len() as int) =~= digits);
    assert((a + digits).subrange(0, a.len() as int) =~= a);
    assert((b + digits).subrange(0, b.len() as int) =~= b);
    assert((c + digits).subrange(0, c.len() as int) =~= c);
}

/// A request of this machine that carries the bearer token is admitted, on
/// whatever port it comes: it names a loopback host, with or without a port, and
/// either no origin or that of a loopback host, and its body is within the
/// limit.
pub proof fn law_local_requests_are_admitted(
    head: HeadView,
    token: Seq<char>,
    host: Seq<char>,
    port: u16,
)
    requires
        host == "localhost"@ || host == "127.0.0.1"@ || host == "[::1]"@,
        head.authorization == Some("Bearer "@ + token),
        head.host == Some(host) || head.host == Some(host + ":"@ + decimal(port as nat)),
        head.origin is None || head.origin == Some("http://"@ + host) || head.origin == Some(
            "https://"@ + host,
        ) || head.origin == Some("http://"@ + host + ":"@ + decimal(port as nat)),
        head.content_length <= MAX_BODY_SIZE,
    ensures
        admission(head, token) == Admission::Admitted,
{
    lemma_loopback_ports(port);
    reveal_strlit("localhost");
    reveal_strlit("localhost:");
    reveal_strlit("127.0.0.1");
    reveal_strlit("127.0.0.1:");
    reveal_strlit("[::1]");
    reveal_strlit("[::1]:");
    reveal_strlit(":");
    assert("localhost"@ + ":"@ =~= "localhost:"@);
    assert("127.0.0.1"@ + ":"@ =~= "127.0.0.1:"@);
    assert("[::1]"@ + ":"@ =~= "[::1]:"@);
    let digits = decimal(port as nat);
    let (h, s) = ("http://"@, "https://"@);
    assert(loopback_authority(host + ":"@ + digits));
    assert(after(h + host, h.len() as int) =~= host);
    assert(after(s + host, s.len() as int) =~= host);
    assert(after(h + host + ":"@ + digits, h.len() as int) =~= host + ":"@ + digits);
    assert((h + host).subrange(0, h.len() as int) =~= h);
    assert((s + host).subrange(0, s.len() as int) =~= s);
    assert((h + host + ":"@ + digits).subrange(0, h.len() as int) =~= h);
}

/// A host that does not begin with a loopback name is refused, though the
/// request carries the token.
pub proof fn law_other_hosts_are_refused(head: HeadView, token: Seq<char>)
    requires
        head.host matches Some(host) ==> !starts_with(host, "localhost"@) && !starts_with(
            host,
            "127.0.0.1"@,
        ) && !starts_with(host, "[::1]"@),
    ensures
        admission(head, token) == Admission::Forbidden || admission(head, token)
            == Admission::Unauthorized,
{
    if let Some(host) = head.host {
        reveal_strlit("localhost");
        reveal_strlit("localhost:");
        reveal_strlit("127.0.0.1");
        reveal_strlit("127.0.0.1:");
        reveal_strlit("[::1]");
        reveal_strlit("[::1]:");
        let (a, b, c) = ("localhost"@, "127.0.0.1"@, "[::1]"@);
        assert("localhost:"@.subrange(0, a.len() as int) =~= a);
        assert("127.0.0.1:"@.subrange(0, b.len() as int) =~= b);
        assert("[::1]:"@.subrange(0, c.len() as int) =~= c);
        if starts_with(host, "localhost:"@) {
            assert(host.subrange(0, a.len() as int) =~= host.subrange(0, "localhost:"@.len() as int).subrange(0, a.len() as int));
        }
        if starts_with(host, "127.0.0.1:"@) {
            assert(host.subrange(0, b.len() as int) =~= host.subrange(0, "127.0.0.1:"@.len() as int).subrange(0, b.len() as int));
        }
        if starts_with(host, "[::1]:"@) {
            assert(host.subrange(0, c.len() as int) =~= host.subrange(0, "[::1]:"@.len() as int).subrange(0, c.len() as int));
        }
        assert(a.subrange(0, a.len() as int) =~= a);
        assert(b.subrange(0, b.len() as int) =~= b);
        assert(c.subrange(0, c.len() as int) =~= c);
    }
}

/// A header line is read by its name, in any letter case: its value, without
/// white space around it, becomes that part of the head, and the line leaves
/// every other part as it was.
pub proof fn law_headers_are_read_by_name(head: HeadView, name: Seq<char>, value: Seq<char>)
    requires
        forall|i: int| 0 <= i < name.len() ==> (#[trigger] name[i]) != ':',
        head.count < MAX_HEADER_COUNT,
        head.bytes + byte_length(name + ":"@ + value) <= MAX_HEADER_BYTES,
    ensures
        ({
            let lowered = ascii_lowered(name);
            let step = head_step(head, name + ":"@ + value);
            match step {
                HeadStepView::Next(next) => {
                    &&& next.count == head.count + 1
                    &&& next.bytes == head.bytes + byte_length(name + ":"@ + value)
                    &&& next.authorization == (if lowered == "authorization"@ {
                        Some(trimmed(value))
                    } else {
                        head.authorization
                    })
                    &&& next.host == (if lowered == "host"@ {
                        Some(trimmed(value))
                    } else {
                        head.host
                    })
                    &&& next.origin == (if lowered == "origin"@ {
                        Some(trimmed(value))
                    } else {
                        head.origin
                    })
                    &&& if lowered == "content-length"@ {
                        parsed_unsigned(trimmed(value), usize::MAX as int) == Some(
                            next.content_length,
                        )
                    } else {
                        next.content_length == head.content_length
                    }
                },
                HeadStepView::Abort => lowered == "content-length"@ && parsed_unsigned(
                    trimmed(value),
                    usize::MAX as int,
                ) is None,
                _ => false,
            }
        }),
{
    let line = name + ":"@ + value;
    let k = name.len() as int;
    reveal_strlit(":");
    assert(line[k] == ':');
    assert forall|i: int| 0 <= i < k implies (#[trigger] line[i]) != ':' by {
        assert(line[i] == name[i]);
    }
    lemma_colon_index(line, k);
    assert(line.subrange(0, k) =~= name);
    assert(after(line, k + 1) =~= value);
    crate::text::lemma_blank_is_trimmed_away(line);
    assert(!white_space(line[k]));
    reveal_strlit("authorization");
    reveal_strlit("host");
    reveal_strlit("origin");
    reveal_strlit("content-length");
    assert("authorization"@.len() == 13 && "host"@.len() == 4 && "origin"@.len() == 6);
    assert("content-length"@.len() == 14);
}

/// A served address leads to its route and to no other.
pub proof fn law_served_addresses_are_reached(r: Route, reached: Route, profile: ToolProfile)
    requires
        r.address() is Some,
        r.served(profile),
        routed(reached, (r.address()->0).0, (r.address()->0).1, profile),
    ensures
        reached == r,
{
    assert(r.address() == Some(((r.address()->0).0, (r.address()->0).1)));
    if reached != Route::NotFound {
        lemma_addresses_differ(reached, r);
    }
}

/// Whatever lies under `/maintenance/` is served under the full profile alone,
/// and under it every route is served.
pub proof fn law_maintenance_needs_the_full_profile(r: Route, profile: ToolProfile)
    ensures
        r.served(ToolProfile::Full),
        r.served(profile) && profile != ToolProfile::Full && r.address() is Some ==> !starts_with(
            (r.address()->0).1,
            "/maintenance/"@,
        ),
{
    reveal_strlit("/maintenance/");
    reveal_strlit("/health");
    reveal_strlit("/search");
    reveal_strlit("/search-routed");
    reveal_strlit("/rerank");
    reveal_strlit("/stats");
    reveal_strlit("/add");
    reveal_strlit("/add-edge");
    reveal_strlit("/delete-fact");
    reveal_strlit("/record-outcome");
    reveal_strlit("/verify-integrity");
    reveal_strlit("/discord");
    if r.address() is Some && starts_with((r.address()->0).1, "/maintenance/"@) {
        let path = (r.address()->0).1;
        assert(path.subrange(0, "/maintenance/"@.len() as int)[1] == path[1]);
        assert("/maintenance/"@[1] == 'm');
    }
    assert("/health"@[1] == 'h' && "/search"@[1] == 's' && "/search-routed"@[1] == 's');
    assert("/rerank"@[1] == 'r' && "/stats"@[1] == 's' && "/add"@[1] == 'a');
    assert("/add-edge"@[1] == 'a' && "/delete-fact"@[1] == 'd' && "/record-outcome"@[1] == 'r');
    assert("/verify-integrity"@[1] == 'v' && "/discord"@[1] == 'd');
}

/// Under the stable profile only what reads is served.
pub proof fn law_stable_serves_reads(r: Route)
    requires
        r.served(ToolProfile::Stable),
        r.address() is Some,
    ensures
        r == Route::Health || r == Route::Search || r == Route::SearchRouted || r == Route::Rerank
            || r == Route::Stats || r == Route::VerifyIntegrity || r == Route::Discord,
{
}

/// Each refusal has a status of its own, and an admitted request has none.
pub proof fn law_refusals_have_their_status(a: Admission, b: Admission)
    ensures
        a.refusal_status() is None <==> a == Admission::Admitted,
        a.refusal_status() == b.refusal_status() ==> a == b,
{
    reveal_strlit("401 Unauthorized");
    reveal_strlit("403 Forbidden");
    reveal_strlit("413 Payload Too Large");
    reveal_strlit("431 Request Header Fields Too Large");
    assert("401 Unauthorized"@.len() == 16 && "403 Forbidden"@.len() == 13);
    assert("413 Payload Too Large"@.len() == 21);
    assert("431 Request Header Fields Too Large"@.len() == 35);
}

/// A line is taken only where it is complete and within its budget: no line is
/// taken without its end, nor one of which nothing or too much was read.
pub proof fn law_lines_are_complete(read: int, max: int, line: Seq<char>)
    ensures
        line.len() == 0 ==> !line_fits(read, max, line),
        line.len() > 0 && line.last() != '\n' ==> !line_fits(read, max, line),
        read > max || read <= 0 ==> !line_fits(read, max, line),
        0 < read <= max ==> line_fits(read, max, line.push('\n')),
{
}

/// What stands behind a scheme and names this machine begins with a loopback
/// name.
proof fn lemma_loopback_start(value: Seq<char>, scheme: Seq<char>, name: Seq<char>)
    requires
        starts_with(value, scheme),
        starts_with(after(value, scheme.len() as int), name),
    ensures
        starts_with(value, scheme + name),
{
    let rest = after(value, scheme.len() as int);
    assert(value.subrange(0, (scheme + name).len() as int) =~= value.subrange(
        0,
        scheme.len() as int,
    ) + rest.subrange(0, name.len() as int));
}

/// An origin that begins with neither scheme, or names another machine behind
/// it, is refused, though the request carries the token and names a loopback
/// host.
pub proof fn law_other_origins_are_refused(head: HeadView, token: Seq<char>, origin: Seq<char>)
    requires
        head.origin == Some(origin),
        !starts_with(origin, "http://"@ + "localhost"@),
        !starts_with(origin, "http://"@ + "127.0.0.1"@),
        !starts_with(origin, "http://"@ + "[::1]"@),
        !starts_with(origin, "https://"@ + "localhost"@),
        !starts_with(origin, "https://"@ + "127.0.0.1"@),
        !starts_with(origin, "https://"@ + "[::1]"@),
    ensures
        admission(head, token) == Admission::Forbidden || admission(head, token)
            == Admission::Unauthorized,
{
    if loopback_origin(origin) {
        let plain = starts_with(origin, "http://"@) && loopback_authority(
            after(origin, "http://"@.len() as int),
        );
        let scheme = if plain {
            "http://"@
        } else {
            "https://"@
        };
        let host = after(origin, scheme.len() as int);
        reveal_strlit("localhost");
        reveal_strlit("localhost:");
        reveal_strlit("127.0.0.1");
        reveal_strlit("127.0.0.1:");
        reveal_strlit("[::1]");
        reveal_strlit("[::1]:");
        let (a, b, c) = ("localhost"@, "127.0.0.1"@, "[::1]"@);
        assert("localhost:"@.subrange(0, a.len() as int) =~= a);
        assert("127.0.0.1:"@.subrange(0, b.len() as int) =~= b);
        assert("[::1]:"@.subrange(0, c.len() as int) =~= c);
        assert(a.subrange(0, a.len() as int) =~= a);
        assert(b.subrange(0, b.len() as int) =~= b);
        assert(c.subrange(0, c.len() as int) =~= c);
        if host == a || starts_with(host, "localhost:"@) {
            assert(host.subrange(0, a.len() as int) =~= a) by {
                if host != a {
                    assert(host.subrange(0, a.len() as int) =~= host.subrange(
                        0,
                        "localhost:"@.len() as int,
                    ).subrange(0, a.len() as int));
                }
            }
            lemma_loopback_start(origin, scheme, a);
        } else if host == b || starts_with(host, "127.0.0.1:"@) {
            assert(host.subrange(0, b.len() as int) =~= b) by {
                if host != b {
                    assert(host.subrange(0, b.len() as int) =~= host.subrange(
                        0,
                        "127.0.0.1:"@.len() as int,
                    ).subrange(0, b.len() as int));
                }
            }
            lemma_loopback_start(origin, scheme, b);
        } else {
            assert(host.subrange(0, c.len() as int) =~= c) by {
                if host != c {
                    assert(host.subrange(0, c.len() as int) =~= host.subrange(
                        0,
                        "[::1]:"@.len() as int,
                    ).subrange(0, c.len() as int));
                }
            }
            lemma_loopback_start(origin, scheme, c);
        }
    }
}

/// A head that takes a line stays within its limits.
pub proof fn law_heads_stay_within_their_limits(head: HeadView, line: Seq<char>)
    ensures
        head_step(head, line) matches HeadStepView::Next(next) ==> within_limits(next) && next.bytes
            <= MAX_HEADER_BYTES && next.count <= MAX_HEADER_COUNT && next.count == head.count + 1
            && next.bytes == head.bytes + byte_length(line),
        within_limits(head) ==> head.bytes <= MAX_HEADER_BYTES && head.count <= MAX_HEADER_COUNT,
{
}

/// A process serves over HTTP only where a port is given, and then only with a
/// token; a stable build never does.
pub proof fn law_http_needs_a_port_and_a_token(
    stable: bool,
    port: Option<u16>,
    http_only: bool,
    token: Option<Result<Seq<char>, Seq<char>>>,
)
    ensures
        ({
            let planned = planned_serving(stable, port, http_only, token);
            &&& planned matches Ok(serving) ==> {
                &&& serving.http is Some <==> !stable && port is Some
                &&& serving.http matches Some((at, bearer)) ==> port == Some(at) && token == Some(
                    Ok::<Seq<char>, Seq<char>>(bearer),
                )
                &&& serving.stdio <==> !http_only
            }
            &&& planned is Err <==> (stable && (port is Some || http_only)) || (!stable
                && port is Some && !(token is Some && token->0 is Ok))
        }),
{
}

}
