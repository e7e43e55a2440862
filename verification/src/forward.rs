//! The rules of forwarding one request: what is sent upstream, and what is made of
//! the upstream's answer.

use crate::headers::{
    ascii_chars, ascii_text, check_visible_ascii, distinct_names, fields_of, first_value, folded,
    forwarded, is_listed, is_visible_ascii, lemma_same_name, lemma_values_of_concat,
    lemma_values_of_picked, lemma_values_of_selected, lookup, names_of, pick, pick_each, picked,
    same_name, selected, values_of, Fields, Header,
};
use crate::playlist::{rewrite_playlist, rewritten_playlist};
use crate::text::{chars_of, contains, find_in, string_of, string_text, text_of};
use vstd::prelude::*;
use vstd::utf8::encode_utf8;

verus! {

/// The `User-Agent` sent upstream when the caller sent none that is text.
pub const DEFAULT_USER_AGENT: &'static str =
    "Mozilla/5.0 (Windows NT 10.0; Win64; x64) AppleWebKit/537.36 (KHTML, like Gecko) Chrome/120.0.0.0 Safari/537.36";

/// The `Referer` sent upstream when the request names none.
pub const DEFAULT_REFERER: &'static str = "https://pan.quark.cn/";

/// The status of a partial answer to a range request.
pub const PARTIAL_CONTENT: u16 = 206;

/// The status of an answer that the proxy itself could not produce.
pub const INTERNAL_SERVER_ERROR: u16 = 500;

/// How many characters of a URL are shown in a log line.
pub const PREVIEW_LENGTH: usize = 50;

/// What a request to the proxy asks for.
pub struct ProxyRequestParams {
    /// The absolute URL to fetch.
    pub url: String,
    /// A cookie to send upstream as it is.
    pub cookie: Option<String>,
    /// The referer to send upstream.
    pub referer: Option<String>,
}

/// The request to send upstream: a `GET` of `url` with `headers`.
pub struct UpstreamRequest {
    pub url: String,
    pub headers: Vec<Header>,
}

/// The conditional and range headers that are passed on upstream.
pub open spec fn conditional_names() -> Seq<Seq<char>> {
    seq![
        "range"@,
        "if-range"@,
        "if-match"@,
        "if-none-match"@,
        "if-modified-since"@,
        "if-unmodified-since"@,
    ]
}

/// The headers of the upstream's answer that are passed on to the caller, whatever
/// becomes of the body.
pub open spec fn copied_names() -> Seq<Seq<char>> {
    seq![
        "content-type"@,
        "content-range"@,
        "accept-ranges"@,
        "cache-control"@,
        "etag"@,
        "last-modified"@,
    ]
}

/// The `User-Agent` to send upstream: the caller's own where it sent one that is
/// text, else the default.
pub open spec fn user_agent(inbound: Fields) -> Seq<u8> {
    match first_value(inbound, "user-agent"@) {
        Some(value) => if is_visible_ascii(value) {
            value
        } else {
            encode_utf8(DEFAULT_USER_AGENT@)
        },
        None => encode_utf8(DEFAULT_USER_AGENT@),
    }
}

/// The `Referer` to send upstream.
pub open spec fn referer(wanted: Option<Seq<char>>) -> Seq<u8> {
    match wanted {
        Some(value) => encode_utf8(value),
        None => encode_utf8(DEFAULT_REFERER@),
    }
}

/// The `Cookie` field to send upstream, where the request names a cookie.
pub open spec fn cookie_field(cookie: Option<Seq<char>>) -> Fields {
    match cookie {
        Some(value) => seq![("Cookie"@, encode_utf8(value))],
        None => Seq::empty(),
    }
}

/// The header fields of the upstream request, in order: `User-Agent`, `Referer`,
/// `Cookie` where there is one, and then those of the conditional and range
/// headers that the caller sent.
pub open spec fn upstream_fields(
    cookie: Option<Seq<char>>,
    wanted_referer: Option<Seq<char>>,
    inbound: Fields,
) -> Fields {
    seq![("User-Agent"@, user_agent(inbound)), ("Referer"@, referer(wanted_referer))]
        + cookie_field(cookie) + selected(inbound, conditional_names())
}

/// Builds the request to send upstream for `params`, given the headers that came
/// with the caller's request.
pub fn upstream_request(params: &ProxyRequestParams, inbound: &Vec<Header>) -> (request:
    UpstreamRequest)
    ensures
        request.url@ == params.url@,
        fields_of(request.headers@) == upstream_fields(
            string_text(params.cookie),
            string_text(params.referer),
            fields_of(inbound@),
        ),
{
    let mut headers: Vec<Header> = Vec::new();
    let agent = match lookup(inbound, "user-agent") {
        Some(value) => if check_visible_ascii(value.as_slice()) {
            Header::new("User-Agent", value.as_slice())
        } else {
            Header::new("User-Agent", DEFAULT_USER_AGENT.as_bytes())
        },
        None => Header::new("User-Agent", DEFAULT_USER_AGENT.as_bytes()),
    };
    headers.push(agent);
    let from = match &params.referer {
        Some(value) => Header::new("Referer", value.as_str().as_bytes()),
        None => Header::new("Referer", DEFAULT_REFERER.as_bytes()),
    };
    headers.push(from);
    match &params.cookie {
        Some(value) => {
            headers.push(Header::new("Cookie", value.as_str().as_bytes()));
        },
        None => {},
    }
    let ghost fixed = fields_of(headers@);
    assert(fixed =~= seq![
        ("User-Agent"@, user_agent(fields_of(inbound@))),
        ("Referer"@, referer(string_text(params.referer))),
    ] + cookie_field(string_text(params.cookie)));
    let names = conditional_list();
    pick_each(&mut headers, inbound, names.as_slice());
    UpstreamRequest { url: params.url.clone(), headers }
}

/// The names of `conditional_names`, in order.
fn conditional_list() -> (names: Vec<&'static str>)
    ensures
        names_of(names@) == conditional_names(),
{
    let names = vec![
        "range",
        "if-range",
        "if-match",
        "if-none-match",
        "if-modified-since",
        "if-unmodified-since",
    ];
    assert(names_of(names@) =~= conditional_names());
    names
}

/// The media types of an HLS playlist. A content type that holds one of them
/// anywhere names a playlist.
pub const PLAYLIST_TYPE: &'static str = "application/vnd.apple.mpegurl";

/// The older of the two media types of an HLS playlist.
pub const LEGACY_PLAYLIST_TYPE: &'static str = "application/x-mpegurl";

/// What leads the body of the answer when the upstream could not be reached.
pub const TRANSPORT_FAILURE_PREFIX: &'static str = "Proxy failed: ";

/// What leads the body of the answer when a playlist could not be read as text.
pub const UNREADABLE_BODY_PREFIX: &'static str = "Proxy failed to read body: ";

/// What is done with the body of the upstream's answer.
#[derive(Clone, Copy, Debug, PartialEq, Eq, Structural)]
pub enum BodyPlan {
    /// The upstream did not succeed: its body is read whole as text and handed on
    /// for diagnosis.
    Relay,
    /// The body is a playlist: it is read whole as text and rewritten.
    Rewrite,
    /// The body is handed on as its bytes arrive.
    Stream,
}

/// The answer to the caller, as far as it is known once the upstream's status and
/// headers are in.
pub struct ResponsePlan {
    pub status: u16,
    pub headers: Vec<Header>,
    pub body: BodyPlan,
}

/// An answer to the caller whose body is a text.
pub struct Response {
    pub status: u16,
    pub headers: Vec<Header>,
    pub body: String,
}

/// Whether a status says that the request succeeded.
pub open spec fn is_success(status: u16) -> bool {
    200 <= status < 300
}

/// The content type that the upstream declared, as text; empty where it declared
/// none or one that is no text.
pub open spec fn content_type(upstream: Fields) -> Seq<char> {
    match first_value(upstream, "content-type"@) {
        Some(value) => if is_visible_ascii(value) {
            ascii_text(value)
        } else {
            Seq::empty()
        },
        None => Seq::empty(),
    }
}

/// Whether a content type names an HLS playlist.
pub open spec fn is_playlist_type(declared: Seq<char>) -> bool {
    contains(declared, PLAYLIST_TYPE@) || contains(declared, LEGACY_PLAYLIST_TYPE@)
}

/// What is done with the body of an answer with this status and these headers.
pub open spec fn body_plan(status: u16, upstream: Fields) -> BodyPlan {
    if !is_success(status) && status != PARTIAL_CONTENT {
        BodyPlan::Relay
    } else if is_playlist_type(content_type(upstream)) {
        BodyPlan::Rewrite
    } else {
        BodyPlan::Stream
    }
}

/// The header fields that are known once the upstream's headers are in: the copied
/// ones, and for a streamed body the upstream's `content-length` too. The length
/// of a body that is read whole is not known yet.
pub open spec fn planned_fields(status: u16, upstream: Fields) -> Fields {
    if body_plan(status, upstream) == BodyPlan::Stream {
        selected(upstream, copied_names()) + picked(upstream, "content-length"@)
    } else {
        selected(upstream, copied_names())
    }
}

/// The names of `copied_names`, in order.
fn copied_list() -> (names: Vec<&'static str>)
    ensures
        names_of(names@) == copied_names(),
{
    let names = vec![
        "content-type",
        "content-range",
        "accept-ranges",
        "cache-control",
        "etag",
        "last-modified",
    ];
    assert(names_of(names@) =~= copied_names());
    names
}

/// Tells whether the upstream declared its body to be an HLS playlist.
pub fn declares_playlist(upstream: &Vec<Header>) -> (playlist: bool)
    ensures
        playlist == is_playlist_type(content_type(fields_of(upstream@))),
{
    let declared = match lookup(upstream, "content-type") {
        Some(value) => if check_visible_ascii(value.as_slice()) {
            ascii_chars(value.as_slice())
        } else {
            Vec::new()
        },
        None => Vec::new(),
    };
    let current = chars_of(PLAYLIST_TYPE);
    let legacy = chars_of(LEGACY_PLAYLIST_TYPE);
    find_in(declared.as_slice(), current.as_slice(), 0).is_some() || find_in(
        declared.as_slice(),
        legacy.as_slice(),
        0,
    ).is_some()
}

/// Tells whether a status says that the request succeeded.
pub fn status_is_success(status: u16) -> (success: bool)
    ensures
        success == is_success(status),
{
    200 <= status && status < 300
}

/// Decides, from the upstream's status and headers, what the caller gets: the
/// status unchanged, the allow-listed headers, and what is done with the body.
pub fn plan_response(status: u16, upstream: &Vec<Header>) -> (plan: ResponsePlan)
    ensures
        plan.status == status,
        plan.body == body_plan(status, fields_of(upstream@)),
        fields_of(plan.headers@) == planned_fields(status, fields_of(upstream@)),
{
    let mut headers: Vec<Header> = Vec::new();
    let names = copied_list();
    pick_each(&mut headers, upstream, names.as_slice());
    assert(fields_of(headers@) =~= selected(fields_of(upstream@), copied_names()));
    let body = if !status_is_success(status) && status != PARTIAL_CONTENT {
        BodyPlan::Relay
    } else if declares_playlist(upstream) {
        BodyPlan::Rewrite
    } else {
        pick(&mut headers, upstream, "content-length");
        BodyPlan::Stream
    };
    ResponsePlan { status, headers, body }
}

/// The decimal digits of `n`, as ASCII bytes.
pub open spec fn decimal(n: nat) -> Seq<u8>
    decreases n,
{
    if n < 10 {
        seq![(48 + n) as u8]
    } else {
        decimal(n / 10).push((48 + n % 10) as u8)
    }
}

/// Appends the decimal digits of `n` to `out`.
fn push_decimal(out: &mut Vec<u8>, n: usize)
    ensures
        final(out)@ == old(out)@ + decimal(n as nat),
    decreases n,
{
    if n < 10 {
        out.push(48 + n as u8);
        assert(out@ =~= old(out)@ + decimal(n as nat));
    } else {
        push_decimal(out, n / 10);
        out.push(48 + (n % 10) as u8);
        assert(out@ =~= old(out)@ + decimal(n as nat));
    }
}

/// The `content-length` field of a body that is the text `body`.
pub open spec fn length_field(body: Seq<char>) -> Fields {
    seq![("content-length"@, decimal(encode_utf8(body).len()))]
}

impl ResponsePlan {
    /// The answer that relays `text`, the upstream's body read as text: the planned
    /// status and headers, and the text as the body.
    pub fn relay(self, text: String) -> (response: Response)
        ensures
            response.status == self.status,
            fields_of(response.headers@) == fields_of(self.headers@),
            response.body@ == text@,
    {
        Response { status: self.status, headers: self.headers, body: text }
    }

    /// The answer for a playlist whose text is `body`, fetched from `url`: the
    /// planned status and headers, the rewritten playlist as the body, and its
    /// length in bytes as `content-length`.
    pub fn rewrite(self, body: &str, url: &str, cookie: Option<&str>) -> (response: Response)
        ensures
            response.status == self.status,
            response.body@ == rewritten_playlist(body@, url@, text_of(cookie)),
            fields_of(response.headers@) == fields_of(self.headers@) + length_field(
                response.body@,
            ),
    {
        let rewritten = rewrite_playlist(body, url, cookie);
        let mut digits: Vec<u8> = Vec::new();
        push_decimal(&mut digits, rewritten.as_str().as_bytes().len());
        assert(digits@ =~= decimal(encode_utf8(rewritten@).len()));
        let mut headers = self.headers;
        headers.push(Header::new("content-length", digits.as_slice()));
        assert(fields_of(headers@) =~= fields_of(self.headers@) + length_field(rewritten@));
        Response { status: self.status, headers, body: rewritten }
    }

    /// The answer for a playlist whose body could not be read as text: status 500,
    /// the planned headers, and a body that says what went wrong.
    pub fn unreadable(self, description: &str) -> (response: Response)
        ensures
            response.status == INTERNAL_SERVER_ERROR,
            fields_of(response.headers@) == fields_of(self.headers@),
            response.body@ == UNREADABLE_BODY_PREFIX@ + description@,
    {
        let mut body = UNREADABLE_BODY_PREFIX.to_owned();
        body.append(description);
        Response { status: INTERNAL_SERVER_ERROR, headers: self.headers, body }
    }
}

/// The answer when the upstream could not be reached: status 500, no headers, and a
/// body that says what went wrong.
pub fn transport_failure(description: &str) -> (response: Response)
    ensures
        response.status == INTERNAL_SERVER_ERROR,
        response.headers@.len() == 0,
        response.body@ == TRANSPORT_FAILURE_PREFIX@ + description@,
{
    let mut body = TRANSPORT_FAILURE_PREFIX.to_owned();
    body.append(description);
    Response { status: INTERNAL_SERVER_ERROR, headers: Vec::new(), body }
}

/// The start of `url` that is shown in a log line: its first `PREVIEW_LENGTH`
/// characters, or all of it where it is shorter.
pub fn url_preview(url: &str) -> (preview: String)
    ensures
        preview@ == if url@.len() <= PREVIEW_LENGTH {
            url@
        } else {
            url@.take(PREVIEW_LENGTH as int)
        },
{
    let chars = chars_of(url);
    if chars.len() <= PREVIEW_LENGTH {
        string_of(chars.as_slice())
    } else {
        string_of(vstd::slice::slice_subrange(chars.as_slice(), 0, PREVIEW_LENGTH))
    }
}

/// The names on the list of conditional and range headers are all different, and
/// none of them is `User-Agent`, `Referer` or `Cookie`.
proof fn lemma_conditional_names()
    ensures
        distinct_names(conditional_names()),
        !is_listed(conditional_names(), "User-Agent"@),
        !is_listed(conditional_names(), "Referer"@),
        !is_listed(conditional_names(), "Cookie"@),
{
    reveal_strlit("range");
    reveal_strlit("if-range");
    reveal_strlit("if-match");
    reveal_strlit("if-none-match");
    reveal_strlit("if-modified-since");
    reveal_strlit("if-unmodified-since");
    reveal_strlit("User-Agent");
    reveal_strlit("Referer");
    reveal_strlit("Cookie");
    assert(!same_name("if-range"@, "if-match"@)) by {
        assert(folded("if-range"@[3]) != folded("if-match"@[3]));
    }
}

/// The names on the list of copied headers are all different, and none of them is
/// `content-length`.
proof fn lemma_copied_names()
    ensures
        distinct_names(copied_names()),
        !is_listed(copied_names(), "content-length"@),
{
    reveal_strlit("content-type");
    reveal_strlit("content-range");
    reveal_strlit("accept-ranges");
    reveal_strlit("cache-control");
    reveal_strlit("etag");
    reveal_strlit("last-modified");
    reveal_strlit("content-length");
    assert(!same_name("content-range"@, "accept-ranges"@)) by {
        assert(folded("content-range"@[0]) != folded("accept-ranges"@[0]));
    }
    assert(!same_name("content-range"@, "cache-control"@)) by {
        assert(folded("content-range"@[1]) != folded("cache-control"@[1]));
    }
    assert(!same_name("content-range"@, "last-modified"@)) by {
        assert(folded("content-range"@[0]) != folded("last-modified"@[0]));
    }
    assert(!same_name("accept-ranges"@, "cache-control"@)) by {
        assert(folded("accept-ranges"@[0]) != folded("cache-control"@[0]));
    }
    assert(!same_name("accept-ranges"@, "last-modified"@)) by {
        assert(folded("accept-ranges"@[0]) != folded("last-modified"@[0]));
    }
    assert(!same_name("cache-control"@, "last-modified"@)) by {
        assert(folded("cache-control"@[0]) != folded("last-modified"@[0]));
    }
}

/// The fields that every upstream request starts with hold nothing under a name
/// that is none of theirs.
proof fn lemma_fixed_fields(
    cookie: Option<Seq<char>>,
    wanted_referer: Option<Seq<char>>,
    inbound: Fields,
    name: Seq<char>,
)
    requires
        !same_name("User-Agent"@, name),
        !same_name("Referer"@, name),
        !same_name("Cookie"@, name),
    ensures
        values_of(
            seq![("User-Agent"@, user_agent(inbound)), ("Referer"@, referer(wanted_referer))]
                + cookie_field(cookie),
            name,
        ) == Seq::<Seq<u8>>::empty(),
{
    let two = seq![("User-Agent"@, user_agent(inbound)), ("Referer"@, referer(wanted_referer))];
    let one = two.drop_last();
    assert(one.len() == 1 && one.last() == two[0]);
    assert(one.drop_last() =~= Seq::<(Seq<char>, Seq<u8>)>::empty());
    assert(values_of(one.drop_last(), name) =~= Seq::<Seq<u8>>::empty());
    assert(values_of(one, name) =~= Seq::<Seq<u8>>::empty());
    assert(two.last() == two[1]);
    assert(values_of(two, name) =~= Seq::<Seq<u8>>::empty());
    let third = cookie_field(cookie);
    if third.len() > 0 {
        assert(third.drop_last() =~= Seq::<(Seq<char>, Seq<u8>)>::empty());
    }
    assert(values_of(third, name) =~= Seq::<Seq<u8>>::empty());
    lemma_values_of_concat(two, third, name);
}

/// Of the conditional and range headers, the upstream is sent exactly those that
/// the caller sent: under each name of the list the upstream request holds the
/// caller's value once where the caller sent the header, and nothing where it did
/// not.
pub proof fn law_conditional_headers_forwarded(
    cookie: Option<Seq<char>>,
    wanted_referer: Option<Seq<char>>,
    inbound: Fields,
    name: Seq<char>,
)
    requires
        is_listed(conditional_names(), name),
    ensures
        values_of(upstream_fields(cookie, wanted_referer, inbound), name) == forwarded(
            inbound,
            name,
        ),
{
    lemma_conditional_names();
    let names = conditional_names();
    let k = choose|k: int| 0 <= k < names.len() && same_name(#[trigger] names[k], name);
    lemma_same_name(names[k], name, names[k]);
    lemma_same_name("User-Agent"@, name, names[k]);
    lemma_same_name("Referer"@, name, names[k]);
    lemma_same_name("Cookie"@, name, names[k]);
    lemma_fixed_fields(cookie, wanted_referer, inbound, name);
    lemma_values_of_selected(inbound, names, name);
    let fixed = seq![("User-Agent"@, user_agent(inbound)), ("Referer"@, referer(wanted_referer))]
        + cookie_field(cookie);
    lemma_values_of_concat(fixed, selected(inbound, names), name);
    assert(Seq::<Seq<u8>>::empty() + forwarded(inbound, name) =~= forwarded(inbound, name));
}

/// No other header of the caller reaches the upstream: under a name that is not on
/// the list of conditional and range headers, and is none of `User-Agent`,
/// `Referer` and `Cookie`, the upstream request holds nothing.
pub proof fn law_other_headers_withheld(
    cookie: Option<Seq<char>>,
    wanted_referer: Option<Seq<char>>,
    inbound: Fields,
    name: Seq<char>,
)
    requires
        !is_listed(conditional_names(), name),
        !same_name("User-Agent"@, name),
        !same_name("Referer"@, name),
        !same_name("Cookie"@, name),
    ensures
        values_of(upstream_fields(cookie, wanted_referer, inbound), name) == Seq::<
            Seq<u8>,
        >::empty(),
{
    lemma_conditional_names();
    lemma_fixed_fields(cookie, wanted_referer, inbound, name);
    lemma_values_of_selected(inbound, conditional_names(), name);
    let fixed = seq![("User-Agent"@, user_agent(inbound)), ("Referer"@, referer(wanted_referer))]
        + cookie_field(cookie);
    lemma_values_of_concat(fixed, selected(inbound, conditional_names()), name);
}

/// An answer that succeeded, or is partial content, and declares no playlist is
/// streamed: its status is kept, each copied header is passed on once where the
/// upstream sent it, and `content-length` is passed on exactly where the upstream
/// sent one.
pub proof fn law_media_is_streamed(status: u16, upstream: Fields, name: Seq<char>)
    requires
        is_success(status) || status == PARTIAL_CONTENT,
        !is_playlist_type(content_type(upstream)),
    ensures
        body_plan(status, upstream) == BodyPlan::Stream,
        values_of(planned_fields(status, upstream), "content-length"@) == forwarded(
            upstream,
            "content-length"@,
        ),
        is_listed(copied_names(), name) ==> values_of(planned_fields(status, upstream), name)
            == forwarded(upstream, name),
{
    lemma_copied_names();
    let copied = selected(upstream, copied_names());
    let length = picked(upstream, "content-length"@);
    lemma_values_of_concat(copied, length, "content-length"@);
    lemma_values_of_selected(upstream, copied_names(), "content-length"@);
    lemma_values_of_picked(upstream, "content-length"@, "content-length"@);
    lemma_same_name("content-length"@, "content-length"@, "content-length"@);
    assert(Seq::<Seq<u8>>::empty() + forwarded(upstream, "content-length"@) =~= forwarded(
        upstream,
        "content-length"@,
    ));
    if is_listed(copied_names(), name) {
        let names = copied_names();
        let k = choose|k: int| 0 <= k < names.len() && same_name(#[trigger] names[k], name);
        lemma_same_name(names[k], name, names[k]);
        lemma_same_name("content-length"@, name, names[k]);
        lemma_values_of_concat(copied, length, name);
        lemma_values_of_selected(upstream, names, name);
        lemma_values_of_picked(upstream, "content-length"@, name);
        assert(forwarded(upstream, name) + Seq::<Seq<u8>>::empty() =~= forwarded(upstream, name));
    }
}

/// No other header of the upstream reaches the caller: under a name that is not on
/// the list of copied headers, and is not `content-length`, the planned answer
/// holds nothing, whatever is done with the body.
pub proof fn law_other_answer_headers_withheld(status: u16, upstream: Fields, name: Seq<char>)
    requires
        !is_listed(copied_names(), name),
        !same_name("content-length"@, name),
    ensures
        values_of(planned_fields(status, upstream), name) == Seq::<Seq<u8>>::empty(),
{
    lemma_copied_names();
    lemma_values_of_selected(upstream, copied_names(), name);
    lemma_values_of_picked(upstream, "content-length"@, name);
    lemma_values_of_concat(
        selected(upstream, copied_names()),
        picked(upstream, "content-length"@),
        name,
    );
}

/// An answer that neither succeeded nor is partial content is relayed: whatever
/// its headers say, its body is read as text, and the plan keeps the status and
/// passes on the copied headers only, with no `content-length`.
pub proof fn law_failure_is_relayed(status: u16, upstream: Fields)
    requires
        !is_success(status),
        status != PARTIAL_CONTENT,
    ensures
        body_plan(status, upstream) == BodyPlan::Relay,
        planned_fields(status, upstream) == selected(upstream, copied_names()),
        values_of(planned_fields(status, upstream), "content-length"@) == Seq::<
            Seq<u8>,
        >::empty(),
{
    lemma_copied_names();
    lemma_values_of_selected(upstream, copied_names(), "content-length"@);
}

} // verus!
