//! What the local HTTP endpoint of the bridge does about a request, and what it replies.
use crate::clock;
use crate::event::BridgeEvent;
use crate::request;
use crate::request::Request;
use crate::runtime::RuntimeState;
use crate::text;
use crate::text::same_text;
use vstd::prelude::*;

verus! {

/// What is to be done about a request.
#[derive(Debug)]
pub enum Route {
    /// The request is answered at once.
    Respond(Reply),
    /// The body holds an event, as JSON still to be read.
    Event(Vec<u8>),
}

/// A reply: its status and its body.
#[derive(Debug)]
pub struct Reply {
    pub status: u16,
    pub body: &'static str,
}

/// The contents of a [`Reply`].
pub ghost struct ReplyView {
    pub status: u16,
    pub body: Seq<char>,
}

impl View for Reply {
    type V = ReplyView;

    open spec fn view(&self) -> ReplyView {
        ReplyView { status: self.status, body: self.body@ }
    }
}

/// The contents of a [`Route`].
pub ghost enum RouteView {
    Respond(ReplyView),
    Event(Seq<u8>),
}

impl View for Route {
    type V = RouteView;

    open spec fn view(&self) -> RouteView {
        match self {
            Route::Respond(reply) => RouteView::Respond(reply@),
            Route::Event(body) => RouteView::Event(body@),
        }
    }
}

/// What is to be done about what was read: nothing readable is a bad request, `OPTIONS` is
/// granted, and only a `POST` to `/event` brings an event.
pub open spec fn route_of(request: Result<request::RequestView, Seq<char>>) -> RouteView {
    match request {
        Err(_) => RouteView::Respond(ReplyView { status: 400, body: "{}"@ }),
        Ok(request) => if request.method == "OPTIONS"@ {
            RouteView::Respond(ReplyView { status: 204, body: ""@ })
        } else if request.method != "POST"@ || request.path != "/event"@ {
            RouteView::Respond(ReplyView { status: 404, body: "{}"@ })
        } else {
            RouteView::Event(request.body)
        },
    }
}

/// What is to be done about what was read from a connection.
pub fn route_request(request: Result<Request, String>) -> (route: Route)
    ensures
        route@ == route_of(request::request_result(request)),
{
    match request {
        Err(_) => Route::Respond(Reply { status: 400, body: "{}" }),
        Ok(request) => {
            if same_text(request.method.as_str(), "OPTIONS") {
                Route::Respond(Reply { status: 204, body: "" })
            } else if !same_text(request.method.as_str(), "POST") || !same_text(
                request.path.as_str(),
                "/event",
            ) {
                Route::Respond(Reply { status: 404, body: "{}" })
            } else {
                Route::Event(request.body)
            }
        },
    }
}

/// The reply to an event that was read, or could not be read.
pub open spec fn event_reply<E, T>(parsed: Result<E, T>) -> ReplyView {
    match parsed {
        Ok(_) => ReplyView { status: 200, body: "{\"ok\":true}"@ },
        Err(_) => ReplyView { status: 400, body: "{}"@ },
    }
}

impl RuntimeState {
    /// Deals with the event of a request, and replies to it.
    pub fn answer_event(&mut self, parsed: Result<BridgeEvent, String>) -> (reply: Reply)
        requires
            old(self).wf(),
            old(self)@.next_log_id < u64::MAX,
        ensures
            final(self).wf(),
            exists|ts: u64|
                clock::is_reading(ts)
                    && final(self)@ == #[trigger] old(self)@.after_parsed(
                    ts,
                    crate::event::parsed_of(parsed),
                ),
            reply@ == event_reply(parsed),
    {
        let ts = clock::now_ms();
        let reply = self.answer_event_at(ts, parsed);
        assert(self@ == old(self)@.after_parsed(ts, crate::event::parsed_of(parsed)));
        reply
    }

    /// Deals with the event of a request at the time `ts`, and replies to it.
    pub fn answer_event_at(&mut self, ts: u64, parsed: Result<BridgeEvent, String>) -> (reply:
        Reply)
        requires
            old(self).wf(),
            old(self)@.next_log_id < u64::MAX,
        ensures
            final(self).wf(),
            final(self)@ == old(self)@.after_parsed(ts, crate::event::parsed_of(parsed)),
            reply@ == event_reply(parsed),
    {
        let reply = match &parsed {
            Ok(_) => Reply { status: 200, body: "{\"ok\":true}" },
            Err(_) => Reply { status: 400, body: "{}" },
        };
        self.apply_parsed_event_at(ts, parsed);
        reply
    }
}

/// The reason phrase of a status.
pub open spec fn reason_of(status: u16) -> Seq<char> {
    if status == 204 {
        "No Content"@
    } else if status == 400 {
        "Bad Request"@
    } else if status == 404 {
        "Not Found"@
    } else {
        "OK"@
    }
}

/// The reason phrase of a status.
fn reason(status: u16) -> (phrase: &'static str)
    ensures
        phrase@ == reason_of(status),
{
    match status {
        204 => "No Content",
        400 => "Bad Request",
        404 => "Not Found",
        _ => "OK",
    }
}

/// The lines of the head of a reply whose body has `length` bytes.
pub open spec fn reply_lines(status: u16, length: nat) -> Seq<Seq<char>> {
    seq![
        "HTTP/1.1 "@ + text::decimal(status as nat) + " "@ + reason_of(status),
        "Access-Control-Allow-Origin: *"@,
        "Access-Control-Allow-Methods: POST, OPTIONS"@,
        "Access-Control-Allow-Headers: content-type"@,
        "Content-Type: application/json"@,
        "Content-Length: "@ + text::decimal(length),
        "Connection: close"@,
    ]
}

/// The reply as it goes over the wire.
pub open spec fn response_text(status: u16, body: Seq<char>) -> Seq<char> {
    text::join_lines(reply_lines(status, vstd::utf8::encode_utf8(body).len())) + "\r\n\r\n"@ + body
}

/// The reply as it goes over the wire.
pub fn format_response(status: u16, body: &str) -> (response: String)
    ensures
        response@ == response_text(status, body@),
{
    let length: usize = body.as_bytes().len();
    let mut response = "HTTP/1.1 ".to_string();
    text::push_decimal(&mut response, status as u64);
    response.append(" ");
    response.append(reason(status));
    response.append("\r\n");
    response.append("Access-Control-Allow-Origin: *");
    response.append("\r\n");
    response.append("Access-Control-Allow-Methods: POST, OPTIONS");
    response.append("\r\n");
    response.append("Access-Control-Allow-Headers: content-type");
    response.append("\r\n");
    response.append("Content-Type: application/json");
    response.append("\r\n");
    response.append("Content-Length: ");
    text::push_decimal(&mut response, length as u64);
    response.append("\r\n");
    response.append("Connection: close");
    proof {
        lemma_join_reply_lines(status, length as nat);
        assert(response@ =~= text::join_lines(reply_lines(status, length as nat)));
    }
    response.append("\r\n\r\n");
    response.append(body);
    response
}

proof fn lemma_join_reply_lines(status: u16, length: nat)
    ensures
        ({
            let l = reply_lines(status, length);
            text::join_lines(l) == l[0] + "\r\n"@ + (l[1] + "\r\n"@ + (l[2] + "\r\n"@ + (l[3]
                + "\r\n"@ + (l[4] + "\r\n"@ + (l[5] + "\r\n"@ + l[6])))))
        }),
{
    let l = reply_lines(status, length);
    reveal_with_fuel(text::join_lines, 7);
    let l1 = l.drop_first();
    let l2 = l1.drop_first();
    let l3 = l2.drop_first();
    let l4 = l3.drop_first();
    let l5 = l4.drop_first();
    let l6 = l5.drop_first();
    assert(l6.len() == 1 && l6[0] == l[6]);
}

/// A request that is not a `POST` to `/event` brings no event, and so leaves the state as it is.
pub proof fn law_only_posts_to_event_bring_events(request: Result<request::RequestView, Seq<char>>)
    ensures
        route_of(request) is Event <==> (request matches Ok(r) && r.method == "POST"@ && r.path
            == "/event"@),
        route_of(request) matches RouteView::Event(body) ==> body == request->Ok_0.body,
{
    reveal_strlit("OPTIONS");
    reveal_strlit("POST");
    assert("OPTIONS"@.len() != "POST"@.len());
}

/// The body of a reply stands behind the end of its head, and the head announces its length in
/// bytes.
pub proof fn law_reply_announces_its_body(status: u16, body: Seq<char>)
    requires
        vstd::utf8::encode_utf8(body).len() <= usize::MAX,
    ensures
        ({
            let bytes = vstd::utf8::encode_utf8(response_text(status, body));
            &&& request::header_end(bytes) matches Some(end)
            &&& bytes.skip(end + 4) == vstd::utf8::encode_utf8(body)
            &&& request::announced_length(
                text::lines(request::text_in(bytes.take(end))).skip(1),
            ) == vstd::utf8::encode_utf8(body).len()
        }),
{
    let length = vstd::utf8::encode_utf8(body).len();
    let lines = reply_lines(status, length);
    let head = text::join_lines(lines);
    let head_bytes = vstd::utf8::encode_utf8(head);
    let blank = "\r\n\r\n"@;
    let body_bytes = vstd::utf8::encode_utf8(body);
    let bytes = vstd::utf8::encode_utf8(response_text(status, body));
    reveal_strlit("\r\n\r\n");
    assert(vstd::utf8::is_ascii_chars(blank));
    vstd::utf8::is_ascii_chars_encode_utf8(blank);
    assert(vstd::utf8::encode_utf8(blank) =~= seq![13u8, 10, 13, 10]);
    text::lemma_encode_concat(head + blank, body);
    text::lemma_encode_concat(head, blank);
    assert(bytes =~= head_bytes + seq![13u8, 10, 13, 10] + body_bytes);
    lemma_reply_lines(status, length);
    request::law_written_head_ends_behind_its_lines(lines, body_bytes);
    let end = head_bytes.len() as int;
    assert(bytes.skip(end + 4) =~= body_bytes);
    assert(bytes.take(end) =~= head_bytes);
    vstd::utf8::encode_utf8_valid_utf8(head);
    vstd::utf8::encode_utf8_decode_utf8(head);
    text::law_joined_lines_split(lines);
    lemma_announced(status, length);
}

proof fn lemma_reply_lines(status: u16, length: nat)
    ensures
        forall|i: int|
            0 <= i < reply_lines(status, length).len() ==> text::is_line(
                #[trigger] reply_lines(status, length)[i],
            ),
{
    let l = reply_lines(status, length);
    let code = text::decimal(status as nat);
    let digits = text::decimal(length);
    text::lemma_decimal_digits(status as nat);
    text::lemma_decimal_digits(length);
    assert(text::is_line(reason_of(status))) by {
        reveal_strlit("No Content");
        reveal_strlit("Bad Request");
        reveal_strlit("Not Found");
        reveal_strlit("OK");
    }
    assert(text::is_line(l[0])) by {
        reveal_strlit("HTTP/1.1 ");
        reveal_strlit(" ");
        let n = 9 + code.len();
        assert forall|i: int| 0 <= i < l[0].len() implies {
            &&& #[trigger] l[0][i] != '\r'
            &&& l[0][i] != '\n'
        } by {
            if 9 <= i < n {
                assert(l[0][i] == code[i - 9]);
            } else if i > n {
                assert(l[0][i] == reason_of(status)[i - n - 1]);
            }
        }
    }
    assert(text::is_line(l[1])) by {
        reveal_strlit("Access-Control-Allow-Origin: *");
    }
    assert(text::is_line(l[2])) by {
        reveal_strlit("Access-Control-Allow-Methods: POST, OPTIONS");
    }
    assert(text::is_line(l[3])) by {
        reveal_strlit("Access-Control-Allow-Headers: content-type");
    }
    assert(text::is_line(l[4])) by {
        reveal_strlit("Content-Type: application/json");
    }
    assert(text::is_line(l[5])) by {
        reveal_strlit("Content-Length: ");
        assert forall|i: int| 0 <= i < l[5].len() implies {
            &&& #[trigger] l[5][i] != '\r'
            &&& l[5][i] != '\n'
        } by {
            if 16 <= i {
                assert(l[5][i] == digits[i - 16]);
            }
        }
    }
    assert(text::is_line(l[6])) by {
        reveal_strlit("Connection: close");
    }
}

/// A field of another name is passed over.
proof fn lemma_other_field(lines: Seq<Seq<char>>, colon: int)
    requires
        lines.len() > 0,
        0 <= colon < lines[0].len(),
        colon != 14,
        lines[0][colon] == ':',
        forall|i: int| 0 <= i < colon ==> #[trigger] lines[0][i] != ':',
    ensures
        request::announced_length(lines) == request::announced_length(lines.drop_first()),
{
    text::lemma_find_char_at(lines[0], ':', colon);
    reveal_strlit("content-length");
    assert(lines[0].take(colon).len() != "content-length"@.len());
}

proof fn lemma_announced(status: u16, length: nat)
    requires
        length <= usize::MAX,
    ensures
        request::announced_length(reply_lines(status, length).skip(1)) == length,
{
    let l = reply_lines(status, length);
    let from1 = l.skip(1);
    let from2 = l.skip(2);
    let from3 = l.skip(3);
    let from4 = l.skip(4);
    let from5 = l.skip(5);
    assert(from1.drop_first() =~= from2);
    assert(from2.drop_first() =~= from3);
    assert(from3.drop_first() =~= from4);
    assert(from4.drop_first() =~= from5);
    assert(request::announced_length(from1) == request::announced_length(from2)) by {
        reveal_strlit("Access-Control-Allow-Origin: *");
        lemma_other_field(from1, 27);
    }
    assert(request::announced_length(from2) == request::announced_length(from3)) by {
        reveal_strlit("Access-Control-Allow-Methods: POST, OPTIONS");
        lemma_other_field(from2, 28);
    }
    assert(request::announced_length(from3) == request::announced_length(from4)) by {
        reveal_strlit("Access-Control-Allow-Headers: content-type");
        lemma_other_field(from3, 28);
    }
    assert(request::announced_length(from4) == request::announced_length(from5)) by {
        reveal_strlit("Content-Type: application/json");
        lemma_other_field(from4, 12);
    }
    request::lemma_length_field(length, from5.drop_first());
    assert(from5 =~= seq![l[5]] + from5.drop_first());
}

/// An event that is posted arrives: whatever its body and however the request is cut up on its
/// way, the body is what is read as the event.
pub proof fn law_posted_event_arrives(reads: Seq<Seq<u8>>, body: Seq<u8>)
    requires
        forall|i: int| 0 <= i < reads.len() ==> (#[trigger] reads[i]).len() > 0,
        reads.flatten() == request::plain_request("POST"@, "/event"@, body),
        body.len() <= request::MAX_BODY,
    ensures
        route_of(request::read_to_end(request::ReaderView::initial(), reads)) == RouteView::Event(
            body,
        ),
{
    let lines = request::plain_lines("POST"@, "/event"@, body.len());
    let head = text::join_lines(lines);
    let digits = text::decimal(body.len());
    reveal_strlit("POST");
    reveal_strlit("/event");
    reveal_strlit("OPTIONS");
    request::lemma_plain_lines("POST"@, "/event"@, body.len());
    request::law_written_head_ends_behind_its_lines(lines, body);
    text::lemma_decimal_digits(body.len());
    lemma_short_decimal(body.len());
    assert(head == lines[0] + "\r\n"@ + lines[1]) by {
        reveal_with_fuel(text::join_lines, 2);
        assert(lines.drop_first()[0] == lines[1]);
    }
    assert(vstd::utf8::encode_utf8(head).len() <= 100) by {
        reveal_strlit(" ");
        reveal_strlit(" HTTP/1.1");
        reveal_strlit("\r\n");
        reveal_strlit("Content-Length: ");
        assert forall|i: int| 0 <= i < head.len() implies '\0' <= #[trigger] head[i]
            <= '\u{7f}' by {
            if i >= 38 {
                assert(head[i] == digits[i - 38]);
            }
        }
        vstd::utf8::is_ascii_chars_encode_utf8(head);
    }
    request::law_reads_may_be_cut_anywhere(reads);
    request::law_request_gives_back_what_was_written("POST"@, "/event"@, body);
    assert("OPTIONS"@.len() != "POST"@.len());
}

proof fn lemma_short_decimal(n: nat)
    requires
        n < 100_000_000,
    ensures
        text::decimal(n).len() <= 8,
{
    reveal_with_fuel(text::decimal, 8);
}

/// What cannot be read is a bad request, `OPTIONS` is granted on any path, a `POST` to `/event` is
/// read as an event, and anything else is not found.
pub proof fn law_every_request_has_its_answer(request: Result<request::RequestView, Seq<char>>)
    ensures
        request is Err ==> route_of(request) == RouteView::Respond(
            ReplyView { status: 400, body: "{}"@ },
        ),
        request matches Ok(r) ==> {
            &&& r.method == "OPTIONS"@ ==> route_of(request) == RouteView::Respond(
                ReplyView { status: 204, body: ""@ },
            )
            &&& r.method == "POST"@ && r.path == "/event"@ ==> route_of(request)
                == RouteView::Event(r.body)
            &&& r.method == "POST"@ && r.path != "/event"@ ==> route_of(request)
                == RouteView::Respond(ReplyView { status: 404, body: "{}"@ })
            &&& r.method != "POST"@ && r.method != "OPTIONS"@ ==> route_of(request)
                == RouteView::Respond(ReplyView { status: 404, body: "{}"@ })
        },
{
    reveal_strlit("OPTIONS");
    reveal_strlit("POST");
    assert("OPTIONS"@.len() != "POST"@.len());
}

/// An event that was read is confirmed, and one that could not be read is a bad request.
pub proof fn law_event_is_confirmed_or_refused<E, T>(parsed: Result<E, T>)
    ensures
        parsed is Ok ==> event_reply(parsed) == (ReplyView {
            status: 200,
            body: "{\"ok\":true}"@,
        }),
        parsed is Err ==> event_reply(parsed) == (ReplyView { status: 400, body: "{}"@ }),
{
}

/// The head of a reply, read as lines: the status with its reason, leave for a page of any origin
/// to post JSON, the kind and the length of the body, and that the connection is closed.
pub proof fn law_reply_head_says(status: u16, body: Seq<char>)
    ensures
        ({
            let bytes = vstd::utf8::encode_utf8(response_text(status, body));
            let reason = if status == 204 {
                "No Content"@
            } else if status == 400 {
                "Bad Request"@
            } else if status == 404 {
                "Not Found"@
            } else {
                "OK"@
            };
            &&& request::header_end(bytes) matches Some(end)
            &&& text::lines(request::text_in(bytes.take(end))) == seq![
                "HTTP/1.1 "@ + text::decimal(status as nat) + " "@ + reason,
                "Access-Control-Allow-Origin: *"@,
                "Access-Control-Allow-Methods: POST, OPTIONS"@,
                "Access-Control-Allow-Headers: content-type"@,
                "Content-Type: application/json"@,
                "Content-Length: "@ + text::decimal(vstd::utf8::encode_utf8(body).len()),
                "Connection: close"@,
            ]
            &&& bytes.skip(end + 4) == vstd::utf8::encode_utf8(body)
        }),
{
    let length = vstd::utf8::encode_utf8(body).len();
    let lines = reply_lines(status, length);
    let head = text::join_lines(lines);
    let head_bytes = vstd::utf8::encode_utf8(head);
    let blank = "\r\n\r\n"@;
    let body_bytes = vstd::utf8::encode_utf8(body);
    let bytes = vstd::utf8::encode_utf8(response_text(status, body));
    reveal_strlit("\r\n\r\n");
    assert(vstd::utf8::is_ascii_chars(blank));
    vstd::utf8::is_ascii_chars_encode_utf8(blank);
    assert(vstd::utf8::encode_utf8(blank) =~= seq![13u8, 10, 13, 10]);
    text::lemma_encode_concat(head + blank, body);
    text::lemma_encode_concat(head, blank);
    assert(bytes =~= head_bytes + seq![13u8, 10, 13, 10] + body_bytes);
    lemma_reply_lines(status, length);
    request::law_written_head_ends_behind_its_lines(lines, body_bytes);
    let end = head_bytes.len() as int;
    assert(bytes.skip(end + 4) =~= body_bytes);
    assert(bytes.take(end) =~= head_bytes);
    vstd::utf8::encode_utf8_valid_utf8(head);
    vstd::utf8::encode_utf8_decode_utf8(head);
    text::law_joined_lines_split(lines);
}

/// The contents of a reply are its status and its body, and those of a route are the reply or the
/// body of the event.
pub proof fn law_reply_shows_its_fields(reply: Reply, body: Vec<u8>)
    ensures
        reply@.status == reply.status,
        reply@.body == reply.body@,
        Route::Respond(reply)@ == RouteView::Respond(reply@),
        Route::Event(body)@ == RouteView::Event(body@),
{
}

} // verus!
