//! The navigation bridge: the controller reports events by navigating to URLs of a scheme of its
//! own, which are taken out of the navigation.
use crate::chunks::MAX_CHUNKS;
use crate::clock;
use crate::outside;
use crate::runtime;
use crate::runtime::{RuntimeState, RuntimeView};
use crate::text;
use crate::text::{chars_of, read_usize, same_text};
use url::Url;
use vstd::prelude::*;

verus! {

/// The scheme of the URLs by which the controller reports.
pub const BRIDGE_SCHEME: &'static str = "button-automation";

/// The value of `name` in a query: the last one where there are several.
pub open spec fn query_value(pairs: Seq<(Seq<char>, Seq<char>)>, name: Seq<char>) -> Option<
    Seq<char>,
>
    decreases pairs.len(),
{
    if pairs.len() == 0 {
        None
    } else if pairs.last().0 == name {
        Some(pairs.last().1)
    } else {
        query_value(pairs.drop_last(), name)
    }
}

/// The text of `name` in a query, empty where there is none.
pub open spec fn query_text(pairs: Seq<(Seq<char>, Seq<char>)>, name: Seq<char>) -> Seq<char> {
    match query_value(pairs, name) {
        Some(value) => value,
        None => Seq::empty(),
    }
}

/// The number of `name` in a query, and `default` where there is none or it is no number.
pub open spec fn query_number(
    pairs: Seq<(Seq<char>, Seq<char>)>,
    name: Seq<char>,
    default: usize,
) -> usize {
    match query_value(pairs, name) {
        Some(value) => match text::parse_usize(value) {
            Some(number) => number,
            None => default,
        },
        None => default,
    }
}

/// The chunk that a query describes, if it describes one that can be taken in.
pub open spec fn query_chunk(pairs: Seq<(Seq<char>, Seq<char>)>, now: u64) -> Option<
    crate::chunks::ChunkView,
> {
    let id = query_text(pairs, "id"@);
    let index = query_number(pairs, "index"@, usize::MAX);
    let total = query_number(pairs, "total"@, 0);
    let data = query_text(pairs, "data"@);
    if id.len() > 0 && 0 < total <= MAX_CHUNKS && index < total && data.len() > 0 {
        Some(
            crate::chunks::ChunkView { id, index: index as int, total: total as int, data, now },
        )
    } else {
        None
    }
}

/// What a navigation turned out to be.
#[derive(Debug)]
pub enum Navigation {
    /// An ordinary navigation, which goes on.
    Elsewhere,
    /// A report of the controller with no more to do.
    Handled,
    /// A report of the controller that makes an encoded payload whole.
    Payload(String),
}

/// The contents of a [`Navigation`].
pub ghost enum NavigationView {
    Elsewhere,
    Handled,
    Payload(Seq<char>),
}

impl View for Navigation {
    type V = NavigationView;

    open spec fn view(&self) -> NavigationView {
        match self {
            Navigation::Elsewhere => NavigationView::Elsewhere,
            Navigation::Handled => NavigationView::Handled,
            Navigation::Payload(data) => NavigationView::Payload(data@),
        }
    }
}

/// What came of a navigation.
#[derive(Debug)]
pub struct NavigationOutcome {
    /// Whether the navigation was a report of the controller, and does not go on.
    pub intercepted: bool,
    /// The event that was reported, as JSON still to be read.
    pub event: Option<Vec<u8>>,
}

/// The bytes of an event, where there is one.
pub open spec fn bytes_of(event: Option<Vec<u8>>) -> Option<Seq<u8>> {
    match event {
        Some(bytes) => Some(bytes@),
        None => None,
    }
}

/// The bytes that an encoded payload holds, or the message of the error.
pub open spec fn decoded_of(decoded: Result<Vec<u8>, String>) -> Result<Seq<u8>, Seq<char>> {
    match decoded {
        Ok(bytes) => Ok(bytes@),
        Err(error) => Err(error@),
    }
}

impl RuntimeView {
    /// The state after a navigation at the time `now` to a URL of the given scheme, host and
    /// query, and what the navigation turned out to be.
    pub open spec fn after_navigation(
        self,
        now: u64,
        scheme: Seq<char>,
        host: Option<Seq<char>>,
        pairs: Seq<(Seq<char>, Seq<char>)>,
    ) -> (RuntimeView, NavigationView) {
        if scheme != BRIDGE_SCHEME@ {
            (self, NavigationView::Elsewhere)
        } else {
            match host {
                None => (self, NavigationView::Handled),
                Some(host) => if host == "event"@ {
                    match query_value(pairs, "data"@) {
                        Some(data) => (self, NavigationView::Payload(data)),
                        None => (self, NavigationView::Handled),
                    }
                } else if host == "chunk"@ {
                    match query_chunk(pairs, now) {
                        Some(chunk) => {
                            let (buffers, payload) = crate::chunks::receive(
                                self.bridge_chunks,
                                chunk,
                            );
                            (
                                RuntimeView { bridge_chunks: buffers, ..self },
                                match payload {
                                    Some(data) => NavigationView::Payload(data),
                                    None => NavigationView::Handled,
                                },
                            )
                        },
                        None => (self, NavigationView::Handled),
                    }
                } else {
                    (
                        self.logged(
                            now,
                            "warn"@,
                            "알 수 없는 네비게이션 브리지 이벤트: "@ + host,
                        ),
                        NavigationView::Handled,
                    )
                },
            }
        }
    }

    /// The state after decoding a payload at the time `ts`, and the event in it.
    pub open spec fn after_decoding(
        self,
        ts: u64,
        decoded: Result<Seq<u8>, Seq<char>>,
    ) -> (RuntimeView, Option<Seq<u8>>) {
        match decoded {
            Ok(bytes) => (self, Some(bytes)),
            Err(error) => (
                self.logged(ts, "error"@, "브리지 payload 디코딩 실패: "@ + error),
                None,
            ),
        }
    }

    /// The state after a navigation to `url`, whether it is intercepted, and the event that it
    /// reports. The navigation comes at the time `now`; an error is logged at the time `ts`.
    pub open spec fn after_bridge(self, now: u64, ts: u64, url: Url) -> (
        RuntimeView,
        bool,
        Option<Seq<u8>>,
    ) {
        let (state, navigation) = self.after_navigation(
            now,
            outside::url_scheme(url),
            outside::url_host(url),
            outside::url_query(url),
        );
        match navigation {
            NavigationView::Elsewhere => (state, false, None),
            NavigationView::Handled => (state, true, None),
            NavigationView::Payload(data) => {
                let (after, event) = state.after_decoding(ts, outside::base64url_decoded(data));
                (after, true, event)
            },
        }
    }
}

/// The value of `name` in a query: the last one where there are several.
fn find_value(pairs: &Vec<(String, String)>, name: &str) -> (value: Option<String>)
    ensures
        crate::page::text_of(value) == query_value(outside::pairs_of(pairs@), name@),
{
    let ghost all = outside::pairs_of(pairs@);
    let mut i: usize = pairs.len();
    assert(all.take(i as int) =~= all);
    while i > 0
        invariant
            all == outside::pairs_of(pairs@),
            i <= pairs@.len(),
            query_value(all, name@) == query_value(all.take(i as int), name@),
        decreases i,
    {
        assert(all.take(i as int).last() == (pairs@[i - 1].0@, pairs@[i - 1].1@));
        assert(all.take(i as int).drop_last() =~= all.take(i - 1));
        if same_text(pairs[i - 1].0.as_str(), name) {
            return Some(pairs[i - 1].1.clone());
        }
        i -= 1;
    }
    None
}

/// The text of `name` in a query, empty where there is none.
fn find_text(pairs: &Vec<(String, String)>, name: &str) -> (value: String)
    ensures
        value@ == query_text(outside::pairs_of(pairs@), name@),
{
    match find_value(pairs, name) {
        Some(value) => value,
        None => String::new(),
    }
}

/// The number of `name` in a query, and `default` where there is none or it is no number.
fn find_number(pairs: &Vec<(String, String)>, name: &str, default: usize) -> (number: usize)
    ensures
        number == query_number(outside::pairs_of(pairs@), name@, default),
{
    match find_value(pairs, name) {
        Some(value) => match read_usize(chars_of(value.as_str()).as_slice()) {
            Some(number) => number,
            None => default,
        },
        None => default,
    }
}

impl RuntimeState {
    /// Deals with a navigation to `url`: a report of the controller is taken in and does not go
    /// on.
    pub fn handle_navigation_bridge(&mut self, url: &Url) -> (outcome: NavigationOutcome)
        requires
            old(self).wf(),
            old(self)@.next_log_id < u64::MAX,
        ensures
            final(self).wf(),
            exists|now: u64, ts: u64|
                clock::is_reading(now) && clock::is_reading(ts) && (
                    final(self)@,
                    outcome.intercepted,
                    bytes_of(outcome.event),
                ) == #[trigger] old(self)@.after_bridge(now, ts, *url),
    {
        let now = clock::now_ms();
        let pairs = outside::url_query_pairs(url);
        match self.route_navigation(now, url.scheme(), url.host_str(), &pairs) {
            Navigation::Elsewhere => {
                let outcome = NavigationOutcome { intercepted: false, event: None };
                assert((self@, outcome.intercepted, bytes_of(outcome.event)) == old(
                    self,
                )@.after_bridge(now, now, *url));
                outcome
            },
            Navigation::Handled => {
                let outcome = NavigationOutcome { intercepted: true, event: None };
                assert((self@, outcome.intercepted, bytes_of(outcome.event)) == old(
                    self,
                )@.after_bridge(now, now, *url));
                outcome
            },
            Navigation::Payload(data) => {
                let ts = clock::now_ms();
                let event = self.apply_encoded_bridge_event_at(ts, data.as_str());
                let outcome = NavigationOutcome { intercepted: true, event };
                assert((self@, outcome.intercepted, bytes_of(outcome.event)) == old(
                    self,
                )@.after_bridge(now, ts, *url));
                outcome
            },
        }
    }

    /// Deals with a navigation at the time `now` to a URL of the given scheme, host and query, up
    /// to the decoding of its payload.
    pub fn route_navigation(
        &mut self,
        now: u64,
        scheme: &str,
        host: Option<&str>,
        pairs: &Vec<(String, String)>,
    ) -> (navigation: Navigation)
        requires
            old(self).wf(),
            old(self)@.next_log_id < u64::MAX,
        ensures
            final(self).wf(),
            (final(self)@, navigation@) == old(self)@.after_navigation(
                now,
                scheme@,
                match host {
                    Some(h) => Some(h@),
                    None => None,
                },
                outside::pairs_of(pairs@),
            ),
    {
        if !same_text(scheme, BRIDGE_SCHEME) {
            return Navigation::Elsewhere;
        }
        let host = match host {
            Some(host) => host,
            None => {
                return Navigation::Handled;
            },
        };
        if same_text(host, "event") {
            match find_value(pairs, "data") {
                Some(data) => Navigation::Payload(data),
                None => Navigation::Handled,
            }
        } else if same_text(host, "chunk") {
            let id = find_text(pairs, "id");
            let index = find_number(pairs, "index", usize::MAX);
            let total = find_number(pairs, "total", 0);
            let data = find_text(pairs, "data");
            if !id.as_str().is_empty() && total > 0 && total <= MAX_CHUNKS && index < total
                && !data.as_str().is_empty() {
                proof {
                    let chunk = query_chunk(outside::pairs_of(pairs@), now)->0;
                    crate::chunks::law_kept_buffers_are_live(self@.bridge_chunks, chunk);
                    crate::chunks::law_kept_chunks_are_not_empty(self@.bridge_chunks, chunk);
                }
                match self.bridge_chunks.receive_chunk(id, index, total, data, now) {
                    Some(payload) => Navigation::Payload(payload),
                    None => Navigation::Handled,
                }
            } else {
                Navigation::Handled
            }
        } else {
            let message = "알 수 없는 네비게이션 브리지 이벤트: ".to_string().concat(host);
            self.push_log_at(now, "warn".to_string(), message);
            Navigation::Handled
        }
    }

    /// Decodes the payload of a report. Gives the event in it, or logs why it has none.
    pub fn apply_encoded_bridge_event(&mut self, data: &str) -> (event: Option<Vec<u8>>)
        requires
            old(self).wf(),
            old(self)@.next_log_id < u64::MAX,
        ensures
            final(self).wf(),
            exists|ts: u64|
                clock::is_reading(ts)
                    && (final(self)@, bytes_of(event)) == #[trigger] old(self)@.after_decoding(
                    ts,
                    outside::base64url_decoded(data@),
                ),
    {
        let ts = clock::now_ms();
        let event = self.apply_encoded_bridge_event_at(ts, data);
        assert((self@, bytes_of(event)) == old(self)@.after_decoding(
            ts,
            outside::base64url_decoded(data@),
        ));
        event
    }

    /// Decodes the payload of a report at the time `ts`. Gives the event in it, or logs why it has
    /// none.
    pub fn apply_encoded_bridge_event_at(&mut self, ts: u64, data: &str) -> (event: Option<Vec<u8>>)
        requires
            old(self).wf(),
            old(self)@.next_log_id < u64::MAX,
        ensures
            final(self).wf(),
            (final(self)@, bytes_of(event)) == old(self)@.after_decoding(
                ts,
                outside::base64url_decoded(data@),
            ),
    {
        let decoded = match outside::decode_base64url(data) {
            Ok(bytes) => Ok(bytes),
            Err(error) => Err(outside::decode_error_to_string(&error)),
        };
        self.apply_decoded(ts, decoded)
    }

    /// Gives the event in a payload that was decoded, or logs at the time `ts` why there is none.
    pub fn apply_decoded(&mut self, ts: u64, decoded: Result<Vec<u8>, String>) -> (event: Option<
        Vec<u8>,
    >)
        requires
            old(self).wf(),
            old(self)@.next_log_id < u64::MAX,
        ensures
            final(self).wf(),
            (final(self)@, bytes_of(event)) == old(self)@.after_decoding(ts, decoded_of(decoded)),
    {
        match decoded {
            Ok(bytes) => Some(bytes),
            Err(error) => {
                let message = "브리지 payload 디코딩 실패: ".to_string().concat(
                    error.as_str(),
                );
                self.push_log_at(ts, "error".to_string(), message);
                None
            },
        }
    }
}

/// A navigation is intercepted exactly where its URL has the scheme of the bridge; any other
/// leaves the state as it is and reports nothing.
pub proof fn law_only_bridge_urls_are_intercepted(state: RuntimeView, now: u64, ts: u64, url: Url)
    ensures
        state.after_bridge(now, ts, url).1 == (outside::url_scheme(url) == BRIDGE_SCHEME@),
        outside::url_scheme(url) != BRIDGE_SCHEME@ ==> state.after_bridge(now, ts, url) == (
            state,
            false,
            None::<Seq<u8>>,
        ),
{
}

/// A navigation neither starts nor stops clicking or picking, and touches nothing but the log and
/// the payloads under way.
pub proof fn law_navigation_touches_only_log_and_payloads(
    state: RuntimeView,
    now: u64,
    ts: u64,
    url: Url,
)
    ensures
        ({
            let after = state.after_bridge(now, ts, url).0;
            after == (RuntimeView {
                logs: after.logs,
                next_log_id: after.next_log_id,
                bridge_chunks: after.bridge_chunks,
                ..state
            })
        }),
{
}

/// The state after the first `n` of a run of chunk URLs, each with its query and its time.
pub open spec fn after_chunks(
    state: RuntimeView,
    queries: Seq<Seq<(Seq<char>, Seq<char>)>>,
    times: Seq<u64>,
    n: int,
) -> RuntimeView
    decreases n,
{
    if n <= 0 {
        state
    } else {
        after_chunks(state, queries, times, n - 1).after_navigation(
            times[n - 1],
            BRIDGE_SCHEME@,
            Some("chunk"@),
            queries[n - 1],
        ).0
    }
}

/// A payload comes to the same by chunk URLs as by one event URL: the last of the chunk URLs makes
/// the payload whole that the event URL would have brought.
pub proof fn law_chunks_bring_what_an_event_brings(
    state: RuntimeView,
    queries: Seq<Seq<(Seq<char>, Seq<char>)>>,
    times: Seq<u64>,
    chunks: Seq<crate::chunks::ChunkView>,
    id: Seq<char>,
    parts: Seq<Seq<char>>,
    single: Seq<(Seq<char>, Seq<char>)>,
    now: u64,
)
    requires
        queries.len() == chunks.len(),
        times.len() == chunks.len(),
        forall|j: int|
            0 <= j < chunks.len() ==> query_chunk(#[trigger] queries[j], times[j]) == Some(
                chunks[j],
            ),
        crate::chunks::sends(chunks, id, parts),
        crate::chunks::starts_afresh(state.bridge_chunks, chunks[0]),
        query_value(single, "data"@) == Some(crate::chunks::concat(parts)),
    ensures
        after_chunks(state, queries, times, chunks.len() - 1).after_navigation(
            times[chunks.len() - 1],
            BRIDGE_SCHEME@,
            Some("chunk"@),
            queries[chunks.len() - 1],
        ).1 == state.after_navigation(now, BRIDGE_SCHEME@, Some("event"@), single).1,
{
    let last = chunks.len() - 1;
    reveal_strlit("chunk");
    reveal_strlit("event");
    assert("chunk"@[0] != "event"@[0]);
    lemma_after_chunks(state, queries, times, chunks, last);
    crate::chunks::law_payload_is_reassembled(state.bridge_chunks, chunks, id, parts);
    assert(query_chunk(queries[last], times[last]) == Some(chunks[last]));
}

proof fn lemma_after_chunks(
    state: RuntimeView,
    queries: Seq<Seq<(Seq<char>, Seq<char>)>>,
    times: Seq<u64>,
    chunks: Seq<crate::chunks::ChunkView>,
    n: int,
)
    requires
        0 <= n <= chunks.len(),
        queries.len() == chunks.len(),
        times.len() == chunks.len(),
        forall|j: int|
            0 <= j < chunks.len() ==> query_chunk(#[trigger] queries[j], times[j]) == Some(
                chunks[j],
            ),
    ensures
        after_chunks(state, queries, times, n).bridge_chunks == crate::chunks::buffers_after(
            state.bridge_chunks,
            chunks,
            n,
        ),
    decreases n,
{
    if n > 0 {
        lemma_after_chunks(state, queries, times, chunks, n - 1);
        assert(query_chunk(queries[n - 1], times[n - 1]) == Some(chunks[n - 1]));
        reveal_strlit("chunk");
        reveal_strlit("event");
        assert("chunk"@[0] != "event"@[0]);
    }
}

/// Of several values of a name in a query the last one counts.
pub proof fn law_last_value_of_a_name_counts(
    before: Seq<(Seq<char>, Seq<char>)>,
    name: Seq<char>,
    value: Seq<char>,
    behind: Seq<(Seq<char>, Seq<char>)>,
)
    requires
        forall|i: int| 0 <= i < behind.len() ==> (#[trigger] behind[i]).0 != name,
    ensures
        query_value(before.push((name, value)) + behind, name) == Some(value),
    decreases behind.len(),
{
    let pairs = before.push((name, value)) + behind;
    if behind.len() == 0 {
        assert(pairs =~= before.push((name, value)));
    } else {
        assert(pairs.last() == behind.last());
        assert(pairs.drop_last() =~= before.push((name, value)) + behind.drop_last());
        law_last_value_of_a_name_counts(before, name, value, behind.drop_last());
    }
}

/// A name that does not occur in a query has no value.
pub proof fn law_missing_name_has_no_value(pairs: Seq<(Seq<char>, Seq<char>)>, name: Seq<char>)
    requires
        forall|i: int| 0 <= i < pairs.len() ==> (#[trigger] pairs[i]).0 != name,
    ensures
        query_value(pairs, name) is None,
    decreases pairs.len(),
{
    if pairs.len() > 0 {
        law_missing_name_has_no_value(pairs.drop_last(), name);
    }
}

/// A query that gives an id, an index, a number of chunks and data describes the chunk of these:
/// up to 256 chunks, an index among them, and neither the id nor the data empty.
pub proof fn law_query_of_a_chunk_describes_it(
    pairs: Seq<(Seq<char>, Seq<char>)>,
    now: u64,
    chunk: crate::chunks::ChunkView,
    index: Seq<char>,
    total: Seq<char>,
)
    requires
        query_value(pairs, "id"@) == Some(chunk.id),
        query_value(pairs, "index"@) == Some(index),
        query_value(pairs, "total"@) == Some(total),
        query_value(pairs, "data"@) == Some(chunk.data),
        text::parse_usize(index) == Some(chunk.index as usize),
        text::parse_usize(total) == Some(chunk.total as usize),
        chunk.id.len() > 0,
        0 <= chunk.index < chunk.total <= 256,
        chunk.data.len() > 0,
        chunk.now == now,
    ensures
        query_chunk(pairs, now) == Some(chunk),
{
}

/// The numbers of a chunk may be written in base ten.
pub proof fn law_chunk_query_describes_its_chunk(
    pairs: Seq<(Seq<char>, Seq<char>)>,
    now: u64,
    id: Seq<char>,
    index: nat,
    total: nat,
    data: Seq<char>,
)
    requires
        query_value(pairs, "id"@) == Some(id),
        query_value(pairs, "index"@) == Some(text::decimal(index)),
        query_value(pairs, "total"@) == Some(text::decimal(total)),
        query_value(pairs, "data"@) == Some(data),
        id.len() > 0,
        index < total <= 256,
        data.len() > 0,
    ensures
        query_chunk(pairs, now) == Some(
            crate::chunks::ChunkView {
                id,
                index: index as int,
                total: total as int,
                data,
                now,
            },
        ),
{
    text::law_decimal_parses_back(index);
    text::law_decimal_parses_back(total);
}

/// A query that describes a chunk gives its id, its index, the number of chunks and its data, and
/// nothing that makes no sense.
pub proof fn law_described_chunk_makes_sense(pairs: Seq<(Seq<char>, Seq<char>)>, now: u64)
    ensures
        query_chunk(pairs, now) matches Some(chunk) ==> {
            &&& query_value(pairs, "id"@) == Some(chunk.id)
            &&& query_value(pairs, "data"@) == Some(chunk.data)
            &&& query_value(pairs, "index"@) matches Some(index)
            &&& text::parse_usize(index) matches Some(number)
            &&& number == chunk.index
            &&& query_value(pairs, "total"@) matches Some(total)
            &&& text::parse_usize(total) matches Some(count)
            &&& count == chunk.total
            &&& chunk.id.len() > 0
            &&& chunk.data.len() > 0
            &&& 0 <= chunk.index < chunk.total <= 256
            &&& chunk.now == now
        },
{
}

/// A URL of another scheme is none of the bridge's business; one of the bridge without a host is
/// taken out of the navigation, and changes nothing.
pub proof fn law_other_urls_change_nothing(
    state: RuntimeView,
    now: u64,
    scheme: Seq<char>,
    host: Option<Seq<char>>,
    pairs: Seq<(Seq<char>, Seq<char>)>,
)
    ensures
        scheme != "button-automation"@ ==> state.after_navigation(now, scheme, host, pairs) == (
            state,
            NavigationView::Elsewhere,
        ),
        scheme == "button-automation"@ && host is None ==> state.after_navigation(
            now,
            scheme,
            host,
            pairs,
        ) == (state, NavigationView::Handled),
{
}

/// An event URL brings its data, and nothing where it has none; neither changes the state.
pub proof fn law_event_url_brings_its_data(
    state: RuntimeView,
    now: u64,
    pairs: Seq<(Seq<char>, Seq<char>)>,
)
    ensures
        ({
            let (after, navigation) = state.after_navigation(
                now,
                "button-automation"@,
                Some("event"@),
                pairs,
            );
            &&& after == state
            &&& query_value(pairs, "data"@) matches Some(data) ==> navigation
                == NavigationView::Payload(data)
            &&& query_value(pairs, "data"@) is None ==> navigation == NavigationView::Handled
        }),
{
}

/// A chunk URL hands its chunk to the buffers and brings the payload that is whole with it; one
/// that describes no chunk changes nothing.
pub proof fn law_chunk_url_hands_in_its_chunk(
    state: RuntimeView,
    now: u64,
    pairs: Seq<(Seq<char>, Seq<char>)>,
)
    ensures
        ({
            let (after, navigation) = state.after_navigation(
                now,
                "button-automation"@,
                Some("chunk"@),
                pairs,
            );
            &&& after == RuntimeView { bridge_chunks: after.bridge_chunks, ..state }
            &&& query_chunk(pairs, now) is None ==> after == state && navigation
                == NavigationView::Handled
            &&& query_chunk(pairs, now) matches Some(chunk) ==> {
                let (buffers, payload) = crate::chunks::receive(state.bridge_chunks, chunk);
                &&& after.bridge_chunks == buffers
                &&& payload is None ==> navigation == NavigationView::Handled
                &&& payload is Some ==> navigation == NavigationView::Payload(payload->0)
            }
        }),
{
    reveal_strlit("chunk");
    reveal_strlit("event");
    assert("chunk"@[0] != "event"@[0]);
}

/// A bridge URL of any other host is logged as a warning that names the host, and changes nothing
/// else.
pub proof fn law_unknown_bridge_url_is_only_logged(
    state: RuntimeView,
    now: u64,
    host: Seq<char>,
    pairs: Seq<(Seq<char>, Seq<char>)>,
)
    requires
        state.logs.len() <= 500,
        state.next_log_id < u64::MAX,
        host != "event"@,
        host != "chunk"@,
    ensures
        ({
            let (after, navigation) = state.after_navigation(
                now,
                "button-automation"@,
                Some(host),
                pairs,
            );
            &&& navigation == NavigationView::Handled
            &&& runtime::log_gains(
                state,
                after,
                now,
                "warn"@,
                "알 수 없는 네비게이션 브리지 이벤트: "@ + host,
            )
            &&& after == RuntimeView {
                logs: after.logs,
                next_log_id: after.next_log_id,
                ..state
            }
        }),
{
}

/// A payload that can be decoded gives its bytes and changes nothing; one that cannot is logged as
/// an error with the reason, gives nothing, and changes nothing else.
pub proof fn law_payload_is_decoded_or_logged(
    state: RuntimeView,
    ts: u64,
    decoded: Result<Seq<u8>, Seq<char>>,
)
    requires
        state.logs.len() <= 500,
        state.next_log_id < u64::MAX,
    ensures
        ({
            let (after, event) = state.after_decoding(ts, decoded);
            &&& decoded matches Ok(bytes) ==> after == state && event == Some(bytes)
            &&& decoded matches Err(error) ==> {
                &&& event is None
                &&& runtime::log_gains(
                    state,
                    after,
                    ts,
                    "error"@,
                    "브리지 payload 디코딩 실패: "@ + error,
                )
                &&& after == RuntimeView {
                    logs: after.logs,
                    next_log_id: after.next_log_id,
                    ..state
                }
            }
        }),
{
}

/// What a navigation to a URL of the bridge comes to: the payload that it makes whole is decoded,
/// and without one there is no event.
pub proof fn law_bridge_url_reports_what_it_carries(
    state: RuntimeView,
    now: u64,
    ts: u64,
    url: Url,
)
    ensures
        ({
            let (routed, navigation) = state.after_navigation(
                now,
                outside::url_scheme(url),
                outside::url_host(url),
                outside::url_query(url),
            );
            let (after, intercepted, event) = state.after_bridge(now, ts, url);
            &&& intercepted <==> outside::url_scheme(url) == "button-automation"@
            &&& navigation matches NavigationView::Payload(data) ==> (after, event)
                == routed.after_decoding(ts, outside::base64url_decoded(data))
            &&& !(navigation is Payload) ==> after == routed && event is None
        }),
{
}

/// A payload that is written as up to 256 chunk URLs, in any order, within fifteen seconds of the
/// first, is delivered whole by the last of them, and by none before. Nothing else changes.
pub proof fn law_written_chunks_deliver_their_payload(
    state: RuntimeView,
    queries: Seq<Seq<(Seq<char>, Seq<char>)>>,
    times: Seq<u64>,
    order: Seq<nat>,
    id: Seq<char>,
    parts: Seq<Seq<char>>,
    n: int,
)
    requires
        0 < parts.len() <= 256,
        queries.len() == parts.len(),
        times.len() == parts.len(),
        order.len() == parts.len(),
        forall|i: nat| i < parts.len() ==> #[trigger] order.contains(i),
        forall|j: int| 0 <= j < order.len() ==> (#[trigger] order[j]) < parts.len(),
        forall|i: int, j: int| 0 <= i < j < order.len() ==> #[trigger] order[i] != #[trigger] order[j],
        id.len() > 0,
        forall|i: int| 0 <= i < parts.len() ==> (#[trigger] parts[i]).len() > 0,
        forall|j: int|
            0 <= j < queries.len() ==> {
                &&& query_value(#[trigger] queries[j], "id"@) == Some(id)
                &&& query_value(queries[j], "index"@) == Some(text::decimal(order[j]))
                &&& query_value(queries[j], "total"@) == Some(text::decimal(parts.len()))
                &&& query_value(queries[j], "data"@) == Some(parts[order[j] as int])
                &&& times[j] - times[0] < 15_000
            },
        state.bridge_chunks.contains_key(id) ==> times[0]
            - state.bridge_chunks[id].created_at >= 15_000 || state.bridge_chunks[id].total
            != parts.len(),
        0 <= n < parts.len(),
    ensures
        ({
            let (after, navigation) = after_chunks(state, queries, times, n).after_navigation(
                times[n],
                "button-automation"@,
                Some("chunk"@),
                queries[n],
            );
            &&& n < parts.len() - 1 ==> navigation == NavigationView::Handled
            &&& n == parts.len() - 1 ==> navigation == NavigationView::Payload(parts.flatten())
                && !after.bridge_chunks.contains_key(id)
            &&& after == RuntimeView { bridge_chunks: after.bridge_chunks, ..state }
        }),
{
    let chunks = Seq::new(
        parts.len(),
        |j: int|
            crate::chunks::ChunkView {
                id,
                index: order[j] as int,
                total: parts.len() as int,
                data: parts[order[j] as int],
                now: times[j],
            },
    );
    assert forall|j: int| 0 <= j < chunks.len() implies query_chunk(#[trigger] queries[j], times[j])
        == Some(chunks[j]) by {
        assert(order[j] < parts.len());
        law_chunk_query_describes_its_chunk(
            queries[j],
            times[j],
            id,
            order[j],
            parts.len(),
            parts[order[j] as int],
        );
    }
    let last = chunks.len() - 1;
    assert(!crate::chunks::came(chunks, last, id, chunks.last().index)) by {
        if crate::chunks::came(chunks, last, id, chunks.last().index) {
            let j = choose|j: int|
                0 <= j < last && (#[trigger] chunks[j]).id == id && chunks[j].index
                    == chunks.last().index;
            assert(order[j] != order[last]);
        }
    }
    assert forall|i: int| 0 <= i < parts.len() implies #[trigger] crate::chunks::came(
        chunks,
        chunks.len() as int,
        id,
        i,
    ) by {
        assert(order.contains(i as nat));
        let j = choose|j: int| 0 <= j < order.len() && order[j] == i as nat;
        assert(chunks[j].id == id && chunks[j].index == i);
    }
    assert forall|j: int| 0 <= j < chunks.len() implies {
        &&& (#[trigger] chunks[j]).fits()
        &&& crate::chunks::age(chunks[j].now, chunks[0].now) < crate::chunks::CHUNK_LIFETIME_MS
        &&& chunks[j].id == id ==> {
            &&& chunks[j].total == parts.len()
            &&& chunks[j].data == parts[chunks[j].index]
        }
    } by {
        assert(order[j] < parts.len());
        assert(query_value(queries[j], "id"@) == Some(id));
    }
    assert(crate::chunks::sends(chunks, id, parts));
    assert(query_value(queries[0], "id"@) == Some(id));
    crate::chunks::law_payload_is_reassembled(state.bridge_chunks, chunks, id, parts);
    crate::chunks::law_concat_is_flatten(parts);
    lemma_after_chunks(state, queries, times, chunks, n);
    lemma_chunks_change_only_buffers(state, queries, times, n);
    assert(query_chunk(queries[n], times[n]) == Some(chunks[n]));
    assert(chunks[n].id == id);
    law_chunk_url_hands_in_its_chunk(
        after_chunks(state, queries, times, n),
        times[n],
        queries[n],
    );
    assert(crate::chunks::payload_at(state.bridge_chunks, chunks, n) == crate::chunks::receive(
        after_chunks(state, queries, times, n).bridge_chunks,
        chunks[n],
    ).1);
}

proof fn lemma_chunks_change_only_buffers(
    state: RuntimeView,
    queries: Seq<Seq<(Seq<char>, Seq<char>)>>,
    times: Seq<u64>,
    n: int,
)
    requires
        0 <= n <= queries.len(),
    ensures
        ({
            let after = after_chunks(state, queries, times, n);
            after == RuntimeView { bridge_chunks: after.bridge_chunks, ..state }
        }),
    decreases n,
{
    if n > 0 {
        lemma_chunks_change_only_buffers(state, queries, times, n - 1);
        law_chunk_url_hands_in_its_chunk(
            after_chunks(state, queries, times, n - 1),
            times[n - 1],
            queries[n - 1],
        );
    }
}

/// The contents of what a navigation turned out to be are its payload, where it has one.
pub proof fn law_navigation_shows_its_payload(data: String, bytes: Vec<u8>, error: String)
    ensures
        Navigation::Elsewhere@ == NavigationView::Elsewhere,
        Navigation::Handled@ == NavigationView::Handled,
        Navigation::Payload(data)@ == NavigationView::Payload(data@),
        bytes_of(Some(bytes)) == Some(bytes@),
        bytes_of(None) is None,
        decoded_of(Ok(bytes)) == Ok::<Seq<u8>, Seq<char>>(bytes@),
        decoded_of(Err(error)) == Err::<Seq<u8>, Seq<char>>(error@),
{
}

} // verus!
