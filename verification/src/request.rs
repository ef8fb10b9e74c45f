//! Reading the requests of the local HTTP endpoint of the bridge.
use crate::text;
use crate::text::{
    chars_of, read_usize, same_ignoring_case, split_lines, string_of, take_word, trimmed,
};
use vstd::prelude::*;

verus! {

/// The number of bytes that may come without the end of the head among them.
pub const MAX_HEAD: usize = 65_536;

/// The largest body of a request, in bytes.
pub const MAX_BODY: usize = 12_582_912;

/// Whether an empty line, with the end of the line before it, stands at position `i`.
pub open spec fn blank_line_at(data: Seq<u8>, i: int) -> bool {
    &&& 0 <= i
    &&& i + 4 <= data.len()
    &&& data[i] == 13
    &&& data[i + 1] == 10
    &&& data[i + 2] == 13
    &&& data[i + 3] == 10
}

/// The first empty line at or behind `from`.
pub open spec fn header_end_from(data: Seq<u8>, from: int) -> Option<int>
    decreases data.len() - from,
{
    if from + 4 > data.len() {
        None
    } else if blank_line_at(data, from) {
        Some(from)
    } else {
        header_end_from(data, from + 1)
    }
}

/// Where the head of a request ends: at the first empty line.
pub open spec fn header_end(data: Seq<u8>) -> Option<int> {
    header_end_from(data, 0)
}

/// The head ends at the first empty line, and has no end only where there is none.
pub proof fn law_head_ends_at_first_blank_line(data: Seq<u8>)
    ensures
        match header_end(data) {
            Some(i) => blank_line_at(data, i) && forall|j: int|
                0 <= j < i ==> !#[trigger] blank_line_at(data, j),
            None => forall|j: int| !#[trigger] blank_line_at(data, j),
        },
{
    lemma_header_end_from(data, 0);
}

proof fn lemma_header_end_from(data: Seq<u8>, from: int)
    requires
        0 <= from,
    ensures
        match header_end_from(data, from) {
            Some(i) => from <= i && blank_line_at(data, i) && forall|j: int|
                from <= j < i ==> !#[trigger] blank_line_at(data, j),
            None => forall|j: int| from <= j ==> !#[trigger] blank_line_at(data, j),
        },
    decreases data.len() - from,
{
    if from + 4 <= data.len() && !blank_line_at(data, from) {
        lemma_header_end_from(data, from + 1);
    }
}

/// Where the head of a request ends, if its end has come.
pub fn find_header_end(data: &[u8]) -> (end: Option<usize>)
    ensures
        match end {
            Some(i) => header_end(data@) == Some(i as int),
            None => header_end(data@) is None,
        },
        match end {
            Some(i) => blank_line_at(data@, i as int) && forall|j: int|
                0 <= j < i ==> !#[trigger] blank_line_at(data@, j),
            None => forall|j: int| !#[trigger] blank_line_at(data@, j),
        },
{
    let mut i: usize = 0;
    while data.len() >= 4 && i <= data.len() - 4
        invariant
            i <= data@.len(),
            header_end(data@) == header_end_from(data@, i as int),
        decreases data@.len() - i,
    {
        if data[i] == 13 && data[i + 1] == 10 && data[i + 2] == 13 && data[i + 3] == 10 {
            proof {
                law_head_ends_at_first_blank_line(data@);
            }
            return Some(i);
        }
        i += 1;
    }
    proof {
        law_head_ends_at_first_blank_line(data@);
    }
    None
}

proof fn lemma_header_end_is(data: Seq<u8>, end: int)
    requires
        blank_line_at(data, end),
        forall|j: int| 0 <= j < end ==> !#[trigger] blank_line_at(data, j),
    ensures
        header_end(data) == Some(end),
{
    law_head_ends_at_first_blank_line(data);
}

/// A head that is written as lines ends where the lines end, whatever follows.
pub proof fn law_written_head_ends_behind_its_lines(lines: Seq<Seq<char>>, body: Seq<u8>)
    requires
        lines.len() > 0,
        forall|i: int| 0 <= i < lines.len() ==> text::is_line(#[trigger] lines[i]),
    ensures
        header_end(
            vstd::utf8::encode_utf8(text::join_lines(lines)) + seq![13u8, 10, 13, 10] + body,
        ) == Some(vstd::utf8::encode_utf8(text::join_lines(lines)).len() as int),
    decreases lines.len(),
{
    let head = text::join_lines(lines);
    let bytes = vstd::utf8::encode_utf8(head);
    let data = bytes + seq![13u8, 10, 13, 10] + body;
    assert(text::is_line(lines[0]));
    text::lemma_encode_without_returns(lines[0]);
    let line = vstd::utf8::encode_utf8(lines[0]);
    let n = line.len() as int;
    if lines.len() == 1 {
        assert forall|j: int| 0 <= j < n implies !#[trigger] blank_line_at(data, j) by {
            assert(data[j] == line[j]);
        }
        lemma_header_end_is(data, n);
    } else {
        let rest = lines.drop_first();
        assert forall|i: int| 0 <= i < rest.len() implies text::is_line(#[trigger] rest[i]) by {
            assert(rest[i] == lines[i + 1]);
        }
        law_written_head_ends_behind_its_lines(rest, body);
        let tail_text = text::join_lines(rest);
        let tail = vstd::utf8::encode_utf8(tail_text);
        let ending = "\r\n"@;
        reveal_strlit("\r\n");
        assert(vstd::utf8::is_ascii_chars(ending));
        vstd::utf8::is_ascii_chars_encode_utf8(ending);
        assert(vstd::utf8::encode_utf8(ending) =~= seq![13u8, 10]);
        text::lemma_encode_concat(lines[0] + ending, tail_text);
        text::lemma_encode_concat(lines[0], ending);
        assert(bytes == line + seq![13u8, 10] + tail);
        lemma_line_comes_first(rest);
        let behind = tail + seq![13u8, 10, 13, 10] + body;
        assert(data =~= line + seq![13u8, 10] + behind);
        law_head_ends_at_first_blank_line(behind);
        let end = n + 2 + tail.len();
        assert forall|j: int| 0 <= j < end implies !#[trigger] blank_line_at(data, j) by {
            if j < n {
                assert(data[j] == line[j]);
            } else if j >= n + 2 {
                assert(!blank_line_at(behind, j - n - 2));
                assert(data[j] == behind[j - n - 2]);
                if j + 4 <= data.len() {
                    assert(data[j + 1] == behind[j - n - 1]);
                    assert(data[j + 2] == behind[j - n]);
                    assert(data[j + 3] == behind[j - n + 1]);
                }
            } else {
                assert(data[n + 2] == tail[0]);
                assert(data[n + 1] == 10);
            }
        }
        assert(blank_line_at(behind, tail.len() as int));
        assert(blank_line_at(data, end));
        lemma_header_end_is(data, end);
    }
}

/// The encoding of joined lines begins with a byte of the first line.
proof fn lemma_line_comes_first(lines: Seq<Seq<char>>)
    requires
        lines.len() > 0,
        text::is_line(lines[0]),
    ensures
        vstd::utf8::encode_utf8(text::join_lines(lines)).len() > 0,
        vstd::utf8::encode_utf8(text::join_lines(lines))[0] != 13,
{
    text::lemma_encode_without_returns(lines[0]);
    if lines.len() > 1 {
        let rest = "\r\n"@ + text::join_lines(lines.drop_first());
        assert(text::join_lines(lines) =~= lines[0] + rest);
        text::lemma_encode_concat(lines[0], rest);
    }
}

/// What the head of a request says.
#[derive(Debug)]
pub struct Head {
    pub method: String,
    pub path: String,
    pub content_length: usize,
}

/// The contents of a [`Head`].
pub ghost struct HeadView {
    pub method: Seq<char>,
    pub path: Seq<char>,
    pub content_length: usize,
}

impl View for Head {
    type V = HeadView;

    open spec fn view(&self) -> HeadView {
        HeadView {
            method: self.method@,
            path: self.path@,
            content_length: self.content_length,
        }
    }
}

/// The length of the body that the header lines announce: that of the first `Content-Length`, and
/// 0 where there is none or it is no number.
pub open spec fn announced_length(lines: Seq<Seq<char>>) -> usize
    decreases lines.len(),
{
    if lines.len() == 0 {
        0
    } else {
        match text::split_once(lines[0], ':') {
            Some((name, value)) => if text::eq_ignore_ascii_case(name, "content-length"@) {
                match text::parse_usize(text::trim(value)) {
                    Some(length) => length,
                    None => 0,
                }
            } else {
                announced_length(lines.drop_first())
            },
            None => announced_length(lines.drop_first()),
        }
    }
}

/// What the text of a head says, or what is wrong with it.
pub open spec fn head_of(head: Seq<char>) -> Result<HeadView, Seq<char>> {
    let lines = text::lines(head);
    if lines.len() == 0 {
        Err("missing request line"@)
    } else {
        match text::next_word(lines[0]) {
            None => Err("missing method"@),
            Some((method, rest)) => match text::next_word(rest) {
                None => Err("missing path"@),
                Some((path, _)) => {
                    let content_length = announced_length(lines.skip(1));
                    if content_length > MAX_BODY {
                        Err("request body is too large"@)
                    } else {
                        Ok(HeadView { method, path, content_length })
                    }
                },
            },
        }
    }
}

/// The outcome of reading a head, by its contents.
pub open spec fn head_result(r: Result<Head, String>) -> Result<HeadView, Seq<char>> {
    match r {
        Ok(head) => Ok(head@),
        Err(error) => Err(error@),
    }
}

/// The length of the body that the header lines announce.
fn content_length(lines: &Vec<Vec<char>>) -> (length: usize)
    requires
        lines@.len() > 0,
    ensures
        length == announced_length(text::lines_view(lines@).skip(1)),
{
    let ghost all = text::lines_view(lines@);
    let name = chars_of("content-length");
    let mut i: usize = 1;
    while i < lines.len()
        invariant
            1 <= i <= lines@.len(),
            all == text::lines_view(lines@),
            name@ == "content-length"@,
            announced_length(all.skip(1)) == announced_length(all.skip(i as int)),
        decreases lines@.len() - i,
    {
        assert(all.skip(i as int)[0] == lines@[i as int]@);
        assert(all.skip(i as int).drop_first() =~= all.skip(i + 1));
        match text::split_at_char(lines[i].as_slice(), ':') {
            Some((field, value)) => {
                if same_ignoring_case(field.as_slice(), name.as_slice()) {
                    return match read_usize(trimmed(value.as_slice()).as_slice()) {
                        Some(length) => length,
                        None => 0,
                    };
                }
            },
            None => {},
        }
        i += 1;
    }
    0
}

/// What the text of a head says.
pub fn parse_head(head: &str) -> (r: Result<Head, String>)
    ensures
        head_result(r) == head_of(head@),
{
    let chars = chars_of(head);
    let lines = split_lines(chars.as_slice());
    let ghost all = text::lines_view(lines@);
    if lines.len() == 0 {
        return Err("missing request line".to_string());
    }
    let first = lines[0].as_slice();
    assert(first@ == all[0]);
    assert(first@.skip(0) =~= first@);
    let (method, rest) = match take_word(first, 0) {
        Some((word, rest)) => (word, rest),
        None => {
            return Err("missing method".to_string());
        },
    };
    let path = match take_word(first, rest) {
        Some((word, _)) => word,
        None => {
            return Err("missing path".to_string());
        },
    };
    let content_length = content_length(&lines);
    if content_length > MAX_BODY {
        return Err("request body is too large".to_string());
    }
    Ok(
        Head {
            method: string_of(method.as_slice()),
            path: string_of(path.as_slice()),
            content_length,
        },
    )
}

/// What is read from bytes that are not UTF-8, with U+FFFD for the parts that are not.
pub uninterp spec fn utf8_lossy(bytes: Seq<u8>) -> Seq<char>;

/// The text that bytes hold: the text that they encode, where they are UTF-8.
pub open spec fn text_in(bytes: Seq<u8>) -> Seq<char> {
    if vstd::utf8::valid_utf8(bytes) {
        vstd::utf8::decode_utf8(bytes)
    } else {
        utf8_lossy(bytes)
    }
}

/// `String::from_utf8_lossy` reads bytes as UTF-8 and replaces what is not: bytes that are UTF-8
/// give the text that they encode, and for others the outcome depends on the bytes alone.
#[verifier::external_body]
fn decode_lossy(bytes: &[u8]) -> (decoded: String)
    ensures
        decoded@ == (if vstd::utf8::valid_utf8(bytes@) {
            vstd::utf8::decode_utf8(bytes@)
        } else {
            utf8_lossy(bytes@)
        }),
{
    String::from_utf8_lossy(bytes).into_owned()
}

/// A request.
#[derive(Debug)]
pub struct Request {
    pub method: String,
    pub path: String,
    pub body: Vec<u8>,
}

/// The contents of a [`Request`].
pub ghost struct RequestView {
    pub method: Seq<char>,
    pub path: Seq<char>,
    pub body: Seq<u8>,
}

impl View for Request {
    type V = RequestView;

    open spec fn view(&self) -> RequestView {
        RequestView { method: self.method@, path: self.path@, body: self.body@ }
    }
}

/// The outcome of reading a request, by its contents.
pub open spec fn request_result(r: Result<Request, String>) -> Result<RequestView, Seq<char>> {
    match r {
        Ok(request) => Ok(request@),
        Err(error) => Err(error@),
    }
}

/// A request that is being read.
#[derive(Debug)]
pub struct RequestReader {
    /// The head, once its end has come.
    head: Option<Head>,
    /// The bytes of the head so far, or of the body so far.
    data: Vec<u8>,
}

/// The contents of a [`RequestReader`].
pub ghost struct ReaderView {
    pub head: Option<HeadView>,
    pub data: Seq<u8>,
}

impl View for RequestReader {
    type V = ReaderView;

    closed spec fn view(&self) -> ReaderView {
        ReaderView {
            head: match self.head {
                Some(head) => Some(head@),
                None => None,
            },
            data: self.data@,
        }
    }
}

/// What comes of bytes that were read from a connection.
#[derive(Debug)]
pub enum ReadStep {
    /// More has to be read.
    More(RequestReader),
    /// The request is complete.
    Done(Request),
    /// No request can be had from the connection.
    Failed(String),
}

/// The contents of a [`ReadStep`].
pub ghost enum ReadStepView {
    More(ReaderView),
    Done(RequestView),
    Failed(Seq<char>),
}

impl View for ReadStep {
    type V = ReadStepView;

    open spec fn view(&self) -> ReadStepView {
        match self {
            ReadStep::More(reader) => ReadStepView::More(reader@),
            ReadStep::Done(request) => ReadStepView::Done(request@),
            ReadStep::Failed(error) => ReadStepView::Failed(error@),
        }
    }
}

/// The request of the given head, whose body begins with `body`: complete where all of the body
/// has come.
pub open spec fn body_step(head: HeadView, body: Seq<u8>) -> ReadStepView {
    if body.len() >= head.content_length {
        ReadStepView::Done(
            RequestView {
                method: head.method,
                path: head.path,
                body: body.take(head.content_length as int),
            },
        )
    } else {
        ReadStepView::More(ReaderView { head: Some(head), data: body })
    }
}

impl ReaderView {
    /// A reader to which nothing has come.
    pub open spec fn initial() -> ReaderView {
        ReaderView { head: None, data: Seq::empty() }
    }

    /// What comes of the next bytes; no bytes mean that the connection was closed.
    pub open spec fn fed(self, bytes: Seq<u8>) -> ReadStepView {
        match self.head {
            None => {
                let data = self.data + bytes;
                if bytes.len() == 0 {
                    ReadStepView::Failed("connection closed"@)
                } else {
                    match header_end(data) {
                        Some(end) => match head_of(text_in(data.take(end))) {
                            Ok(head) => body_step(head, data.skip(end + 4)),
                            Err(error) => ReadStepView::Failed(error),
                        },
                        None => if data.len() > MAX_HEAD {
                            ReadStepView::Failed("request headers are too large"@)
                        } else {
                            ReadStepView::More(ReaderView { head: None, data })
                        },
                    }
                }
            },
            Some(head) => if bytes.len() == 0 {
                ReadStepView::Done(
                    RequestView {
                        method: head.method,
                        path: head.path,
                        body: if self.data.len() > head.content_length {
                            self.data.take(head.content_length as int)
                        } else {
                            self.data
                        },
                    },
                )
            } else {
                body_step(head, self.data + bytes)
            },
        }
    }
}

/// The request of the given head, whose body begins with `body`.
fn take_body(head: Head, body: Vec<u8>) -> (step: ReadStep)
    ensures
        step@ == body_step(head@, body@),
{
    let mut body = body;
    if body.len() >= head.content_length {
        body.truncate(head.content_length);
        ReadStep::Done(Request { method: head.method, path: head.path, body })
    } else {
        ReadStep::More(RequestReader { head: Some(head), data: body })
    }
}

/// The bytes of `data` from `from` up to `to`.
fn copy_bytes(data: &Vec<u8>, from: usize, to: usize) -> (part: Vec<u8>)
    requires
        from <= to <= data@.len(),
    ensures
        part@ == data@.subrange(from as int, to as int),
{
    let mut part: Vec<u8> = Vec::new();
    let mut i: usize = from;
    while i < to
        invariant
            from <= i <= to <= data@.len(),
            part@ == data@.subrange(from as int, i as int),
        decreases to - i,
    {
        part.push(data[i]);
        i += 1;
    }
    part
}

impl RequestReader {
    /// A reader to which nothing has come.
    pub fn new() -> (reader: Self)
        ensures
            reader@ == ReaderView::initial(),
    {
        RequestReader { head: None, data: Vec::new() }
    }

    /// Takes in the next bytes of the connection; no bytes mean that it was closed.
    pub fn feed(self, bytes: &[u8]) -> (step: ReadStep)
        ensures
            step@ == self@.fed(bytes@),
    {
        let mut data = self.data;
        match self.head {
            None => {
                if bytes.len() == 0 {
                    return ReadStep::Failed("connection closed".to_string());
                }
                data.extend_from_slice(bytes);
                assert(data@ =~= self.data@ + bytes@);
                match find_header_end(data.as_slice()) {
                    Some(end) => {
                        let head_bytes = copy_bytes(&data, 0, end);
                        assert(head_bytes@ =~= data@.take(end as int));
                        match parse_head(decode_lossy(head_bytes.as_slice()).as_str()) {
                            Ok(head) => {
                                let body = copy_bytes(&data, end + 4, data.len());
                                assert(body@ =~= data@.skip(end + 4));
                                take_body(head, body)
                            },
                            Err(error) => ReadStep::Failed(error),
                        }
                    },
                    None => if data.len() > MAX_HEAD {
                        ReadStep::Failed("request headers are too large".to_string())
                    } else {
                        ReadStep::More(RequestReader { head: None, data })
                    },
                }
            },
            Some(head) => {
                if bytes.len() == 0 {
                    data.truncate(head.content_length);
                    assert(data@ =~= (if self.data@.len() > head.content_length {
                        self.data@.take(head.content_length as int)
                    } else {
                        self.data@
                    }));
                    return ReadStep::Done(
                        Request { method: head.method, path: head.path, body: data },
                    );
                }
                data.extend_from_slice(bytes);
                assert(data@ =~= self.data@ + bytes@);
                take_body(head, data)
            },
        }
    }
}

/// The request in the bytes that a connection brings before it is closed, or what is wrong with
/// them.
pub open spec fn request_in(bytes: Seq<u8>) -> Result<RequestView, Seq<char>> {
    match header_end(bytes) {
        Some(end) => match head_of(text_in(bytes.take(end))) {
            Ok(head) => {
                let body = bytes.skip(end + 4);
                Ok(
                    RequestView {
                        method: head.method,
                        path: head.path,
                        body: if body.len() > head.content_length {
                            body.take(head.content_length as int)
                        } else {
                            body
                        },
                    },
                )
            },
            Err(error) => Err(error),
        },
        None => if bytes.len() > MAX_HEAD {
            Err("request headers are too large"@)
        } else {
            Err("connection closed"@)
        },
    }
}

/// What a reader makes of a connection that brings `reads`, one after the other, and is then
/// closed.
pub open spec fn read_to_end(reader: ReaderView, reads: Seq<Seq<u8>>) -> Result<
    RequestView,
    Seq<char>,
>
    decreases reads.len(),
{
    let bytes = if reads.len() == 0 {
        Seq::empty()
    } else {
        reads[0]
    };
    match reader.fed(bytes) {
        ReadStepView::Done(request) => Ok(request),
        ReadStepView::Failed(error) => Err(error),
        ReadStepView::More(next) => if reads.len() == 0 {
            Err("connection closed"@)
        } else {
            read_to_end(next, reads.drop_first())
        },
    }
}

/// How the bytes of a request are cut up on their way makes no difference to what is read, as
/// long as the head is not too large.
pub proof fn law_reads_may_be_cut_anywhere(reads: Seq<Seq<u8>>)
    requires
        forall|i: int| 0 <= i < reads.len() ==> (#[trigger] reads[i]).len() > 0,
        header_end(reads.flatten()) matches Some(end) ==> end + 3 <= MAX_HEAD,
    ensures
        read_to_end(ReaderView::initial(), reads) == request_in(reads.flatten()),
{
    let none = Seq::<u8>::empty();
    assert(none + reads.flatten() =~= reads.flatten());
    lemma_read_to_end(none, reads);
}

/// The reader after the bytes `seen`, where they do not make a request whole.
spec fn reader_after(seen: Seq<u8>) -> ReaderView {
    match header_end(seen) {
        None => ReaderView { head: None, data: seen },
        Some(end) => ReaderView {
            head: Some(head_of(text_in(seen.take(end)))->Ok_0),
            data: seen.skip(end + 4),
        },
    }
}

/// Whether the bytes `seen` leave the reader waiting for more.
spec fn pending(seen: Seq<u8>) -> bool {
    match header_end(seen) {
        None => seen.len() <= MAX_HEAD,
        Some(end) => head_of(text_in(seen.take(end))) matches Ok(head) && seen.len() - (end + 4)
            < head.content_length,
    }
}

/// More bytes neither move nor lose the end of a head, and where the bytes so far hold none, it
/// comes with the new ones.
pub proof fn law_more_bytes_keep_the_head_end(seen: Seq<u8>, more: Seq<u8>)
    ensures
        header_end(seen) is Some ==> header_end(seen + more) == header_end(seen),
        header_end(seen) is None ==> match header_end(seen + more) {
            Some(end) => end + 4 > seen.len(),
            None => true,
        },
{
    let all = seen + more;
    law_head_ends_at_first_blank_line(seen);
    law_head_ends_at_first_blank_line(all);
    assert forall|j: int| j + 4 <= seen.len() implies #[trigger] blank_line_at(seen, j)
        == blank_line_at(all, j) by {
        if 0 <= j {
            assert(all[j] == seen[j] && all[j + 1] == seen[j + 1] && all[j + 2] == seen[j + 2]
                && all[j + 3] == seen[j + 3]);
        }
    }
    if header_end(seen) is Some {
        let i = header_end(seen)->0;
        assert(blank_line_at(all, i));
        let k = header_end(all)->0;
        if k < i {
            assert(blank_line_at(seen, k));
        }
    }
    if header_end(all) is Some && header_end(seen) is None {
        let k = header_end(all)->0;
        if k + 4 <= seen.len() {
            assert(blank_line_at(seen, k));
        }
    }
}

proof fn lemma_read_to_end(seen: Seq<u8>, reads: Seq<Seq<u8>>)
    requires
        pending(seen),
        forall|i: int| 0 <= i < reads.len() ==> (#[trigger] reads[i]).len() > 0,
        header_end(seen + reads.flatten()) matches Some(end) ==> end + 3 <= MAX_HEAD,
    ensures
        read_to_end(reader_after(seen), reads) == request_in(seen + reads.flatten()),
    decreases reads.len(),
{
    let all = seen + reads.flatten();
    law_head_ends_at_first_blank_line(seen);
    if reads.len() == 0 {
        assert(all =~= seen);
    } else {
        let next = seen + reads[0];
        let rest = reads.drop_first();
        assert(all =~= next + rest.flatten());
        law_more_bytes_keep_the_head_end(seen, reads[0]);
        law_more_bytes_keep_the_head_end(next, rest.flatten());
        law_head_ends_at_first_blank_line(next);
        law_head_ends_at_first_blank_line(all);
        let reader = reader_after(seen);
        if header_end(next) is Some {
            let end = header_end(next)->0;
            assert(next.take(end) =~= all.take(end));
            if header_end(seen) is Some {
                assert(seen.take(end) =~= next.take(end));
                assert(seen.skip(end + 4) + reads[0] =~= next.skip(end + 4));
            }
            match head_of(text_in(next.take(end))) {
                Ok(head) => {
                    if next.skip(end + 4).len() >= head.content_length {
                        assert(next.skip(end + 4).take(head.content_length as int) =~= all.skip(
                            end + 4,
                        ).take(head.content_length as int));
                        if all.skip(end + 4).len() == head.content_length {
                            assert(all.skip(end + 4).take(head.content_length as int) =~= all.skip(
                                end + 4,
                            ));
                        }
                    } else {
                        lemma_read_to_end(next, rest);
                    }
                },
                Err(_) => {},
            }
        } else {
            if next.len() > MAX_HEAD {
                assert(header_end(all) is None);
                assert(all.len() > MAX_HEAD);
            } else {
                lemma_read_to_end(next, rest);
            }
        }
    }
}

/// The lines of the head of a request with the given method and path, which announces a body of
/// `n` bytes.
pub open spec fn plain_lines(method: Seq<char>, path: Seq<char>, n: nat) -> Seq<Seq<char>> {
    seq![
        method + " "@ + path + " HTTP/1.1"@,
        "Content-Length: "@ + text::decimal(n),
    ]
}

/// Whether `word` has a character, and no white space in it.
pub open spec fn is_word(word: Seq<char>) -> bool {
    &&& word.len() > 0
    &&& forall|i: int| 0 <= i < word.len() ==> !text::is_white_space(#[trigger] word[i])
}

/// A head gives back the method, the path and the length that were written into it.
pub proof fn law_head_gives_back_what_was_written(method: Seq<char>, path: Seq<char>, n: nat)
    requires
        is_word(method),
        is_word(path),
        n <= MAX_BODY,
    ensures
        head_of(text::join_lines(plain_lines(method, path, n))) == Ok::<HeadView, Seq<char>>(
            HeadView { method, path, content_length: n as usize },
        ),
{
    let lines = plain_lines(method, path, n);
    lemma_plain_lines(method, path, n);
    text::law_joined_lines_split(lines);
    lemma_request_line(method, path);
    lemma_length_field(n, Seq::empty());
    assert(lines.skip(1) =~= seq!["Content-Length: "@ + text::decimal(n)] + Seq::empty());
}

/// The lines of a head are lines.
pub proof fn lemma_plain_lines(method: Seq<char>, path: Seq<char>, n: nat)
    requires
        is_word(method),
        is_word(path),
    ensures
        forall|i: int|
            0 <= i < plain_lines(method, path, n).len() ==> text::is_line(
                #[trigger] plain_lines(method, path, n)[i],
            ),
{
    let line = method + " "@ + path + " HTTP/1.1"@;
    let digits = text::decimal(n);
    let field = "Content-Length: "@ + digits;
    reveal_strlit(" ");
    reveal_strlit(" HTTP/1.1");
    reveal_strlit("Content-Length: ");
    text::lemma_decimal_digits(n);
    assert forall|i: int| 0 <= i < line.len() implies {
        &&& #[trigger] line[i] != '\r'
        &&& line[i] != '\n'
    } by {
        if i < method.len() {
            assert(line[i] == method[i]);
        } else if method.len() < i < method.len() + 1 + path.len() {
            assert(line[i] == path[i - method.len() - 1]);
        }
    }
    assert forall|i: int| 0 <= i < field.len() implies {
        &&& #[trigger] field[i] != '\r'
        &&& field[i] != '\n'
    } by {
        if i >= 16 {
            assert(field[i] == digits[i - 16]);
        }
    }
}

proof fn lemma_request_line(method: Seq<char>, path: Seq<char>)
    requires
        is_word(method),
        is_word(path),
    ensures
        ({
            let line = method + " "@ + path + " HTTP/1.1"@;
            &&& text::next_word(line) matches Some((word, rest))
            &&& word == method
            &&& text::next_word(rest) matches Some((second, _))
            &&& second == path
        }),
{
    let line = method + " "@ + path + " HTTP/1.1"@;
    reveal_strlit(" ");
    reveal_strlit(" HTTP/1.1");
    assert(line[0] == method[0]);
    assert(line.skip(0) =~= line);
    assert forall|i: int| 0 <= i < method.len() implies !text::is_white_space(
        #[trigger] line[i],
    ) by {
        assert(line[i] == method[i]);
    }
    assert(line[method.len() as int] == ' ');
    text::lemma_leading_word_is(line, method.len() as int);
    assert(line.take(method.len() as int) =~= method);
    let rest = line.skip(method.len() as int);
    let front = path + " HTTP/1.1"@;
    assert(rest[0] == ' ');
    assert(rest.drop_first() =~= front);
    assert(front[0] == path[0]);
    assert(text::leading_white(front) == 0);
    assert(text::leading_white(rest) == 1);
    assert(rest.skip(1) =~= front);
    assert forall|i: int| 0 <= i < path.len() implies !text::is_white_space(
        #[trigger] front[i],
    ) by {
        assert(front[i] == path[i]);
    }
    assert(front[path.len() as int] == ' ');
    text::lemma_leading_word_is(front, path.len() as int);
    assert(front.take(path.len() as int) =~= path);
}

/// A `Content-Length` field is read, whatever lines follow.
pub proof fn lemma_length_field(n: nat, rest: Seq<Seq<char>>)
    requires
        n <= usize::MAX,
    ensures
        announced_length(seq!["Content-Length: "@ + text::decimal(n)] + rest) == n,
{
    let digits = text::decimal(n);
    let field = "Content-Length: "@ + digits;
    reveal_strlit("Content-Length: ");
    reveal_strlit("content-length");
    text::lemma_decimal_digits(n);
    text::lemma_find_char_at(field, ':', 14);
    let name = field.take(14);
    let value = field.skip(15);
    assert(text::eq_ignore_ascii_case(name, "content-length"@));
    assert(value[0] == ' ');
    assert(value.drop_first() =~= digits);
    assert('0' <= digits[0] <= '9');
    assert(text::leading_white(digits) == 0);
    assert(text::leading_white(value) == 1);
    assert(value.skip(1) =~= digits);
    assert('0' <= digits[digits.len() - 1] <= '9');
    assert(text::trailing_white(digits) == 0);
    assert(digits.take(digits.len() as int) =~= digits);
    assert(text::trim(value) =~= digits);
    text::law_decimal_parses_back(n);
}

/// The bytes of a request with the given method, path and body.
pub open spec fn plain_request(method: Seq<char>, path: Seq<char>, body: Seq<u8>) -> Seq<u8> {
    vstd::utf8::encode_utf8(text::join_lines(plain_lines(method, path, body.len()))) + seq![
        13u8,
        10,
        13,
        10,
    ] + body
}

/// A request gives back the method, the path and the body that were written into it.
pub proof fn law_request_gives_back_what_was_written(
    method: Seq<char>,
    path: Seq<char>,
    body: Seq<u8>,
)
    requires
        is_word(method),
        is_word(path),
        body.len() <= MAX_BODY,
    ensures
        request_in(plain_request(method, path, body)) == Ok::<RequestView, Seq<char>>(
            RequestView { method, path, body },
        ),
{
    let lines = plain_lines(method, path, body.len());
    let head = text::join_lines(lines);
    let bytes = vstd::utf8::encode_utf8(head);
    let all = plain_request(method, path, body);
    let end = bytes.len() as int;
    lemma_plain_lines(method, path, body.len());
    law_written_head_ends_behind_its_lines(lines, body);
    vstd::utf8::encode_utf8_valid_utf8(head);
    vstd::utf8::encode_utf8_decode_utf8(head);
    assert(all.take(end) =~= bytes);
    assert(all.skip(end + 4) =~= body);
    law_head_gives_back_what_was_written(method, path, body.len());
}

/// Whether a header line is a `Content-Length`, in whatever case.
pub open spec fn is_length_field(line: Seq<char>) -> bool {
    text::split_once(line, ':') matches Some((name, _)) && text::eq_ignore_ascii_case(
        name,
        "content-length"@,
    )
}

/// The length of the body is that of the first `Content-Length`, in whatever case, with blanks
/// round the number; a value that is no number counts as 0.
pub proof fn law_first_content_length_counts(
    before: Seq<Seq<char>>,
    name: Seq<char>,
    value: Seq<char>,
    behind: Seq<Seq<char>>,
)
    requires
        forall|i: int| 0 <= i < before.len() ==> !is_length_field(#[trigger] before[i]),
        forall|i: int| 0 <= i < name.len() ==> #[trigger] name[i] != ':',
        text::eq_ignore_ascii_case(name, "content-length"@),
    ensures
        ({
            let lines = before.push(name.push(':') + value) + behind;
            &&& text::parse_usize(text::trim(value)) matches Some(n) ==> announced_length(lines)
                == n
            &&& text::parse_usize(text::trim(value)) is None ==> announced_length(lines) == 0
        }),
    decreases before.len(),
{
    let lines = before.push(name.push(':') + value) + behind;
    if before.len() == 0 {
        assert(lines[0] == name.push(':') + value);
        text::law_text_is_split_at_the_first(name, ':', value);
    } else {
        assert(lines[0] == before[0]);
        let rest = before.drop_first();
        assert(lines.drop_first() =~= rest.push(name.push(':') + value) + behind);
        assert forall|i: int| 0 <= i < rest.len() implies !is_length_field(#[trigger] rest[i]) by {
            assert(rest[i] == before[i + 1]);
        }
        law_first_content_length_counts(rest, name, value, behind);
    }
}

/// Without a `Content-Length` there is no body.
pub proof fn law_no_content_length_means_no_body(lines: Seq<Seq<char>>)
    requires
        forall|i: int| 0 <= i < lines.len() ==> !is_length_field(#[trigger] lines[i]),
    ensures
        announced_length(lines) == 0,
    decreases lines.len(),
{
    if lines.len() > 0 {
        let rest = lines.drop_first();
        assert forall|i: int| 0 <= i < rest.len() implies !is_length_field(#[trigger] rest[i]) by {
            assert(rest[i] == lines[i + 1]);
        }
        law_no_content_length_means_no_body(rest);
    }
}

/// What is wrong with a head that is refused: there is no line, the first line has no word or only
/// one, or a body of more than twelve mebibytes is announced. Any other head is accepted.
pub proof fn law_head_is_refused_for_a_reason(head: Seq<char>)
    ensures
        head.len() == 0 ==> head_of(head) == Err::<HeadView, Seq<char>>("missing request line"@),
        ({
            let lines = text::lines(head);
            &&& lines.len() > 0 && text::next_word(lines[0]) is None ==> head_of(head) == Err::<
                HeadView,
                Seq<char>,
            >("missing method"@)
            &&& lines.len() > 0 ==> (text::next_word(lines[0]) matches Some((_, rest)) ==> {
                &&& text::next_word(rest) is None ==> head_of(head) == Err::<HeadView, Seq<char>>(
                    "missing path"@,
                )
                &&& text::next_word(rest) is Some && announced_length(lines.skip(1)) > 12 * 1024
                    * 1024 ==> head_of(head) == Err::<HeadView, Seq<char>>(
                    "request body is too large"@,
                )
                &&& text::next_word(rest) is Some && announced_length(lines.skip(1)) <= 12 * 1024
                    * 1024 ==> head_of(head) is Ok
            })
        }),
{
}

/// A head gives back its method and its path, whatever follows them in the first line, and the
/// length that its fields announce, whatever fields there are.
pub proof fn law_head_with_any_fields_is_read(
    method: Seq<char>,
    path: Seq<char>,
    version: Seq<char>,
    fields: Seq<Seq<char>>,
)
    requires
        is_word(method),
        is_word(path),
        version.len() > 0 ==> text::is_white_space(version[0]),
        forall|i: int|
            0 <= i < version.len() ==> #[trigger] version[i] != '\r' && version[i] != '\n',
        forall|i: int| 0 <= i < fields.len() ==> text::is_line(#[trigger] fields[i]),
        announced_length(fields) <= 12 * 1024 * 1024,
    ensures
        head_of(text::join_lines(seq![method + " "@ + path + version] + fields)) == Ok::<
            HeadView,
            Seq<char>,
        >(HeadView { method, path, content_length: announced_length(fields) }),
{
    let line = method + " "@ + path + version;
    let lines = seq![line] + fields;
    lemma_first_line(method, path, version);
    assert forall|i: int| 0 <= i < lines.len() implies text::is_line(#[trigger] lines[i]) by {
        if i > 0 {
            assert(lines[i] == fields[i - 1]);
        }
    }
    text::law_joined_lines_split(lines);
    assert(lines.skip(1) =~= fields);
}

proof fn lemma_first_line(method: Seq<char>, path: Seq<char>, version: Seq<char>)
    requires
        is_word(method),
        is_word(path),
        version.len() > 0 ==> text::is_white_space(version[0]),
        forall|i: int|
            0 <= i < version.len() ==> #[trigger] version[i] != '\r' && version[i] != '\n',
    ensures
        ({
            let line = method + " "@ + path + version;
            let rest = " "@ + path + version;
            &&& text::is_line(line)
            &&& text::next_word(line) == Some((method, rest))
            &&& text::next_word(rest) == Some((path, version))
        }),
{
    let line = method + " "@ + path + version;
    let rest = " "@ + path + version;
    let none = Seq::<char>::empty();
    reveal_strlit(" ");
    assert(none + method + rest =~= line);
    assert(rest[0] == ' ');
    text::law_first_word_stands_between_blanks(none, method, rest);
    text::law_first_word_stands_between_blanks(" "@, path, version);
    let m = method.len() as int;
    let p = path.len() as int;
    assert forall|i: int| 0 <= i < line.len() implies #[trigger] line[i] != '\r' && line[i]
        != '\n' by {
        if i < m {
            assert(line[i] == method[i]);
            assert(!text::is_white_space(method[i]));
        } else if i == m {
            assert(line[i] == ' ');
        } else if i < m + 1 + p {
            assert(line[i] == path[i - m - 1]);
            assert(!text::is_white_space(path[i - m - 1]));
        } else {
            assert(line[i] == version[i - m - 1 - p]);
        }
    }
}

/// A request is read whatever fields its head has: it gives back its method and its path, and of
/// what follows the head as many bytes as are announced, or all where there are fewer.
pub proof fn law_request_with_any_fields_is_read(
    method: Seq<char>,
    path: Seq<char>,
    version: Seq<char>,
    fields: Seq<Seq<char>>,
    behind: Seq<u8>,
)
    requires
        is_word(method),
        is_word(path),
        version.len() > 0 ==> text::is_white_space(version[0]),
        forall|i: int|
            0 <= i < version.len() ==> #[trigger] version[i] != '\r' && version[i] != '\n',
        forall|i: int| 0 <= i < fields.len() ==> text::is_line(#[trigger] fields[i]),
        announced_length(fields) <= 12 * 1024 * 1024,
    ensures
        ({
            let head = text::join_lines(seq![method + " "@ + path + version] + fields);
            let n = announced_length(fields) as int;
            request_in(vstd::utf8::encode_utf8(head) + seq![13u8, 10, 13, 10] + behind) == Ok::<
                RequestView,
                Seq<char>,
            >(
                RequestView {
                    method,
                    path,
                    body: if n < behind.len() {
                        behind.take(n)
                    } else {
                        behind
                    },
                },
            )
        }),
{
    let lines = seq![method + " "@ + path + version] + fields;
    let head = text::join_lines(lines);
    let bytes = vstd::utf8::encode_utf8(head);
    let all = bytes + seq![13u8, 10, 13, 10] + behind;
    let end = bytes.len() as int;
    lemma_first_line(method, path, version);
    assert forall|i: int| 0 <= i < lines.len() implies text::is_line(#[trigger] lines[i]) by {
        if i > 0 {
            assert(lines[i] == fields[i - 1]);
        }
    }
    law_written_head_ends_behind_its_lines(lines, behind);
    vstd::utf8::encode_utf8_valid_utf8(head);
    vstd::utf8::encode_utf8_decode_utf8(head);
    assert(all.take(end) =~= bytes);
    assert(all.skip(end + 4) =~= behind);
    law_head_with_any_fields_is_read(method, path, version, fields);
}

/// Bytes that hold no request: without the end of a head the connection was closed too early, or
/// the head is too large; with one, the head is refused.
pub proof fn law_bytes_without_a_request_are_refused(bytes: Seq<u8>)
    ensures
        header_end(bytes) is None && bytes.len() <= 64 * 1024 ==> request_in(bytes) == Err::<
            RequestView,
            Seq<char>,
        >("connection closed"@),
        header_end(bytes) is None && bytes.len() > 64 * 1024 ==> request_in(bytes) == Err::<
            RequestView,
            Seq<char>,
        >("request headers are too large"@),
        header_end(bytes) matches Some(end) ==> {
            let head = head_of(text_in(bytes.take(end)));
            &&& head is Err ==> request_in(bytes) == Err::<RequestView, Seq<char>>(head->Err_0)
            &&& head is Ok ==> request_in(bytes) is Ok
        },
{
}

/// A reader without a head takes bytes in until the end of the head is among them; it fails where
/// the connection is closed before, where 64 KiB have come without it, and where the head is
/// refused.
pub proof fn law_reader_waits_for_the_head(data: Seq<u8>, bytes: Seq<u8>)
    ensures
        ({
            let step = (ReaderView { head: None, data }).fed(bytes);
            let all = data + bytes;
            &&& bytes.len() == 0 ==> step == ReadStepView::Failed("connection closed"@)
            &&& bytes.len() > 0 && header_end(all) is None && all.len() <= 64 * 1024 ==> step
                == ReadStepView::More(ReaderView { head: None, data: all })
            &&& bytes.len() > 0 && header_end(all) is None && all.len() > 64 * 1024 ==> step
                == ReadStepView::Failed("request headers are too large"@)
            &&& bytes.len() > 0 && header_end(all) is Some ==> {
                let end = header_end(all)->0;
                let read = head_of(text_in(all.take(end)));
                let behind = all.skip(end + 4);
                &&& read is Err ==> step == ReadStepView::Failed(read->Err_0)
                &&& read matches Ok(head) ==> if behind.len() < head.content_length {
                    step == ReadStepView::More(ReaderView { head: Some(head), data: behind })
                } else {
                    step == ReadStepView::Done(
                        RequestView {
                            method: head.method,
                            path: head.path,
                            body: behind.take(head.content_length as int),
                        },
                    )
                }
            }
        }),
{
}

/// A reader with a head takes bytes in until the body is as long as was announced, and cuts what
/// is over; where the connection is closed before, the body is what has come.
pub proof fn law_reader_waits_for_the_body(head: HeadView, data: Seq<u8>, bytes: Seq<u8>)
    requires
        data.len() < head.content_length,
    ensures
        ({
            let step = (ReaderView { head: Some(head), data }).fed(bytes);
            let all = data + bytes;
            &&& bytes.len() == 0 ==> step == ReadStepView::Done(
                RequestView { method: head.method, path: head.path, body: data },
            )
            &&& bytes.len() > 0 && all.len() < head.content_length ==> step == ReadStepView::More(
                ReaderView { head: Some(head), data: all },
            )
            &&& bytes.len() > 0 && all.len() >= head.content_length ==> step == ReadStepView::Done(
                RequestView {
                    method: head.method,
                    path: head.path,
                    body: all.take(head.content_length as int),
                },
            )
        }),
{
}

/// The contents of a head and of a request are all their fields, and those of a step are what it
/// came to.
pub proof fn law_request_shows_its_fields(
    head: Head,
    request: Request,
    reader: RequestReader,
    error: String,
)
    ensures
        head@.method == head.method@,
        head@.path == head.path@,
        head@.content_length == head.content_length,
        request@.method == request.method@,
        request@.path == request.path@,
        request@.body == request.body@,
        head_result(Ok(head)) == Ok::<HeadView, Seq<char>>(head@),
        head_result(Err(error)) == Err::<HeadView, Seq<char>>(error@),
        request_result(Ok(request)) == Ok::<RequestView, Seq<char>>(request@),
        request_result(Err(error)) == Err::<RequestView, Seq<char>>(error@),
        ReadStep::More(reader)@ == ReadStepView::More(reader@),
        ReadStep::Done(request)@ == ReadStepView::Done(request@),
        ReadStep::Failed(error)@ == ReadStepView::Failed(error@),
        ReaderView::initial().head is None,
        ReaderView::initial().data.len() == 0,
{
}

/// The head ends where a carriage return and a line feed stand twice in a row for the first time.
pub proof fn law_head_ends_at_two_line_endings(data: Seq<u8>)
    ensures
        header_end(data) matches Some(end) ==> {
            &&& 0 <= end <= data.len() - 4
            &&& data.subrange(end, end + 4) == seq![13u8, 10, 13, 10]
        },
        forall|j: int|
            0 <= j <= data.len() - 4 && #[trigger] data.subrange(j, j + 4) == seq![
                13u8,
                10,
                13,
                10,
            ] ==> header_end(data) is Some && header_end(data)->0 <= j,
{
    law_head_ends_at_first_blank_line(data);
    if let Some(end) = header_end(data) {
        assert(data.subrange(end, end + 4) =~= seq![13u8, 10, 13, 10]);
    }
    assert forall|j: int|
        0 <= j <= data.len() - 4 && #[trigger] data.subrange(j, j + 4) == seq![
            13u8,
            10,
            13,
            10,
        ] implies header_end(data) is Some && header_end(data)->0 <= j by {
        let four = data.subrange(j, j + 4);
        assert(data[j] == four[0] && data[j + 1] == four[1] && data[j + 2] == four[2] && data[j
            + 3] == four[3]);
        assert(blank_line_at(data, j));
    }
}

/// A text that was encoded is read back.
pub proof fn law_encoded_text_is_read_back(text: Seq<char>)
    ensures
        text_in(vstd::utf8::encode_utf8(text)) == text,
{
    vstd::utf8::encode_utf8_valid_utf8(text);
    vstd::utf8::encode_utf8_decode_utf8(text);
}

} // verus!
