//! Reassembly of payloads that the target page sends in numbered chunks.
//!
//! A payload is announced by an id and a number of chunks. Its chunks are kept in a buffer until
//! the last one has come, whatever their order; a buffer that is not completed in time is dropped.
use crate::text;
use vstd::prelude::*;

verus! {

/// How long a buffer waits for its chunks, in milliseconds.
pub const CHUNK_LIFETIME_MS: u64 = 15_000;

/// The largest number of chunks that a payload may be cut into.
pub const MAX_CHUNKS: usize = 256;

/// The chunks of one payload that have come so far.
#[derive(Debug)]
pub struct BridgeChunkBuffer {
    total: usize,
    parts: Vec<Option<String>>,
    created_at: u64,
}

/// The contents of a [`BridgeChunkBuffer`].
pub ghost struct BufferView {
    /// The number of chunks of the payload.
    pub total: int,
    /// The chunks, each at its index, where it has come.
    pub parts: Seq<Option<Seq<char>>>,
    /// When the first chunk came.
    pub created_at: u64,
}

/// The chunks of a buffer as sequences of characters.
pub open spec fn parts_of(parts: Seq<Option<String>>) -> Seq<Option<Seq<char>>> {
    parts.map_values(|part: Option<String>| crate::page::text_of(part))
}

impl View for BridgeChunkBuffer {
    type V = BufferView;

    closed spec fn view(&self) -> BufferView {
        BufferView {
            total: self.total as int,
            parts: parts_of(self.parts@),
            created_at: self.created_at,
        }
    }
}

impl BufferView {
    /// A buffer to which no chunk has come yet.
    pub open spec fn fresh(total: int, now: u64) -> BufferView {
        BufferView { total, parts: Seq::new(total as nat, |i: int| None), created_at: now }
    }

    /// Whether every chunk has come.
    pub open spec fn complete(self) -> bool {
        forall|i: int| 0 <= i < self.parts.len() ==> #[trigger] self.parts[i] is Some
    }

    /// The buffer with `data` as the chunk at `index`.
    pub open spec fn filled(self, index: int, data: Seq<char>) -> BufferView {
        BufferView { parts: self.parts.update(index, Some(data)), ..self }
    }

    /// Whether the buffer is still waited for at the time `now`.
    pub open spec fn live(self, now: u64) -> bool {
        age(now, self.created_at) < CHUNK_LIFETIME_MS
    }

    /// Whether a chunk has come.
    pub open spec fn started(self) -> bool {
        exists|i: int| 0 <= i < self.parts.len() && #[trigger] self.parts[i] is Some
    }

    /// A buffer that is kept has room for all its chunks; some have come, and some have not.
    pub open spec fn wf(self) -> bool {
        &&& 0 < self.total <= MAX_CHUNKS
        &&& self.parts.len() == self.total
        &&& self.started()
        &&& !self.complete()
    }
}

/// The time from `then` to `now`, and 0 where the clock went back.
pub open spec fn age(now: u64, then: u64) -> int {
    if now >= then {
        now - then
    } else {
        0
    }
}

/// The chunks of a complete buffer, one behind the other.
pub open spec fn joined(parts: Seq<Option<Seq<char>>>) -> Seq<char>
    decreases parts.len(),
{
    if parts.len() == 0 {
        Seq::empty()
    } else {
        joined(parts.drop_last()) + parts.last()->0
    }
}

/// The buffers that are still waited for at the time `now`.
pub open spec fn live_buffers(buffers: Map<Seq<char>, BufferView>, now: u64) -> Map<
    Seq<char>,
    BufferView,
> {
    Map::new(
        |id: Seq<char>| buffers.contains_key(id) && buffers[id].live(now),
        |id: Seq<char>| buffers[id],
    )
}

/// One chunk of a payload, and when it came.
pub ghost struct ChunkView {
    pub id: Seq<char>,
    pub index: int,
    pub total: int,
    pub data: Seq<char>,
    pub now: u64,
}

impl ChunkView {
    /// Whether the chunk can be placed in a buffer.
    pub open spec fn fits(self) -> bool {
        0 <= self.index < self.total <= MAX_CHUNKS
    }
}

/// The buffer that a chunk goes to: that of its id, where there is one that is still waited for
/// and of the same number of chunks, else a fresh one.
pub open spec fn buffer_for(buffers: Map<Seq<char>, BufferView>, chunk: ChunkView) -> BufferView {
    if buffers.contains_key(chunk.id) && buffers[chunk.id].live(chunk.now)
        && buffers[chunk.id].total == chunk.total {
        buffers[chunk.id]
    } else {
        BufferView::fresh(chunk.total, chunk.now)
    }
}

/// What comes of a chunk: the buffers that remain, and the payload where it is now complete.
pub open spec fn receive(buffers: Map<Seq<char>, BufferView>, chunk: ChunkView) -> (
    Map<Seq<char>, BufferView>,
    Option<Seq<char>>,
) {
    let kept = live_buffers(buffers, chunk.now).remove(chunk.id);
    let buffer = buffer_for(buffers, chunk).filled(chunk.index, chunk.data);
    if buffer.complete() {
        (kept, Some(joined(buffer.parts)))
    } else {
        (kept.insert(chunk.id, buffer), None)
    }
}

/// Every buffer that is kept is well formed.
pub open spec fn buffers_wf(buffers: Map<Seq<char>, BufferView>) -> bool {
    forall|id: Seq<char>| #[trigger] buffers.contains_key(id) ==> buffers[id].wf()
}

/// No payload goes without an id, and no chunk that has come is empty.
pub open spec fn buffers_hold_data(buffers: Map<Seq<char>, BufferView>) -> bool {
    forall|id: Seq<char>| #[trigger]
        buffers.contains_key(id) ==> {
            &&& id.len() > 0
            &&& forall|i: int|
                0 <= i < buffers[id].parts.len() && #[trigger] buffers[id].parts[i] is Some
                    ==> buffers[id].parts[i]->0.len() > 0
        }
}

impl BridgeChunkBuffer {
    fn new(total: usize, now: u64) -> (buffer: Self)
        ensures
            buffer@ == BufferView::fresh(total as int, now),
    {
        let mut parts: Vec<Option<String>> = Vec::new();
        let mut i: usize = 0;
        while i < total
            invariant
                i <= total,
                parts_of(parts@) == Seq::new(i as nat, |j: int| None::<Seq<char>>),
            decreases total - i,
        {
            let ghost before = parts@;
            parts.push(None);
            assert(parts_of(parts@) =~= parts_of(before).push(None));
            i += 1;
        }
        BridgeChunkBuffer { total, parts, created_at: now }
    }

    /// Whether every chunk has come.
    fn is_complete(&self) -> (complete: bool)
        ensures
            complete == self@.complete(),
    {
        let mut i: usize = 0;
        while i < self.parts.len()
            invariant
                i <= self.parts@.len(),
                forall|j: int| 0 <= j < i ==> #[trigger] self@.parts[j] is Some,
            decreases self.parts@.len() - i,
        {
            assert(self@.parts[i as int] == crate::page::text_of(self.parts@[i as int]));
            if self.parts[i].is_none() {
                return false;
            }
            i += 1;
        }
        true
    }

    /// The payload of a complete buffer.
    fn join(&self) -> (payload: String)
        requires
            self@.complete(),
        ensures
            payload@ == joined(self@.parts),
    {
        let mut payload = String::new();
        let mut i: usize = 0;
        while i < self.parts.len()
            invariant
                self@.complete(),
                i <= self.parts@.len(),
                payload@ == joined(self@.parts.take(i as int)),
            decreases self.parts@.len() - i,
        {
            assert(self@.parts[i as int] == crate::page::text_of(self.parts@[i as int]));
            assert(self@.parts.take(i + 1).drop_last() =~= self@.parts.take(i as int));
            match &self.parts[i] {
                Some(part) => payload.append(part.as_str()),
                None => {},
            }
            i += 1;
        }
        assert(self@.parts.take(i as int) =~= self@.parts);
        payload
    }
}

/// A buffer and the id that its chunks carry.
#[derive(Debug)]
struct ChunkEntry {
    id: String,
    buffer: BridgeChunkBuffer,
}

/// The buffers of the payloads that are under way, by id.
#[derive(Debug)]
pub struct BridgeChunks {
    entries: Vec<ChunkEntry>,
}

/// No id occurs twice.
spec fn distinct(entries: Seq<ChunkEntry>) -> bool {
    forall|i: int, j: int|
        0 <= i < entries.len() && 0 <= j < entries.len() && i != j ==> (#[trigger] entries[i]).id@
            != (#[trigger] entries[j]).id@
}

spec fn has_id(entries: Seq<ChunkEntry>, id: Seq<char>) -> bool {
    exists|i: int| 0 <= i < entries.len() && (#[trigger] entries[i]).id@ == id
}

spec fn index_of_id(entries: Seq<ChunkEntry>, id: Seq<char>) -> int {
    choose|i: int| 0 <= i < entries.len() && (#[trigger] entries[i]).id@ == id
}

spec fn entries_map(entries: Seq<ChunkEntry>) -> Map<Seq<char>, BufferView> {
    Map::new(
        |id: Seq<char>| has_id(entries, id),
        |id: Seq<char>| entries[index_of_id(entries, id)].buffer@,
    )
}

proof fn lemma_entry(entries: Seq<ChunkEntry>, i: int)
    requires
        distinct(entries),
        0 <= i < entries.len(),
    ensures
        entries_map(entries).contains_key(entries[i].id@),
        entries_map(entries)[entries[i].id@] == entries[i].buffer@,
{
    let id = entries[i].id@;
    assert(has_id(entries, id));
    let j = index_of_id(entries, id);
    assert(0 <= j < entries.len() && entries[j].id@ == id);
    assert(i == j);
}

proof fn lemma_remove_entry(entries: Seq<ChunkEntry>, i: int)
    requires
        distinct(entries),
        0 <= i < entries.len(),
    ensures
        distinct(entries.remove(i)),
        entries_map(entries.remove(i)) == entries_map(entries).remove(entries[i].id@),
{
    let rest = entries.remove(i);
    let id = entries[i].id@;
    assert forall|a: int, b: int|
        0 <= a < rest.len() && 0 <= b < rest.len() && a != b implies (#[trigger] rest[a]).id@ != (
    #[trigger] rest[b]).id@ by {
        let a0 = if a < i { a } else { a + 1 };
        let b0 = if b < i { b } else { b + 1 };
        assert(rest[a] == entries[a0] && rest[b] == entries[b0]);
    }
    assert forall|k: Seq<char>|
        #![trigger entries_map(rest).contains_key(k)]
        {
            &&& entries_map(rest).contains_key(k) == entries_map(entries).remove(id).contains_key(k)
            &&& entries_map(rest).contains_key(k) ==> entries_map(rest)[k] == entries_map(
                entries,
            ).remove(id)[k]
        } by {
        if has_id(rest, k) {
            let a = index_of_id(rest, k);
            let a0 = if a < i { a } else { a + 1 };
            assert(rest[a] == entries[a0]);
            lemma_entry(rest, a);
            lemma_entry(entries, a0);
            assert(entries[a0].id@ != entries[i].id@);
        } else if has_id(entries, k) {
            let a0 = index_of_id(entries, k);
            if a0 != i {
                let a = if a0 < i { a0 } else { a0 - 1 };
                assert(rest[a] == entries[a0]);
                assert(has_id(rest, k));
            }
            lemma_entry(entries, a0);
        }
    }
    assert(entries_map(rest) =~= entries_map(entries).remove(id));
}

proof fn lemma_push_entry(entries: Seq<ChunkEntry>, entry: ChunkEntry)
    requires
        distinct(entries),
        !has_id(entries, entry.id@),
    ensures
        distinct(entries.push(entry)),
        entries_map(entries.push(entry)) == entries_map(entries).insert(entry.id@, entry.buffer@),
{
    let more = entries.push(entry);
    assert(distinct(more));
    assert forall|k: Seq<char>|
        #![trigger entries_map(more).contains_key(k)]
        {
            &&& entries_map(more).contains_key(k) == entries_map(entries).insert(
                entry.id@,
                entry.buffer@,
            ).contains_key(k)
            &&& entries_map(more).contains_key(k) ==> entries_map(more)[k] == entries_map(
                entries,
            ).insert(entry.id@, entry.buffer@)[k]
        } by {
        if has_id(more, k) {
            let a = index_of_id(more, k);
            lemma_entry(more, a);
            if a < entries.len() {
                assert(more[a] == entries[a]);
                lemma_entry(entries, a);
            }
        } else {
            assert(more[entries.len() as int].id@ == entry.id@);
            if has_id(entries, k) {
                let a = index_of_id(entries, k);
                assert(more[a] == entries[a]);
                assert(has_id(more, k));
            }
        }
    }
    assert(entries_map(more) =~= entries_map(entries).insert(entry.id@, entry.buffer@));
}

impl View for BridgeChunks {
    type V = Map<Seq<char>, BufferView>;

    closed spec fn view(&self) -> Map<Seq<char>, BufferView> {
        entries_map(self.entries@)
    }
}

impl BridgeChunks {
    /// Ids are distinct, and every buffer is well formed.
    pub closed spec fn wf(&self) -> bool {
        &&& distinct(self.entries@)
        &&& buffers_wf(self@)
    }

    /// No payload is under way.
    pub fn new() -> (chunks: Self)
        ensures
            chunks.wf(),
            chunks@ == Map::<Seq<char>, BufferView>::empty(),
    {
        let chunks = BridgeChunks { entries: Vec::new() };
        assert(chunks@ =~= Map::<Seq<char>, BufferView>::empty());
        chunks
    }

    /// Drops the buffers that are no longer waited for.
    fn drop_expired(&mut self, now: u64)
        requires
            old(self).wf(),
        ensures
            final(self).wf(),
            final(self)@ == live_buffers(old(self)@, now),
    {
        let mut i: usize = 0;
        while i < self.entries.len()
            invariant
                i <= self.entries@.len(),
                distinct(self.entries@),
                live_buffers(self@, now) == live_buffers(old(self)@, now),
                forall|j: int| 0 <= j < i ==> (#[trigger] self.entries@[j]).buffer@.live(now),
            decreases self.entries@.len() - i,
        {
            let elapsed = now.saturating_sub(self.entries[i].buffer.created_at);
            proof {
                lemma_entry(self.entries@, i as int);
            }
            if elapsed < CHUNK_LIFETIME_MS {
                i += 1;
            } else {
                let ghost before = self@;
                proof {
                    lemma_remove_entry(self.entries@, i as int);
                }
                self.entries.remove(i);
                assert(live_buffers(self@, now) =~= live_buffers(before, now));
            }
        }
        assert forall|id: Seq<char>| #[trigger] self@.contains_key(id) implies self@[id].live(
            now,
        ) by {
            let j = index_of_id(self.entries@, id);
            lemma_entry(self.entries@, j);
        }
        assert(self@ =~= live_buffers(self@, now));
    }

    /// Where the buffer of `id` stands.
    fn position(&self, id: &String) -> (at: Option<usize>)
        ensures
            match at {
                Some(i) => i < self.entries@.len() && self.entries@[i as int].id@ == id@,
                None => !has_id(self.entries@, id@),
            },
    {
        let mut i: usize = 0;
        while i < self.entries.len()
            invariant
                i <= self.entries@.len(),
                forall|j: int| 0 <= j < i ==> (#[trigger] self.entries@[j]).id@ != id@,
            decreases self.entries@.len() - i,
        {
            if text::same_text(self.entries[i].id.as_str(), id.as_str()) {
                return Some(i);
            }
            i += 1;
        }
        None
    }

    /// Takes in one chunk, after dropping the buffers that are no longer waited for. Gives the
    /// payload where the chunk was the last one missing.
    pub fn receive_chunk(
        &mut self,
        id: String,
        index: usize,
        total: usize,
        data: String,
        now: u64,
    ) -> (payload: Option<String>)
        requires
            old(self).wf(),
            index < total <= MAX_CHUNKS,
        ensures
            final(self).wf(),
            ({
                let chunk = ChunkView {
                    id: id@,
                    index: index as int,
                    total: total as int,
                    data: data@,
                    now,
                };
                let (buffers, joined_payload) = receive(old(self)@, chunk);
                final(self)@ == buffers && crate::page::text_of(payload) == joined_payload
            }),
    {
        let ghost chunk = ChunkView {
            id: id@,
            index: index as int,
            total: total as int,
            data: data@,
            now,
        };
        proof {
            law_kept_buffers_are_live(self@, chunk);
        }
        self.drop_expired(now);
        let ghost kept = self@;
        let mut buffer = match self.position(&id) {
            Some(i) => {
                proof {
                    lemma_entry(self.entries@, i as int);
                    lemma_remove_entry(self.entries@, i as int);
                }
                let entry = self.entries.remove(i);
                if entry.buffer.total == total {
                    entry.buffer
                } else {
                    BridgeChunkBuffer::new(total, now)
                }
            },
            None => {
                assert(kept.remove(id@) =~= kept);
                BridgeChunkBuffer::new(total, now)
            },
        };
        assert(self@ == kept.remove(id@));
        assert(buffer@ == buffer_for(old(self)@, chunk));
        assert(!has_id(self.entries@, id@)) by {
            assert(!self@.contains_key(id@));
        }
        let ghost parts = buffer.parts@;
        buffer.parts.set(index, Some(data));
        assert(parts_of(buffer.parts@) =~= parts_of(parts).update(index as int, Some(data@)));
        if buffer.is_complete() {
            Some(buffer.join())
        } else {
            let entry = ChunkEntry { id, buffer };
            proof {
                lemma_push_entry(self.entries@, entry);
            }
            self.entries.push(entry);
            None
        }
    }
}

/// The buffers after the first `n` of a run of chunks.
pub open spec fn buffers_after(
    buffers: Map<Seq<char>, BufferView>,
    chunks: Seq<ChunkView>,
    n: int,
) -> Map<Seq<char>, BufferView>
    decreases n,
{
    if n <= 0 {
        buffers
    } else {
        receive(buffers_after(buffers, chunks, n - 1), chunks[n - 1]).0
    }
}

/// What the chunk at position `n` of a run of chunks completes.
pub open spec fn payload_at(
    buffers: Map<Seq<char>, BufferView>,
    chunks: Seq<ChunkView>,
    n: int,
) -> Option<Seq<char>> {
    receive(buffers_after(buffers, chunks, n), chunks[n]).1
}

/// Whether one of the first `n` chunks is the one at `index` of the payload `id`.
pub open spec fn came(chunks: Seq<ChunkView>, n: int, id: Seq<char>, index: int) -> bool {
    exists|j: int|
        0 <= j < n && (#[trigger] chunks[j]).id == id && chunks[j].index == index
}

/// The parts of a payload, one behind the other.
pub open spec fn concat(parts: Seq<Seq<char>>) -> Seq<char>
    decreases parts.len(),
{
    if parts.len() == 0 {
        Seq::empty()
    } else {
        concat(parts.drop_last()) + parts.last()
    }
}

/// Whether `chunks` sends the payload `id`, cut into `parts`: it starts and ends with a chunk of
/// it, the last chunk is the only one of its index, every part is among them, and all come
/// within the lifetime of the buffer. Chunks may come in any order and more than once, and chunks
/// of other payloads may come in between.
pub open spec fn sends(chunks: Seq<ChunkView>, id: Seq<char>, parts: Seq<Seq<char>>) -> bool {
    &&& chunks.len() > 0
    &&& chunks[0].id == id
    &&& chunks.last().id == id
    &&& !came(chunks, chunks.len() - 1, id, chunks.last().index)
    &&& forall|i: int| 0 <= i < parts.len() ==> #[trigger] came(chunks, chunks.len() as int, id, i)
    &&& forall|j: int|
        0 <= j < chunks.len() ==> {
            &&& (#[trigger] chunks[j]).fits()
            &&& age(chunks[j].now, chunks[0].now) < CHUNK_LIFETIME_MS
            &&& chunks[j].id == id ==> {
                &&& chunks[j].total == parts.len()
                &&& chunks[j].data == parts[chunks[j].index]
            }
        }
}

/// Whether a chunk opens a new buffer: none of its id is waited for, or one for another number of
/// chunks.
pub open spec fn starts_afresh(buffers: Map<Seq<char>, BufferView>, chunk: ChunkView) -> bool {
    live_buffers(buffers, chunk.now).contains_key(chunk.id) ==> buffers[chunk.id].total
        != chunk.total
}

/// A payload that is sent in chunks comes out whole, with its last chunk and not before: the
/// order of the chunks, repeated chunks and the chunks of other payloads make no difference.
pub proof fn law_payload_is_reassembled(
    buffers: Map<Seq<char>, BufferView>,
    chunks: Seq<ChunkView>,
    id: Seq<char>,
    parts: Seq<Seq<char>>,
)
    requires
        starts_afresh(buffers, chunks[0]),
        sends(chunks, id, parts),
    ensures
        payload_at(buffers, chunks, chunks.len() - 1) == Some(concat(parts)),
        !buffers_after(buffers, chunks, chunks.len() as int).contains_key(id),
        forall|n: int|
            0 <= n < chunks.len() - 1 && (#[trigger] chunks[n]).id == id ==> payload_at(
                buffers,
                chunks,
                n,
            ) is None,
{
    let last = chunks.len() - 1;
    lemma_filled_so_far(buffers, chunks, id, parts, last);
    assert forall|n: int|
        0 <= n < last && (#[trigger] chunks[n]).id == id implies payload_at(
        buffers,
        chunks,
        n,
    ) is None by {
        lemma_filled_so_far(buffers, chunks, id, parts, n);
        lemma_step(buffers, chunks, id, parts, n);
    }
    lemma_step(buffers, chunks, id, parts, last);
}

/// The chunks of the payload that have come in the first `n`.
spec fn so_far(
    chunks: Seq<ChunkView>,
    id: Seq<char>,
    parts: Seq<Seq<char>>,
    n: int,
) -> BufferView {
    BufferView {
        total: parts.len() as int,
        parts: Seq::new(
            parts.len(),
            |i: int|
                if came(chunks, n, id, i) {
                    Some(parts[i])
                } else {
                    None
                },
        ),
        created_at: chunks[0].now,
    }
}

proof fn lemma_joined(parts: Seq<Seq<char>>, some: Seq<Option<Seq<char>>>)
    requires
        some.len() == parts.len(),
        forall|i: int| 0 <= i < parts.len() ==> #[trigger] some[i] == Some(parts[i]),
    ensures
        joined(some) == concat(parts),
    decreases parts.len(),
{
    if parts.len() > 0 {
        lemma_joined(parts.drop_last(), some.drop_last());
    }
}

/// What the chunk at position `n` does to the buffer of the payload.
proof fn lemma_step(
    buffers: Map<Seq<char>, BufferView>,
    chunks: Seq<ChunkView>,
    id: Seq<char>,
    parts: Seq<Seq<char>>,
    n: int,
)
    requires
        starts_afresh(buffers, chunks[0]),
        sends(chunks, id, parts),
        0 <= n < chunks.len(),
        chunks[n].id == id,
        n > 0 ==> buffers_after(buffers, chunks, n).contains_key(id) && buffers_after(
            buffers,
            chunks,
            n,
        )[id] == so_far(chunks, id, parts, n),
    ensures
        ({
            let (after, payload) = receive(buffers_after(buffers, chunks, n), chunks[n]);
            if n < chunks.len() - 1 {
                &&& after.contains_key(id)
                &&& after[id] == so_far(chunks, id, parts, n + 1)
                &&& payload is None
            } else {
                &&& !after.contains_key(id)
                &&& payload == Some(concat(parts))
            }
        }),
{
    let before = buffers_after(buffers, chunks, n);
    let chunk = chunks[n];
    let buffer = buffer_for(before, chunk);
    let filled = buffer.filled(chunk.index, chunk.data);
    let want = so_far(chunks, id, parts, n + 1);
    if n == 0 {
        assert(before == buffers);
        assert(buffer == BufferView::fresh(chunk.total, chunk.now));
        assert(buffer.parts =~= so_far(chunks, id, parts, 0).parts);
    }
    assert(buffer.parts == so_far(chunks, id, parts, n).parts);
    assert forall|i: int| 0 <= i < parts.len() implies #[trigger] filled.parts[i] == want.parts[i] by {
        if i == chunk.index {
            assert(chunks[n].index == i);
            assert(came(chunks, n + 1, id, i));
        } else if came(chunks, n + 1, id, i) {
            let j = choose|j: int|
                0 <= j < n + 1 && (#[trigger] chunks[j]).id == id && chunks[j].index == i;
            assert(j < n);
            assert(came(chunks, n, id, i));
        } else {
            assert(!came(chunks, n, id, i)) by {
                if came(chunks, n, id, i) {
                    let j = choose|j: int|
                        0 <= j < n && (#[trigger] chunks[j]).id == id && chunks[j].index == i;
                    assert(chunks[j].id == id);
                }
            }
        }
    }
    assert(filled.parts =~= want.parts);
    assert(filled == want);
    let missing = chunks.last().index;
    if n < chunks.len() - 1 {
        assert(!came(chunks, n + 1, id, missing)) by {
            if came(chunks, n + 1, id, missing) {
                let j = choose|j: int|
                    0 <= j < n + 1 && (#[trigger] chunks[j]).id == id && chunks[j].index == missing;
                assert(came(chunks, chunks.len() - 1, id, missing));
            }
        }
        assert(chunks[chunks.len() - 1].fits());
        assert(want.parts[missing] is None);
        assert(!filled.complete());
    } else {
        assert forall|i: int| 0 <= i < parts.len() implies #[trigger] want.parts[i] == Some(
            parts[i],
        ) by {
            assert(came(chunks, chunks.len() as int, id, i));
        }
        assert(filled.complete());
        lemma_joined(parts, want.parts);
    }
}

/// Between the first and the last chunk, the buffer of the payload holds the chunks that came.
proof fn lemma_filled_so_far(
    buffers: Map<Seq<char>, BufferView>,
    chunks: Seq<ChunkView>,
    id: Seq<char>,
    parts: Seq<Seq<char>>,
    n: int,
)
    requires
        starts_afresh(buffers, chunks[0]),
        sends(chunks, id, parts),
        0 <= n < chunks.len(),
    ensures
        n > 0 ==> buffers_after(buffers, chunks, n).contains_key(id) && buffers_after(
            buffers,
            chunks,
            n,
        )[id] == so_far(chunks, id, parts, n),
    decreases n,
{
    if n > 0 {
        let m = n - 1;
        lemma_filled_so_far(buffers, chunks, id, parts, m);
        assert(chunks[m].fits());
        if chunks[m].id == id {
            lemma_step(buffers, chunks, id, parts, m);
        } else {
            let now = so_far(chunks, id, parts, n);
            let then = so_far(chunks, id, parts, m);
            assert forall|i: int| 0 <= i < parts.len() implies came(chunks, n, id, i) == came(
                chunks,
                m,
                id,
                i,
            ) by {
                if came(chunks, n, id, i) {
                    let j = choose|j: int|
                        0 <= j < n && (#[trigger] chunks[j]).id == id && chunks[j].index == i;
                    assert(j < m);
                }
                if came(chunks, m, id, i) {
                    let j = choose|j: int|
                        0 <= j < m && (#[trigger] chunks[j]).id == id && chunks[j].index == i;
                    assert(j < n);
                }
            }
            assert(now.parts =~= then.parts);
        }
    }
}

/// A chunk leaves the buffers of other payloads as they are, as long as they are waited for.
pub proof fn law_other_payloads_are_untouched(
    buffers: Map<Seq<char>, BufferView>,
    chunk: ChunkView,
    id: Seq<char>,
)
    requires
        id != chunk.id,
    ensures
        receive(buffers, chunk).0.contains_key(id) == (buffers.contains_key(id) && buffers[id].live(
            chunk.now,
        )),
        receive(buffers, chunk).0.contains_key(id) ==> receive(buffers, chunk).0[id]
            == buffers[id],
{
}

/// After a chunk has come, no buffer is kept that is no longer waited for, and every buffer that
/// is kept is well formed.
pub proof fn law_kept_buffers_are_live(buffers: Map<Seq<char>, BufferView>, chunk: ChunkView)
    requires
        chunk.fits(),
        buffers_wf(buffers),
    ensures
        buffers_wf(receive(buffers, chunk).0),
        forall|id: Seq<char>|
            #[trigger] receive(buffers, chunk).0.contains_key(id) ==> receive(
                buffers,
                chunk,
            ).0[id].live(chunk.now),
{
    let filled = buffer_for(buffers, chunk).filled(chunk.index, chunk.data);
    assert(filled.parts[chunk.index] is Some);
}

/// A chunk that names its payload and is not empty keeps it so that no payload goes without an id,
/// and no chunk that has come is empty.
pub proof fn law_kept_chunks_are_not_empty(buffers: Map<Seq<char>, BufferView>, chunk: ChunkView)
    requires
        chunk.fits(),
        chunk.id.len() > 0,
        chunk.data.len() > 0,
        buffers_wf(buffers),
        buffers_hold_data(buffers),
    ensures
        buffers_hold_data(receive(buffers, chunk).0),
{
    let before = buffer_for(buffers, chunk);
    let filled = before.filled(chunk.index, chunk.data);
    assert forall|i: int|
        0 <= i < filled.parts.len() && #[trigger] filled.parts[i] is Some implies filled.parts[i]->0.len()
        > 0 by {
        if i != chunk.index {
            assert(filled.parts[i] == before.parts[i]);
        }
    }
}

/// A chunk that comes twice in a row, before the payload is complete, counts once.
pub proof fn law_repeated_chunk_changes_nothing(
    buffers: Map<Seq<char>, BufferView>,
    chunk: ChunkView,
)
    requires
        chunk.fits(),
        buffers_wf(buffers),
        receive(buffers, chunk).1 is None,
    ensures
        receive(receive(buffers, chunk).0, chunk) == receive(buffers, chunk),
{
    let once = receive(buffers, chunk).0;
    let twice = receive(once, chunk).0;
    let buffer = once[chunk.id];
    assert(buffer.filled(chunk.index, chunk.data).parts =~= buffer.parts);
    assert(twice =~= once);
}

/// A buffer is waited for until fifteen seconds after its first chunk, and as long as the clock
/// stands before that chunk.
pub proof fn law_buffer_is_waited_for_fifteen_seconds(buffer: BufferView, now: u64)
    ensures
        buffer.live(now) <==> now - buffer.created_at < 15_000,
{
}

/// A payload may be cut into up to 256 chunks, and a chunk has a place among them.
pub proof fn law_up_to_256_chunks_fit(chunk: ChunkView)
    ensures
        chunk.fits() <==> 0 <= chunk.index < chunk.total <= 256,
{
}

/// The first chunk of a payload opens a buffer that is waited for from its time on: no buffer of
/// its id was there, or one whose time was over, or one for another number of chunks, which is
/// forgotten.
pub proof fn law_first_chunk_opens_a_buffer(buffers: Map<Seq<char>, BufferView>, chunk: ChunkView)
    requires
        0 <= chunk.index < chunk.total <= 256,
        chunk.total > 1,
        buffers.contains_key(chunk.id) ==> chunk.now - buffers[chunk.id].created_at >= 15_000
            || buffers[chunk.id].total != chunk.total,
    ensures
        ({
            let (after, payload) = receive(buffers, chunk);
            &&& payload is None
            &&& after.contains_key(chunk.id)
            &&& after[chunk.id].total == chunk.total
            &&& after[chunk.id].created_at == chunk.now
            &&& after[chunk.id].parts.len() == chunk.total
            &&& after[chunk.id].parts[chunk.index] == Some(chunk.data)
            &&& forall|i: int|
                0 <= i < chunk.total && i != chunk.index ==> #[trigger] after[chunk.id].parts[i]
                    is None
        }),
{
    let filled = buffer_for(buffers, chunk).filled(chunk.index, chunk.data);
    let other = if chunk.index == 0 {
        1int
    } else {
        0int
    };
    assert(filled.parts[other] is None);
}

/// A payload of one chunk is whole with it, and nothing of it is kept.
pub proof fn law_single_chunk_is_the_payload(buffers: Map<Seq<char>, BufferView>, chunk: ChunkView)
    requires
        buffers_wf(buffers),
        chunk.index == 0,
        chunk.total == 1,
    ensures
        receive(buffers, chunk).1 == Some(chunk.data),
        !receive(buffers, chunk).0.contains_key(chunk.id),
{
    let filled = buffer_for(buffers, chunk).filled(chunk.index, chunk.data);
    assert(filled.parts =~= seq![Some(chunk.data)]);
    lemma_joined(seq![chunk.data], filled.parts);
    reveal_with_fuel(concat, 2);
    assert(seq![chunk.data].drop_last() =~= Seq::empty());
    assert(concat(seq![chunk.data]) =~= chunk.data);
}

/// A chunk of a payload that is waited for takes its place, in place of one of the same index that
/// came before; while another one is missing the rest of the buffer stays, its time included.
pub proof fn law_further_chunk_takes_its_place(
    buffers: Map<Seq<char>, BufferView>,
    chunk: ChunkView,
    missing: int,
)
    requires
        0 <= chunk.index < chunk.total <= 256,
        buffers.contains_key(chunk.id),
        chunk.now - buffers[chunk.id].created_at < 15_000,
        buffers[chunk.id].total == chunk.total,
        buffers[chunk.id].parts.len() == chunk.total,
        0 <= missing < chunk.total,
        missing != chunk.index,
        buffers[chunk.id].parts[missing] is None,
    ensures
        ({
            let (after, payload) = receive(buffers, chunk);
            &&& payload is None
            &&& after.contains_key(chunk.id)
            &&& after[chunk.id].total == chunk.total
            &&& after[chunk.id].created_at == buffers[chunk.id].created_at
            &&& after[chunk.id].parts.len() == chunk.total
            &&& after[chunk.id].parts[chunk.index] == Some(chunk.data)
            &&& forall|i: int|
                0 <= i < chunk.total && i != chunk.index ==> #[trigger] after[chunk.id].parts[i]
                    == buffers[chunk.id].parts[i]
        }),
{
    let filled = buffer_for(buffers, chunk).filled(chunk.index, chunk.data);
    assert(filled.parts[missing] is None);
}

/// The chunk that was missing makes the payload whole: the chunks one behind the other, and
/// nothing of it is kept.
pub proof fn law_last_chunk_makes_the_payload_whole(
    buffers: Map<Seq<char>, BufferView>,
    chunk: ChunkView,
    parts: Seq<Seq<char>>,
)
    requires
        0 <= chunk.index < chunk.total <= 256,
        buffers.contains_key(chunk.id),
        chunk.now - buffers[chunk.id].created_at < 15_000,
        buffers[chunk.id].total == chunk.total,
        buffers[chunk.id].parts.len() == chunk.total,
        parts.len() == chunk.total,
        parts[chunk.index] == chunk.data,
        forall|i: int|
            0 <= i < chunk.total && i != chunk.index ==> #[trigger] buffers[chunk.id].parts[i]
                == Some(parts[i]),
    ensures
        receive(buffers, chunk).1 == Some(parts.flatten()),
        !receive(buffers, chunk).0.contains_key(chunk.id),
{
    let before = buffer_for(buffers, chunk);
    let filled = before.filled(chunk.index, chunk.data);
    assert forall|i: int| 0 <= i < parts.len() implies #[trigger] filled.parts[i] == Some(
        parts[i],
    ) by {
        if i != chunk.index {
            assert(before.parts[i] == Some(parts[i]));
        }
    }
    assert(filled.complete());
    lemma_joined(parts, filled.parts);
    law_concat_is_flatten(parts);
}

/// The parts of a payload one behind the other are the payload.
pub proof fn law_concat_is_flatten(parts: Seq<Seq<char>>)
    ensures
        concat(parts) == parts.flatten(),
    decreases parts.len(),
{
    parts.lemma_flatten_and_flatten_alt_are_equivalent();
    if parts.len() > 0 {
        law_concat_is_flatten(parts.drop_last());
        parts.drop_last().lemma_flatten_and_flatten_alt_are_equivalent();
    }
}

} // verus!
