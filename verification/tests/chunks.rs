use button_automation::chunks::BridgeChunks;

fn send(chunks: &mut BridgeChunks, id: &str, index: usize, total: usize, data: &str, now: u64) -> Option<String> {
    chunks.receive_chunk(id.to_string(), index, total, data.to_string(), now)
}

#[test]
fn a_single_chunk_is_the_payload() {
    let mut chunks = BridgeChunks::new();
    assert_eq!(send(&mut chunks, "a", 0, 1, "xyz", 0), Some("xyz".to_string()));
}

#[test]
fn chunks_may_come_in_any_order_and_more_than_once() {
    let mut chunks = BridgeChunks::new();
    assert_eq!(send(&mut chunks, "a", 2, 3, "ef", 10), None);
    assert_eq!(send(&mut chunks, "a", 0, 3, "ab", 20), None);
    assert_eq!(send(&mut chunks, "a", 0, 3, "ab", 30), None);
    assert_eq!(send(&mut chunks, "a", 1, 3, "cd", 40), Some("abcdef".to_string()));
    assert_eq!(send(&mut chunks, "a", 1, 3, "cd", 50), None);
}

#[test]
fn a_later_chunk_of_the_same_index_wins() {
    let mut chunks = BridgeChunks::new();
    assert_eq!(send(&mut chunks, "a", 0, 2, "old", 0), None);
    assert_eq!(send(&mut chunks, "a", 0, 2, "new", 0), None);
    assert_eq!(send(&mut chunks, "a", 1, 2, "!", 0), Some("new!".to_string()));
}

#[test]
fn payloads_do_not_disturb_one_another() {
    let mut chunks = BridgeChunks::new();
    assert_eq!(send(&mut chunks, "a", 0, 2, "a0", 0), None);
    assert_eq!(send(&mut chunks, "b", 1, 2, "b1", 0), None);
    assert_eq!(send(&mut chunks, "b", 0, 2, "b0", 0), Some("b0b1".to_string()));
    assert_eq!(send(&mut chunks, "a", 1, 2, "a1", 0), Some("a0a1".to_string()));
}

#[test]
fn another_number_of_chunks_starts_afresh() {
    let mut chunks = BridgeChunks::new();
    assert_eq!(send(&mut chunks, "a", 0, 2, "old", 0), None);
    assert_eq!(send(&mut chunks, "a", 1, 3, "b", 0), None);
    assert_eq!(send(&mut chunks, "a", 2, 3, "c", 0), None);
    assert_eq!(send(&mut chunks, "a", 0, 3, "a", 0), Some("abc".to_string()));
}

#[test]
fn a_buffer_is_dropped_after_its_lifetime() {
    let mut chunks = BridgeChunks::new();
    assert_eq!(send(&mut chunks, "a", 0, 2, "a", 1_000), None);
    assert_eq!(send(&mut chunks, "a", 1, 2, "b", 15_999), Some("ab".to_string()));
    assert_eq!(send(&mut chunks, "a", 0, 2, "a", 1_000), None);
    assert_eq!(send(&mut chunks, "a", 1, 2, "b", 16_000), None);
    assert_eq!(send(&mut chunks, "a", 0, 2, "a", 16_001), Some("ab".to_string()));
}

#[test]
fn the_lifetime_starts_with_the_first_chunk() {
    let mut chunks = BridgeChunks::new();
    assert_eq!(send(&mut chunks, "a", 0, 3, "a", 0), None);
    assert_eq!(send(&mut chunks, "a", 1, 3, "b", 14_999), None);
    assert_eq!(send(&mut chunks, "a", 2, 3, "c", 15_000), None);
}

#[test]
fn a_clock_that_goes_back_drops_nothing() {
    let mut chunks = BridgeChunks::new();
    assert_eq!(send(&mut chunks, "a", 0, 2, "a", 100_000), None);
    assert_eq!(send(&mut chunks, "a", 1, 2, "b", 0), Some("ab".to_string()));
}

#[test]
fn the_largest_number_of_chunks_is_reassembled() {
    let mut chunks = BridgeChunks::new();
    for index in (1..256).rev() {
        assert_eq!(send(&mut chunks, "a", index, 256, &format!("{index};"), 0), None);
    }
    let expected: String = (0..256).map(|index| format!("{index};")).collect();
    assert_eq!(send(&mut chunks, "a", 0, 256, "0;", 0), Some(expected));
}
