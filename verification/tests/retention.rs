use home_automation_rs::retention::{retention_cutoff, RetentionStats, Sweep, CHUNK_SECS, ENERGY_CHUNK_SKIP_BELOW};

#[test]
fn sweep_walks_day_chunks_to_cutoff() {
    let cutoff = retention_cutoff(10 * 86_400 + 500);
    assert_eq!(cutoff, 3 * 86_400 + 500);
    let mut s = Sweep::begin(Some(86_400 + 77), cutoff, ENERGY_CHUNK_SKIP_BELOW).unwrap();
    assert_eq!(s.start, 86_400);
    let mut chunks = Vec::new();
    while let Some((start, end)) = s.next_chunk() {
        chunks.push((start, end));
        let removed = if s.should_downsample(301) { Some(10) } else { None };
        s.finish_chunk(end, removed);
    }
    assert_eq!(chunks, vec![(86_400, 2 * 86_400), (2 * 86_400, 3 * 86_400), (3 * 86_400, 3 * 86_400 + 500)]);
    assert_eq!((s.deleted, s.chunks), (30, 3));
}

#[test]
fn sweep_skips_small_chunks_and_empty_tables() {
    assert!(Sweep::begin(None, 1000, 80).is_none());
    let mut s = Sweep::begin(Some(10), 100, 80).unwrap();
    assert_eq!(s.start, 0);
    assert!(!s.should_downsample(80));
    assert!(s.should_downsample(81));
    let (_, end) = s.next_chunk().unwrap();
    s.finish_chunk(end, None);
    assert_eq!((s.deleted, s.chunks), (0, 0));
    assert!(s.next_chunk().is_none());
}

#[test]
fn chunk_start_rounds_toward_zero() {
    let s = Sweep::begin(Some(-100), 1000, 0).unwrap();
    assert_eq!(s.start, 0);
    let s = Sweep::begin(Some(-CHUNK_SECS - 1), 1000, 0).unwrap();
    assert_eq!(s.start, -CHUNK_SECS);
    let stats = RetentionStats::default();
    assert_eq!((stats.energy_deleted, stats.temperature_deleted, stats.chunks_processed), (0, 0, 0));
}
