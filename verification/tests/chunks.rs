use bentham::chunks::split_chunks;

#[test]
fn split_chunks_empty() {
    // send_message's non-empty check depends on this not producing [""].
    assert!(split_chunks("", 2000).is_empty());
}

#[test]
fn split_chunks_exact_boundary() {
    let s = "a".repeat(2000);
    assert_eq!(split_chunks(&s, 2000), vec![s.clone()]);
    let s = "a".repeat(2001);
    let lens: Vec<usize> = split_chunks(&s, 2000).iter().map(|c| c.chars().count()).collect();
    assert_eq!(lens, vec![2000, 1]);
}

#[test]
fn split_chunks_newline_preferred() {
    let s = format!("{}\n{}", "a".repeat(1500), "b".repeat(1000));
    let chunks = split_chunks(&s, 2000);
    // Break after the newline, not at 2000.
    assert_eq!(chunks, vec![format!("{}\n", "a".repeat(1500)), "b".repeat(1000)]);
}

#[test]
fn split_chunks_leading_newline_guard() {
    let s = format!("\n{}", "a".repeat(2500));
    let chunks = split_chunks(&s, 2000);
    assert!(chunks.iter().all(|c| !c.is_empty()));
    // Cut at the cap, not at the position-0 newline the guard excludes.
    assert_eq!(chunks[0].chars().count(), 2000);
    assert_eq!(chunks.concat(), s);
}

#[test]
fn split_chunks_newline_only_in_first_window() {
    // A newline past position 2000 must not shape the first cut.
    let s = format!("{}\n{}", "a".repeat(2100), "b".repeat(50));
    let chunks = split_chunks(&s, 2000);
    assert_eq!(chunks.len(), 2);
    assert_eq!(chunks[0], "a".repeat(2000));
    assert_eq!(chunks.concat(), s);
}

#[test]
fn split_chunks_unicode() {
    // 4-byte chars: counted in chars, not bytes (byte slicing would panic).
    let s = "🦀".repeat(2100);
    let chunks = split_chunks(&s, 2000);
    let lens: Vec<usize> = chunks.iter().map(|c| c.chars().count()).collect();
    assert_eq!(lens, vec![2000, 100]);
    assert_eq!(chunks.concat(), s);
    // Mixed accents/emoji straddling the boundary.
    let s = format!("{}é🦀é", "x".repeat(1998));
    let chunks = split_chunks(&s, 2000);
    let lens: Vec<usize> = chunks.iter().map(|c| c.chars().count()).collect();
    assert_eq!(lens, vec![2000, 1]);
    assert_eq!(chunks.concat(), s);
}

#[test]
fn chunks_stay_within_the_limit() {
    let s = "ab\ncd\n\nefgh\ni";
    let chunks = split_chunks(s, 4);
    assert_eq!(chunks, vec!["ab\n", "cd\n\n", "efgh", "\ni"]);
    assert_eq!(chunks.concat(), s);
}
