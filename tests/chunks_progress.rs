use cache_sweep::chunks::{chunk_bounds, chunk_count};
use cache_sweep::progress::{progress, BAR_CELLS};

#[test]
fn chunks_of_250_by_100() {
    assert_eq!(chunk_count(250, 100), 3);
    assert_eq!(chunk_bounds(250, 100), vec![(0, 100), (100, 200), (200, 250)]);
}

#[test]
fn chunks_of_empty_list() {
    assert_eq!(chunk_count(0, 100), 0);
    assert!(chunk_bounds(0, 100).is_empty());
}

#[test]
fn chunks_exact_multiple_and_single() {
    assert_eq!(chunk_bounds(200, 100), vec![(0, 100), (100, 200)]);
    assert_eq!(chunk_bounds(1, 100), vec![(0, 1)]);
    assert_eq!(chunk_count(101, 100), 2);
}

#[test]
fn chunks_reassemble_the_list() {
    let list: Vec<u32> = (0..257).collect();
    let mut joined: Vec<u32> = Vec::new();
    let bounds = chunk_bounds(list.len(), 10);
    assert_eq!(bounds.len(), 26);
    for (k, (lo, hi)) in bounds.iter().enumerate() {
        if k + 1 < bounds.len() {
            assert_eq!(hi - lo, 10);
        } else {
            assert_eq!(hi - lo, 7);
        }
        joined.extend_from_slice(&list[*lo..*hi]);
    }
    assert_eq!(joined, list);
}

#[test]
fn progress_of_nothing_is_none() {
    assert!(progress(0, 0).is_none());
}

#[test]
fn progress_at_start_is_empty_bar() {
    let p = progress(0, 4).unwrap();
    assert_eq!(p.percent, 0);
    assert_eq!(p.bar, "\u{3000}".repeat(BAR_CELLS));
}

#[test]
fn progress_quarter_has_half_glyph() {
    let p = progress(1, 4).unwrap();
    assert_eq!(p.percent, 25);
    let expected = format!("{}{}{}", "\u{2588}".repeat(12), "\u{258C}", "\u{3000}".repeat(37));
    assert_eq!(p.bar, expected);
    assert_eq!(p.bar.chars().count(), BAR_CELLS);
}

#[test]
fn progress_complete_only_at_last_entry() {
    let before = progress(249, 250).unwrap();
    assert_eq!(before.percent, 99);
    assert_ne!(before.bar, "\u{2588}".repeat(BAR_CELLS));
    let done = progress(250, 250).unwrap();
    assert_eq!(done.percent, 100);
    assert_eq!(done.bar, "\u{2588}".repeat(BAR_CELLS));
}

#[test]
fn progress_near_end_of_long_run_is_not_full() {
    let p = progress(9_999, 10_000).unwrap();
    assert_eq!(p.percent, 99);
    assert_eq!(p.bar.chars().count(), BAR_CELLS);
    assert_ne!(p.bar, "\u{2588}".repeat(BAR_CELLS));
}
