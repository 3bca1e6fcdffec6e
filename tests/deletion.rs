use cache_sweep::pass::{outcome_of, plan_removal, DeletionPass, EntryKind, Outcome, Removal};

#[test]
fn removal_fits_the_kind() {
    assert_eq!(plan_removal(EntryKind::File), Removal::File);
    assert_eq!(plan_removal(EntryKind::Dir), Removal::Tree);
    assert_eq!(plan_removal(EntryKind::Missing), Removal::Skip);
}

#[test]
fn outcome_follows_kind_and_result() {
    assert_eq!(outcome_of(EntryKind::File, true), Outcome::Removed);
    assert_eq!(outcome_of(EntryKind::Dir, false), Outcome::Failed);
    assert_eq!(outcome_of(EntryKind::Missing, false), Outcome::Skipped);
    assert_eq!(outcome_of(EntryKind::Missing, true), Outcome::Skipped);
}

#[test]
fn pass_of_250_files_in_chunks_of_100() {
    let mut pass = DeletionPass::new(250, 100);
    assert_eq!(pass.chunk_total(), 3);
    let mut chunk_ends = Vec::new();
    while let Some(i) = pass.next_entry() {
        let r = pass.record(EntryKind::File, true);
        assert_eq!(r.current, i + 1);
        assert_eq!(r.total, 250);
        if let Some(k) = r.chunk_done {
            chunk_ends.push((k, r.current));
        }
    }
    assert_eq!(chunk_ends, vec![(0, 100), (1, 200), (2, 250)]);
    assert_eq!(pass.removed_count(), 250);
    assert!(pass.failures().is_empty());
}

#[test]
fn entry_removed_out_of_band_is_skipped() {
    let mut pass = DeletionPass::new(3, 100);
    pass.record(EntryKind::File, true);
    let r = pass.record(EntryKind::Missing, false);
    assert_eq!(r.outcome, Outcome::Skipped);
    pass.record(EntryKind::Dir, true);
    assert_eq!(pass.removed_count(), 2);
    assert_eq!(pass.skipped_count(), 1);
    assert_eq!(pass.failed_count(), 0);
    assert!(pass.failures().is_empty());
    assert_eq!(pass.next_entry(), None);
}

#[test]
fn each_entry_ends_in_one_outcome() {
    let mut pass = DeletionPass::new(5, 2);
    pass.record(EntryKind::File, false);
    pass.record(EntryKind::Dir, true);
    pass.record(EntryKind::Missing, true);
    pass.record(EntryKind::Dir, false);
    pass.record(EntryKind::File, true);
    assert_eq!(pass.failures(), vec![0, 3]);
    assert_eq!(pass.failed_count(), 2);
    assert_eq!(pass.removed_count(), 2);
    assert_eq!(pass.skipped_count(), 1);
    assert_eq!(pass.failed_count() + pass.removed_count() + pass.skipped_count(), 5);
}

#[test]
fn all_failing_pass_lists_every_entry() {
    let mut pass = DeletionPass::new(4, 100);
    while pass.next_entry().is_some() {
        pass.record(EntryKind::File, false);
    }
    assert_eq!(pass.failures(), vec![0, 1, 2, 3]);
}

#[test]
fn second_pass_over_vanished_entries_fails_nothing() {
    let mut pass = DeletionPass::new(3, 3);
    while pass.next_entry().is_some() {
        pass.record(EntryKind::Missing, false);
    }
    assert!(pass.failures().is_empty());
    assert_eq!(pass.skipped_count(), 3);
}

#[test]
fn chunk_reported_at_uneven_end() {
    let mut pass = DeletionPass::new(3, 2);
    assert_eq!(pass.record(EntryKind::File, true).chunk_done, None);
    assert_eq!(pass.record(EntryKind::File, true).chunk_done, Some(0));
    assert_eq!(pass.record(EntryKind::File, true).chunk_done, Some(1));
}
