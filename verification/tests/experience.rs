use yuno_core::levels::compute_level;
use yuno_core::xp::{apply_credit, plan_flush, PendingXp, XpAggregator};

#[test]
fn level_formula() {
    assert_eq!(compute_level(400), 2);
    assert_eq!(compute_level(99), 0);
    assert_eq!(compute_level(100), 1);
}

#[test]
fn level_formula_more_points() {
    assert_eq!(compute_level(0), 0);
    assert_eq!(compute_level(399), 1);
    assert_eq!(compute_level(900), 3);
    assert_eq!(compute_level(10_000), 10);
    assert_eq!(compute_level(10_099), 10);
}

#[test]
fn credits_for_one_key_merge() {
    // Two credit events of 10 and 15 for the same key merge into a single
    // pending entry of 25, keeping the later event's channel.
    let mut agg = XpAggregator::new();
    agg.add_xp_to_batch(7, 1, 100, 10);
    agg.add_xp_to_batch(7, 1, 200, 15);
    assert_eq!(agg.pending_amount(1, 7), 25);

    let batch = agg.take_pending();
    assert_eq!(batch.len(), 1);
    assert_eq!(batch[0].user_id, 7);
    assert_eq!(batch[0].guild_id, 1);
    assert_eq!(batch[0].channel_id, 200);
    assert_eq!(batch[0].xp_amount, 25);

    // After the flush the persisted XP rises by exactly 25.
    let (writes, _notices) = plan_flush(&batch, &vec![(100, 1)]);
    assert_eq!(writes.len(), 1);
    assert_eq!(writes[0].new_xp, 125);
}

#[test]
fn merge_preserves_first_seen_timestamp() {
    let mut agg = XpAggregator::new();
    agg.add_xp_to_batch(7, 1, 100, 10);
    let first_seen = {
        let batch = agg.take_pending();
        batch[0].added_at
    };
    agg.add_xp_to_batch(7, 1, 100, 10);
    agg.add_xp_to_batch(7, 1, 300, 5);
    let batch = agg.take_pending();
    assert_eq!(batch.len(), 1);
    assert_eq!(batch[0].xp_amount, 15);
    assert!(batch[0].added_at >= first_seen);
}

#[test]
fn keys_accumulate_independently() {
    let mut agg = XpAggregator::new();
    agg.add_xp_to_batch(7, 1, 100, 10);
    agg.add_xp_to_batch(8, 1, 100, 20);
    agg.add_xp_to_batch(7, 2, 100, 30);
    assert_eq!(agg.pending_amount(1, 7), 10);
    assert_eq!(agg.pending_amount(1, 8), 20);
    assert_eq!(agg.pending_amount(2, 7), 30);
    assert_eq!(agg.pending_amount(2, 8), 0);
    assert_eq!(agg.take_pending().len(), 3);
}

#[test]
fn empty_flush_is_a_noop() {
    // An empty pending map plans zero store writes and zero notices.
    let mut agg = XpAggregator::new();
    let batch = agg.take_pending();
    assert!(batch.is_empty());
    let (writes, notices) = plan_flush(&batch, &Vec::new());
    assert!(writes.is_empty());
    assert!(notices.is_empty());
}

#[test]
fn take_pending_empties_the_batch() {
    let mut agg = XpAggregator::new();
    agg.add_xp_to_batch(7, 1, 100, 10);
    assert_eq!(agg.take_pending().len(), 1);
    assert!(agg.take_pending().is_empty());
    assert_eq!(agg.pending_amount(1, 7), 0);
}

#[test]
fn message_credit_lies_in_the_fixed_range() {
    let mut agg = XpAggregator::new();
    for round in 1..=50 {
        agg.add_message_xp(7, 1, 100);
        let total = agg.pending_amount(1, 7);
        assert!(15 * round <= total && total <= 25 * round, "total {}", total);
    }
}

#[test]
fn apply_credit_levels_up_exactly_when_the_level_rises() {
    let entry = PendingXp { user_id: 7, guild_id: 1, channel_id: 100, xp_amount: 25, added_at: 0 };

    // 90 + 25 crosses the first threshold.
    let (write, notice) = apply_credit(&entry, 90, 0);
    assert_eq!(write.new_xp, 115);
    assert_eq!(write.new_level, 1);
    let notice = notice.expect("crossing a threshold must notify");
    assert_eq!(notice.user_id, 7);
    assert_eq!(notice.guild_id, 1);
    assert_eq!(notice.channel_id, 100);
    assert_eq!(notice.new_level, 1);
    assert_eq!(notice.new_xp, 115);

    // 10 + 25 crosses nothing.
    let (write, notice) = apply_credit(&entry, 10, 0);
    assert_eq!(write.new_xp, 35);
    assert_eq!(write.new_level, 0);
    assert!(notice.is_none());
}

#[test]
fn flush_plans_one_write_per_entry() {
    let batch = vec![
        PendingXp { user_id: 7, guild_id: 1, channel_id: 100, xp_amount: 25, added_at: 0 },
        PendingXp { user_id: 8, guild_id: 1, channel_id: 200, xp_amount: 10, added_at: 0 },
    ];
    let (writes, notices) = plan_flush(&batch, &vec![(90, 0), (500, 2)]);
    assert_eq!(writes.len(), 2);
    assert_eq!(writes[0].new_xp, 115);
    assert_eq!(writes[0].new_level, 1);
    assert_eq!(writes[1].new_xp, 510);
    assert_eq!(writes[1].new_level, 2);
    // Only the first entry levelled up.
    assert_eq!(notices.len(), 1);
    assert_eq!(notices[0].user_id, 7);
    assert_eq!(notices[0].channel_id, 100);
}
