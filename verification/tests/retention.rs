//! Retention: grouping, pruning, pins and what the operator is told.

use plrd::retention::{
    apply_pruning, group_into_sessions, overage_commands, plan_pruning, reclaimed_bytes,
    resolve_pins, run_pruning, session_names_file, NamedFile, Overage, Pending, Pins, SegmentMeta, Session, Unlink,
};

const S: u64 = 1_000_000_000; // one second in ns

/// The least fall of the clock that counts as a reboot.
const FLOOR: u64 = 5 * S;

/// A segment with a readable header at `mono` and a given byte size.
fn seg(index: u64, size_bytes: u64, mono: u64) -> SegmentMeta {
    SegmentMeta {
        index,
        size_bytes,
        created_mono_ns: Some(mono),
    }
}

/// A single-boot session holding one synthetic segment of `bytes`.
fn one_seg_session(index: u64, bytes: u64) -> Session {
    Session {
        segments: vec![index],
        total_bytes: bytes,
        deletable: true,
    }
}

// ---- group_into_sessions ------------------------------------------

#[test]
fn empty_segments_yield_no_sessions() {
    assert!(group_into_sessions(&[], FLOOR).is_empty());
}

#[test]
fn one_boot_is_one_session() {
    // Rotations within a boot: mono only increases.
    let s =
        group_into_sessions(&[seg(1, 16, 100 * S), seg(2, 16, 200 * S), seg(3, 4, 300 * S)], FLOOR);
    assert_eq!(s.len(), 1);
    assert_eq!(s[0].segments, vec![1, 2, 3]);
    assert_eq!(s[0].total_bytes, 36);
    assert!(s[0].deletable);
}

#[test]
fn a_reboot_splits_sessions() {
    // seg 3's header mono regressed far below seg 2's => new boot.
    let s = group_into_sessions(&[
        seg(1, 16, 50_000 * S),
        seg(2, 16, 50_100 * S),
        seg(3, 16, 20 * S),
        seg(4, 16, 40 * S),
    ], FLOOR);
    assert_eq!(s.len(), 2);
    assert_eq!(s[0].segments, vec![1, 2]);
    assert_eq!(s[1].segments, vec![3, 4]);
}

#[test]
fn sub_threshold_mono_jitter_stays_one_session() {
    // A same-boot rotation whose clock ticked backwards by less than
    // the floor (jitter) must NOT split — mirrors epoch's threshold.
    let below = group_into_sessions(&[
        seg(1, 16, 100 * S),
        seg(2, 16, 100 * S - (FLOOR - 1)),
    ], FLOOR);
    assert_eq!(below.len(), 1);
    // Exactly the floor splits.
    let at = group_into_sessions(&[
        seg(1, 16, 100 * S),
        seg(2, 16, 100 * S - FLOOR),
    ], FLOOR);
    assert_eq!(at.len(), 2);
}

#[test]
fn an_unreadable_header_isolates_and_is_kept() {
    let s = group_into_sessions(&[
        seg(1, 16, 100 * S),
        SegmentMeta {
            index: 2,
            size_bytes: 16,
            created_mono_ns: None,
        },
        seg(3, 16, 300 * S),
    ], FLOOR);
    // The corrupt segment neither merges with its neighbours nor lets
    // them merge across it: three sessions, the middle non-deletable.
    assert_eq!(s.len(), 3);
    assert_eq!(s[1].segments, vec![2]);
    assert!(!s[1].deletable);
    assert!(s[0].deletable && s[2].deletable);
}

// ---- plan_pruning: the four safety invariants ---------------------

#[test]
fn under_cap_deletes_nothing() {
    let sessions = vec![one_seg_session(1, 10), one_seg_session(2, 10)];
    let plan = plan_pruning(&sessions, &Pins::default(), 1000);
    assert!(plan.delete.is_empty());
    assert_eq!(plan.kept_bytes, 20);
    assert!(plan.overage.is_none());
}

#[test]
fn over_cap_prunes_oldest_first_and_keeps_the_newest_session() {
    // Four boots of 100 B each = 400 B; cap 250 B. Oldest-first,
    // deleting sessions 0 and 1 leaves 200 B <= 250 B; stop.
    let sessions = vec![
        one_seg_session(1, 100),
        one_seg_session(2, 100),
        one_seg_session(3, 100),
        one_seg_session(4, 100),
    ];
    let plan = plan_pruning(&sessions, &Pins::default(), 250);
    assert_eq!(plan.delete, vec![1, 2]); // (a) session 4 (newest) untouched
    assert_eq!(plan.kept_bytes, 200);
    assert!(plan.overage.is_none());
    // (d) the highest-numbered segment (4) is never deleted.
    assert!(!plan.delete.contains(&4));
}

#[test]
fn deletion_is_whole_session_never_partial() {
    // (c) a multi-segment old session is deleted as a unit or not at all.
    let sessions = vec![
        Session {
            segments: vec![1, 2, 3],
            total_bytes: 300,
            deletable: true,
        },
        one_seg_session(4, 50),
    ];
    let plan = plan_pruning(&sessions, &Pins::default(), 100);
    // Over cap: the only deletable-below-newest session is #0; all three
    // of its segments go, none held back.
    assert_eq!(plan.delete, vec![1, 2, 3]);
}

#[test]
fn the_newest_session_is_never_deleted_even_when_it_alone_exceeds_cap() {
    // (a)+(d): one giant newest session, cap far below it.
    let sessions = vec![Session {
        segments: vec![1, 2],
        total_bytes: 10_000,
        deletable: true,
    }];
    let plan = plan_pruning(&sessions, &Pins::default(), 100);
    assert!(plan.delete.is_empty());
    let overage = plan.overage.expect("newest over cap must report overage");
    assert_eq!(overage.over_by, 9_900);
    assert!(overage.pinned.is_none(), "no pin: best-effort case");
}

// ---- plan_pruning: pins beat the cap ------------------------------

#[test]
fn a_pinned_session_is_never_deleted_and_pins_from_it_onward() {
    // (b): sessions 0..4, pin at ordinal 2. Even wildly over cap, only
    // sessions strictly older than the pin may be deleted.
    let sessions = vec![
        one_seg_session(1, 100),
        one_seg_session(2, 100),
        one_seg_session(3, 100), // pinned
        one_seg_session(4, 100),
        one_seg_session(5, 100),
    ];
    let pins = Pins {
        keep_from: Some(2),
        pinned: Some("pending recovery for '/g/part.gcode'".to_owned()),
    };
    let plan = plan_pruning(&sessions, &pins, 100);
    // Sessions 0 and 1 deletable; 2 (pin), 3, 4 kept "onward".
    assert_eq!(plan.delete, vec![1, 2]);
    assert!(!plan.delete.contains(&3)); // the pinned session survives
                                        // 300 B retained (sessions 2,3,4) exceeds the 100 B cap: loud overage
                                        // naming the pin.
    let overage = plan.overage.expect("pin holds usage over cap");
    assert_eq!(overage.kept_bytes, 300);
    assert_eq!(overage.over_by, 200);
    assert_eq!(
        overage.pinned.as_deref(),
        Some("pending recovery for '/g/part.gcode'")
    );
}

#[test]
fn keep_from_zero_keeps_everything() {
    // The "cannot localize a pin" answer: keep_from = Some(0).
    let sessions = vec![
        one_seg_session(1, 100),
        one_seg_session(2, 100),
        one_seg_session(3, 100),
    ];
    let pins = Pins {
        keep_from: Some(0),
        pinned: Some("frame-invalid interlock (keeping all WAL)".to_owned()),
    };
    let plan = plan_pruning(&sessions, &pins, 50);
    assert!(plan.delete.is_empty());
    assert_eq!(plan.overage.unwrap().over_by, 250);
}

#[test]
fn a_corrupt_session_below_the_floor_is_skipped_not_deleted() {
    // Session 0 corrupt (non-deletable), session 1 an old deletable
    // boot, session 2 newest. Over cap: 0 is kept (corrupt), 1 is
    // reclaimed even though it is newer than 0.
    let sessions = vec![
        Session {
            segments: vec![1],
            total_bytes: 100,
            deletable: false,
        },
        one_seg_session(2, 100),
        one_seg_session(3, 100),
    ];
    let plan = plan_pruning(&sessions, &Pins::default(), 150);
    assert_eq!(plan.delete, vec![2]); // corrupt #1 skipped, not deleted
    assert!(!plan.delete.contains(&1));
    // 200 B kept still over 150 cap (corrupt + newest can't be freed).
    assert_eq!(plan.overage.unwrap().over_by, 50);
}

#[test]
fn empty_sessions_plan_is_a_noop() {
    let plan = plan_pruning(&[], &Pins::default(), 0);
    assert!(plan.delete.is_empty());
    assert!(plan.overage.is_none());
}

/// A context in `segment` that names `file`.
fn names(segment: u64, file: &str) -> NamedFile {
    NamedFile {
        segment,
        file: file.to_owned(),
    }
}

fn pending(file: &str, frame_invalid: bool) -> Option<Pending> {
    Some(Pending {
        file: file.to_owned(),
        frame_invalid,
    })
}

#[test]
fn no_state_files_means_no_pins() {
    let sessions = group_into_sessions(&[seg(1, 64, 100 * S)], FLOOR);
    let pins = resolve_pins(&None, false, &sessions, &[names(1, "/g/a.gcode")]);
    assert_eq!(pins, Pins::default());
}

#[test]
fn pending_resolves_to_the_newest_session_naming_the_file() {
    // Boot 0 printed a.gcode; boot 1 (reboot: mono resets) printed b.gcode.
    let sessions = group_into_sessions(&[seg(1, 64, 50_000 * S), seg(2, 64, 20 * S)], FLOOR);
    assert_eq!(sessions.len(), 2);
    let contexts = [names(1, "/g/a.gcode"), names(2, "/g/b.gcode")];
    let pins = resolve_pins(&pending("/g/a.gcode", false), false, &sessions, &contexts);
    assert_eq!(pins.keep_from, Some(0));
    assert!(pins.pinned.unwrap().contains("a.gcode"));
    // The newest of two sessions that name it wins.
    let twice = [names(1, "/g/a.gcode"), names(2, "/g/a.gcode")];
    let pins = resolve_pins(&pending("/g/a.gcode", false), false, &sessions, &twice);
    assert_eq!(pins.keep_from, Some(1));
    assert_eq!(
        pins.pinned.as_deref(),
        Some("pending recovery for '/g/a.gcode'")
    );
}

#[test]
fn pending_for_an_absent_file_keeps_everything() {
    let sessions = group_into_sessions(&[seg(1, 64, 100 * S)], FLOOR);
    let contexts = [names(1, "/g/a.gcode")];
    let pins = resolve_pins(
        &pending("/g/GONE.gcode", false),
        false,
        &sessions,
        &contexts,
    );
    assert_eq!(pins.keep_from, Some(0)); // keep all
    assert!(pins.pinned.unwrap().contains("session not found"));
}

#[test]
fn a_lone_frame_invalid_interlock_keeps_everything() {
    let sessions = group_into_sessions(&[seg(1, 64, 100 * S)], FLOOR);
    let pins = resolve_pins(&None, true, &sessions, &[names(1, "/g/a.gcode")]);
    assert_eq!(pins.keep_from, Some(0));
    assert!(pins.pinned.unwrap().contains("frame-invalid"));
}

#[test]
fn frame_invalid_with_pending_resolves_the_session_and_flags_it() {
    let sessions = group_into_sessions(&[seg(1, 64, 100 * S)], FLOOR);
    let contexts = [names(1, "/g/a.gcode")];
    let pins = resolve_pins(&pending("/g/a.gcode", true), true, &sessions, &contexts);
    assert_eq!(pins.keep_from, Some(0));
    assert!(pins.pinned.unwrap().contains("Z frame UNKNOWN"));
}

#[test]
fn end_to_end_prunes_oldest_boots_and_keeps_newest() {
    // Three boots, reboots between them (mono resets). No pins.
    let metas = [seg(1, 200, 90_000 * S), seg(2, 200, 60_000 * S), seg(3, 200, 20 * S)];
    let sessions = group_into_sessions(&metas, FLOOR);
    assert_eq!(sessions.len(), 3, "three boots");
    let one = metas[0].size_bytes;
    let pins = resolve_pins(&None, false, &sessions, &[]);
    assert_eq!(pins, Pins::default());
    let plan = plan_pruning(&sessions, &pins, one * 2 + 10);
    assert_eq!(plan.delete, vec![1], "only the oldest boot is pruned");
    assert!(!plan.delete.contains(&3), "newest boot kept");
    // The whole decision in one call says the same.
    let whole = run_pruning(&metas, &[], &None, false, one * 2 + 10, FLOOR).unwrap();
    assert_eq!(whole, plan);
    assert!(run_pruning(&[], &[], &None, true, 0, FLOOR).is_none());
}

#[test]
fn an_overage_is_announced_only_when_a_pin_holds_it() {
    let mut overage = Overage {
        over_by: 200,
        kept_bytes: 300,
        cap: 100,
        pinned: None,
    };
    assert!(overage_commands(&overage).is_none());
    overage.pinned = Some("pending recovery for '/g/a\"b.gcode'".to_owned());
    let (respond, notice) = overage_commands(&overage).unwrap();
    assert_eq!(
        notice,
        "M117 dead-reckoning: WAL retention cannot meet its 100 B cap — 200 B over, held by \
         pending recovery for /g/ab.gcode. Evidence is being KEPT, not deleted; free space or \
         clear the pin."
    );
    assert!(respond.starts_with("RESPOND PREFIX=dead-reckoning MSG=\"dead-reckoning: WAL"));
    assert!(respond.ends_with("clear the pin.\""));
}

#[test]
fn applying_the_plan_counts_removals_and_keeps_the_first_error() {
    let fine = [Unlink::Removed, Unlink::Missing, Unlink::Removed];
    assert_eq!(apply_pruning(&fine, Ok(())), Ok(2));
    let bad = [
        Unlink::Removed,
        Unlink::Failed("first".to_owned()),
        Unlink::Failed("second".to_owned()),
    ];
    assert_eq!(apply_pruning(&bad, Ok(())), Err("first".to_owned()));
    assert_eq!(
        apply_pruning(&bad, Err("sync".to_owned())),
        Err("sync".to_owned())
    );
}

#[test]
fn sizes_beyond_the_largest_integer_are_capped_and_nothing_panics() {
    let metas = [seg(1, u64::MAX, 1), seg(2, 1, 2)];
    let sessions = group_into_sessions(&metas, FLOOR);
    assert_eq!(sessions.len(), 1);
    assert_eq!(sessions[0].segments, vec![1, 2]);
    assert_eq!(sessions[0].total_bytes, u64::MAX);

    let old = [one_seg_session(1, u64::MAX), one_seg_session(2, u64::MAX), one_seg_session(3, 5)];
    let kept = plan_pruning(&old, &Pins { keep_from: Some(0), pinned: None }, 10);
    assert!(kept.delete.is_empty());
    assert_eq!(kept.kept_bytes, u64::MAX);
    assert_eq!(kept.overage.map(|o| o.over_by), Some(u64::MAX));
    // Both old sessions go before the cap is met: the sum is not cut short.
    let pruned = plan_pruning(&old, &Pins::default(), 10);
    assert_eq!(pruned.delete, vec![1, 2]);
    assert_eq!(pruned.kept_bytes, 5);
    assert!(pruned.overage.is_none());
    // Even the largest cap can be exceeded.
    let over = plan_pruning(&old, &Pins { keep_from: Some(0), pinned: None }, u64::MAX);
    assert_eq!(over.kept_bytes, u64::MAX);
    assert!(over.overage.is_some());

    assert_eq!(reclaimed_bytes(&metas, &vec![1, 2]), u64::MAX);
    assert_eq!(reclaimed_bytes(&metas, &vec![2]), 1);
}

#[test]
fn a_pending_recovery_without_a_name_keeps_everything() {
    let sessions = [one_seg_session(1, 10), one_seg_session(2, 10)];
    let contexts = [names(2, ""), names(1, "/g/a.gcode")];
    assert!(!session_names_file(&sessions[1], &contexts, ""));
    assert!(session_names_file(&sessions[0], &contexts, "/g/a.gcode"));
    let pins = resolve_pins(&pending("", false), false, &sessions, &contexts);
    assert_eq!(pins.keep_from, Some(0));
    assert_eq!(
        pins.pinned.as_deref(),
        Some("pending recovery for '' (session not found; keeping all WAL)")
    );
    assert!(plan_pruning(&sessions, &pins, 0).delete.is_empty());
}
