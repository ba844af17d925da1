use oni2_assets::blk::{
    animblock_name, block_index_for_alias, parse_blk_content, ANIMREACT_INVALID, NUM_HIT_TYPES,
};

fn f(text: &str) -> f32 {
    text.parse::<f32>().expect("float text")
}

/// ANIMBLOCK_NORMAL.blk parses end-to-end and every field round-trips to
/// the value in the file.
#[test]
fn parses_animblock_normal() {
    let content = "
            StartPhase 0.0
            EndPhase 1.0
            Rate 1.0
            HeadingDegrees 0.0
            WidthDegrees 360.0
            AnimMidPoint 0.079994
            AnimMidPointEnd 0.919999
            HoldButton 0.319999
            BlockableGuardTypes 2047
            ReactAnim0 -1
            ReactAnim1 -1
            ReactAnim2 -1
            ReactAnim3 -1
            ReactAnim4 -1
            ReactAnim5 -1
            ReactAnim6 -1
            ReactAnim7 -1
            ReactAnim8 -1
            ReactAnim9 -1
            ReactAnim10 -1
            ReactAnim11 -1
            ReactAnim12 -1
            ReactAnim13 -1
            ReactAnim14 -1
            ReactAnim15 -1
            CounterAtk \"\"
            AtkNoQueueThreshold 0.0
            AtkBeginRedirectThreshold 0.0
            AtkEndRedirectThreshold 0.0
            Opp2CritStart 0.599993
            Opp2DoCritStart 0.599993
            AtkEndRedirectLimit 1.0
            Opp3DoStart 1.0
            Opp3QStart 1.0
            SuccessfulBlockAnim ANIMBLOCK_SLOT_0
        ";
    let def = parse_blk_content(content, 0).expect("parse failed");
    assert_eq!(def.anim_index, 0);
    assert!((f(&def.start_phase) - 0.0).abs() < 1e-6);
    assert!((f(&def.end_phase) - 1.0).abs() < 1e-6);
    assert!((f(&def.rate) - 1.0).abs() < 1e-6);
    // 360° → 2π
    assert!((f(&def.width_degrees).to_radians() - std::f32::consts::TAU).abs() < 1e-4);
    assert!((f(&def.heading_degrees).to_radians() - 0.0).abs() < 1e-6);
    assert!((f(&def.anim_mid_point) - 0.079994).abs() < 1e-4);
    assert!((f(&def.anim_mid_point_end) - 0.919999).abs() < 1e-4);
    assert!((f(&def.max_hold_button) - 0.319999).abs() < 1e-4);
    assert_eq!(def.blockable_hit_types, 2047);
    assert_eq!(def.failed_block_react_anims.len(), NUM_HIT_TYPES);
    assert!(def
        .failed_block_react_anims
        .iter()
        .all(|&v| v == ANIMREACT_INVALID));
    assert!(
        def.counter_atk.is_none(),
        "empty CounterAtk should map to None"
    );
    assert_eq!(
        def.successful_block_anim.as_deref(),
        Some("ANIMBLOCK_SLOT_0")
    );
    // AnimControlBlock — Opp2CritStart 0.6 lands in opp2_q_crit_start
    let acb = def.anim_control_block.as_ref().expect("control block");
    assert!((f(&acb.opp2_q_crit_start) - 0.599993).abs() < 1e-4);
    assert!((f(&acb.opp2_do_end) - 1.0).abs() < 1e-6);
}

/// Slot block: non-empty CounterAtk, identical mid points
/// (instantaneous hold), full 0xF7FF blockable mask.
#[test]
fn parses_animblock_slot_0() {
    let content = "
            StartPhase 0.0
            EndPhase 1.0
            Rate 1.0
            HeadingDegrees 0.0
            WidthDegrees 360.0
            AnimMidPoint 0.5
            AnimMidPointEnd 0.5
            HoldButton 0.439998
            BlockableGuardTypes 63487
            ReactAnim0 -1
            CounterAtk ANIMGA_COUNTER_1
            AtkNoQueueThreshold 0.0
            AtkBeginRedirectThreshold 0.0
            AtkEndRedirectThreshold 0.0
            Opp2CritStart 1.0
            Opp2DoCritStart 1.0
            AtkEndRedirectLimit 1.0
            Opp3DoStart 1.0
            Opp3QStart 1.0
            SuccessfulBlockAnim ANIMBLOCK_SLOT_0
        ";
    let def = parse_blk_content(content, 1).expect("parse failed");
    assert_eq!(def.blockable_hit_types, 63487);
    assert_eq!(def.counter_atk.as_deref(), Some("ANIMGA_COUNTER_1"));
    assert!((f(&def.anim_mid_point) - f(&def.anim_mid_point_end)).abs() < 1e-6);
}

#[test]
fn blk_requires_start_phase() {
    assert!(parse_blk_content("EndPhase 1.0", 0).is_none());
    assert!(parse_blk_content("", 0).is_none());
}

#[test]
fn block_aliases_round_trip_case_insensitively() {
    for i in 0..6 {
        let name = animblock_name(i);
        assert_eq!(block_index_for_alias(name), Some(i as i32));
        assert_eq!(
            block_index_for_alias(&name.to_ascii_lowercase()),
            Some(i as i32)
        );
    }
    assert_eq!(block_index_for_alias("ANIMBLOCK_NOPE"), None);
}
