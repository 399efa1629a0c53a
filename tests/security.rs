use chainquest_idle::security::{
    PlayerSecurityStatus, RejectReason, SecurityManager, ValidationConfig, ValidationResult,
};

const T0: u64 = 1_700_000_000;

#[test]
fn excessive_collection_is_rejected() {
    let mut sm = SecurityManager::default();
    for i in 0..3 {
        assert_eq!(
            sm.validate_resource_collection_at(1, 1001, T0 + i * 10),
            ValidationResult::Rejected(RejectReason::ExcessiveResourceGain)
        );
    }
    assert_eq!(sm.get_player_status(1).unwrap().suspicious_activity_count, 3);
}

#[test]
fn single_valid_collection_is_approved() {
    let mut sm = SecurityManager::default();
    assert_eq!(sm.validate_resource_collection_at(1, 500, T0), ValidationResult::Approved);
    assert_eq!(sm.player_actions[&1].last_resource_collection, T0);
    assert_eq!(sm.validate_resource_collection_at(2, 1000, T0), ValidationResult::Approved);
}

#[test]
fn collection_with_system_clock() {
    let mut sm = SecurityManager::default();
    assert_eq!(sm.validate_resource_collection(1, 500), ValidationResult::Approved);
    assert_eq!(
        sm.validate_resource_collection(1, 1001),
        ValidationResult::Rejected(RejectReason::ExcessiveResourceGain)
    );
}

#[test]
fn rapid_collections_are_rate_limited() {
    let mut sm = SecurityManager::default();
    for _ in 0..10 {
        assert_eq!(sm.validate_resource_collection_at(1, 1, T0), ValidationResult::Approved);
    }
    assert_eq!(sm.validate_resource_collection_at(1, 1, T0), ValidationResult::RateLimited);
    assert_eq!(sm.validate_resource_collection_at(1, 1, T0), ValidationResult::RateLimited);
    let status = sm.get_player_status(1).unwrap();
    assert_eq!(status.suspicious_activity_count, 2);
    assert_eq!(status.actions_per_second, 12);
    assert!(status.is_rate_limited);
    assert!(!status.is_flagged);
    assert_eq!(sm.validate_resource_collection_at(1, 1, T0 + 1), ValidationResult::Approved);
}

#[test]
fn quest_completions_need_five_seconds() {
    let mut sm = SecurityManager::default();
    assert_eq!(sm.validate_quest_completion_at(1, 10, T0), ValidationResult::Approved);
    assert_eq!(
        sm.validate_quest_completion_at(1, 11, T0 + 4),
        ValidationResult::Rejected(RejectReason::QuestTooFrequent)
    );
    assert_eq!(sm.validate_quest_completion_at(1, 11, T0 + 5), ValidationResult::Approved);
    assert_eq!(sm.get_player_status(1).unwrap().suspicious_activity_count, 1);
}

#[test]
fn level_jump_is_rejected_with_penalty() {
    let mut sm = SecurityManager::default();
    assert_eq!(
        sm.validate_level_up_at(1, 1, 10, T0),
        ValidationResult::Rejected(RejectReason::SuspiciousLevelProgression)
    );
    assert_eq!(sm.get_player_status(1).unwrap().suspicious_activity_count, 5);
    assert_eq!(sm.validate_level_up_at(1, 1, 6, T0), ValidationResult::Approved);
    assert_eq!(sm.validate_level_up_at(1, 10, 3, T0), ValidationResult::Approved);
    assert_eq!(sm.player_actions[&1].last_level_up, T0);
    assert_eq!(sm.validate_level_up(2, 4, 5), ValidationResult::Approved);
}

#[test]
fn ten_rejections_then_valid_call_is_flagged() {
    let mut sm = SecurityManager::default();
    for i in 0..10 {
        assert_eq!(
            sm.validate_resource_collection_at(1, 5000, T0 + i),
            ValidationResult::Rejected(RejectReason::ExcessiveResourceGain)
        );
    }
    let status = sm.get_player_status(1).unwrap();
    assert_eq!(status.suspicious_activity_count, 10);
    assert!(status.is_flagged);
    assert_eq!(sm.validate_resource_collection_at(1, 10, T0 + 20), ValidationResult::Flagged);
}

#[test]
fn reset_clears_flag() {
    let mut sm = SecurityManager::default();
    sm.validate_level_up_at(1, 0, 100, T0);
    sm.validate_level_up_at(1, 0, 100, T0);
    assert!(sm.get_player_status(1).unwrap().is_flagged);
    sm.reset_player_security(1);
    sm.reset_player_security(99);
    assert_eq!(
        sm.get_player_status(1),
        Some(PlayerSecurityStatus {
            player_id: 1,
            suspicious_activity_count: 0,
            actions_per_second: 0,
            is_flagged: false,
            is_rate_limited: false,
        })
    );
    assert_eq!(sm.get_player_status(99), None);
    assert_eq!(sm.validate_resource_collection_at(1, 10, T0), ValidationResult::Approved);
}

#[test]
fn cleanup_evicts_after_an_hour() {
    let mut sm = SecurityManager::default();
    sm.validate_quest_completion_at(1, 1, T0);
    sm.validate_quest_completion_at(2, 1, T0 + 2);
    sm.validate_resource_collection_at(3, 1, T0 + 3600);
    sm.cleanup(T0 + 3601);
    assert!(sm.get_player_status(1).is_none());
    assert!(sm.get_player_status(2).is_some());
    assert!(sm.get_player_status(3).is_some());
    sm.cleanup(T0 + 3602);
    assert!(sm.get_player_status(2).is_some());
    sm.cleanup(T0 + 3603);
    assert!(sm.get_player_status(2).is_none());
    assert_eq!(sm.player_ids(), vec![3]);
}

#[test]
fn custom_policy_applies() {
    let cfg = ValidationConfig {
        max_actions_per_second: 1,
        min_time_between_quests: 60,
        max_resource_gain_per_action: 10,
        max_level_jumps: 1,
        suspicious_threshold: 2,
    };
    let mut sm = SecurityManager::with_config(cfg);
    assert_eq!(sm.validate_resource_collection_at(1, 10, T0), ValidationResult::Approved);
    assert_eq!(sm.validate_resource_collection_at(1, 10, T0), ValidationResult::RateLimited);
    assert_eq!(
        sm.validate_resource_collection_at(1, 11, T0 + 5),
        ValidationResult::Rejected(RejectReason::ExcessiveResourceGain)
    );
    assert_eq!(sm.validate_resource_collection_at(1, 10, T0 + 5), ValidationResult::Flagged);
    assert_eq!(ValidationConfig::default().max_resource_gain_per_action, 1000);
}
