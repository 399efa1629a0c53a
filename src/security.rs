//! The anti-cheat validator: per-player action histories and the checks that
//! approve or refuse game-state-changing actions.
//!
//! Histories are keyed by player id, which outlives any connection, and are
//! created on a player's first validated action. Times are whole seconds
//! since the Unix epoch. Each check comes in two forms: one that reads the
//! system clock, and one (`..._at`) that takes the time as an argument.

use std::collections::HashMap;
use vstd::prelude::*;
use vstd::std_specs::iter::IteratorSpec;

verus! {

broadcast use vstd::std_specs::hash::group_hash_axioms;

/// A history idle for longer than this many seconds is evicted by
/// [`SecurityManager::cleanup`].
pub const HISTORY_RETENTION_SECS: u64 = 3600;

/// Suspicion added by a refused level jump.
pub const LEVEL_JUMP_PENALTY: u32 = 5;

/// The policy of the validator.
#[derive(Debug, Clone, Copy, PartialEq, Eq, Structural)]
pub struct ValidationConfig {
    /// Resource collections allowed within one second.
    pub max_actions_per_second: u32,
    /// Seconds that must pass between two quest completions.
    pub min_time_between_quests: u64,
    /// Largest amount of resources one collection may bring, in whole units.
    pub max_resource_gain_per_action: u64,
    /// Largest number of levels gained at once.
    pub max_level_jumps: u32,
    /// Suspicion at which a player is flagged.
    pub suspicious_threshold: u32,
}

/// The default policy.
pub open spec fn default_config() -> ValidationConfig {
    ValidationConfig {
        max_actions_per_second: 10,
        min_time_between_quests: 5,
        max_resource_gain_per_action: 1000,
        max_level_jumps: 5,
        suspicious_threshold: 10,
    }
}

impl Default for ValidationConfig {
    fn default() -> (r: ValidationConfig)
        ensures
            r == default_config(),
    {
        ValidationConfig {
            max_actions_per_second: 10,
            min_time_between_quests: 5,
            max_resource_gain_per_action: 1000,
            max_level_jumps: 5,
            suspicious_threshold: 10,
        }
    }
}

/// What the validator remembers of one player.
#[derive(Debug, Clone, Copy, PartialEq, Eq, Structural)]
pub struct PlayerActionHistory {
    /// When the last approved resource collection happened.
    pub last_resource_collection: u64,
    /// When the last approved quest completion happened.
    pub last_quest_completion: u64,
    /// When the last approved level-up happened.
    pub last_level_up: u64,
    /// Resource collections counted in the current second.
    pub actions_per_second: u32,
    /// Penalty points; they only grow until an explicit reset.
    pub suspicious_activity_count: u32,
}

/// The history of a player seen for the first time.
pub open spec fn new_history() -> PlayerActionHistory {
    PlayerActionHistory {
        last_resource_collection: 0,
        last_quest_completion: 0,
        last_level_up: 0,
        actions_per_second: 0,
        suspicious_activity_count: 0,
    }
}

/// The history of `player_id` as a check sees it: the stored one, or a new
/// one.
pub open spec fn history_of(
    histories: Map<u32, PlayerActionHistory>,
    player_id: u32,
) -> PlayerActionHistory {
    if histories.contains_key(player_id) {
        histories[player_id]
    } else {
        new_history()
    }
}

/// Why an action was refused.
#[derive(Debug, Clone, Copy, PartialEq, Eq, Structural)]
pub enum RejectReason {
    /// A collection brought more than one action may.
    ExcessiveResourceGain,
    /// A quest was completed too soon after the previous one.
    QuestTooFrequent,
    /// Too many levels were gained at once.
    SuspiciousLevelProgression,
}

/// The outcome of a check.
#[derive(Debug, Clone, Copy, PartialEq, Eq, Structural)]
pub enum ValidationResult {
    Approved,
    RateLimited,
    Flagged,
    Rejected(RejectReason),
}

/// A snapshot of a player's standing, computed when asked for.
#[derive(Debug, Clone, Copy, PartialEq, Eq, Structural)]
pub struct PlayerSecurityStatus {
    pub player_id: u32,
    pub suspicious_activity_count: u32,
    pub actions_per_second: u32,
    pub is_flagged: bool,
    pub is_rate_limited: bool,
}

/// Seconds from `earlier` to `now`; zero if `now` is not later.
pub open spec fn elapsed(now: u64, earlier: u64) -> u64 {
    if now >= earlier {
        (now - earlier) as u64
    } else {
        0
    }
}

/// `x + n`, held at `u32::MAX`.
pub open spec fn add_capped(x: u32, n: u32) -> u32 {
    if x + n > u32::MAX {
        u32::MAX
    } else {
        (x + n) as u32
    }
}

/// A resource collection of `amount` at `now`: the history after it, and
/// the outcome.
pub open spec fn resource_step(
    h: PlayerActionHistory,
    cfg: ValidationConfig,
    amount: u64,
    now: u64,
) -> (PlayerActionHistory, ValidationResult) {
    if amount > cfg.max_resource_gain_per_action {
        (
            PlayerActionHistory {
                suspicious_activity_count: add_capped(h.suspicious_activity_count, 1),
                ..h
            },
            ValidationResult::Rejected(RejectReason::ExcessiveResourceGain),
        )
    } else {
        let rate = if elapsed(now, h.last_resource_collection) < 1 {
            add_capped(h.actions_per_second, 1)
        } else {
            1
        };
        if rate > cfg.max_actions_per_second {
            (
                PlayerActionHistory {
                    actions_per_second: rate,
                    suspicious_activity_count: add_capped(h.suspicious_activity_count, 1),
                    ..h
                },
                ValidationResult::RateLimited,
            )
        } else {
            let updated = PlayerActionHistory {
                actions_per_second: rate,
                last_resource_collection: now,
                ..h
            };
            if updated.suspicious_activity_count >= cfg.suspicious_threshold {
                (updated, ValidationResult::Flagged)
            } else {
                (updated, ValidationResult::Approved)
            }
        }
    }
}

/// A quest completion at `now`: the history after it, and the outcome.
pub open spec fn quest_step(h: PlayerActionHistory, cfg: ValidationConfig, now: u64) -> (
    PlayerActionHistory,
    ValidationResult,
) {
    if elapsed(now, h.last_quest_completion) < cfg.min_time_between_quests {
        (
            PlayerActionHistory {
                suspicious_activity_count: add_capped(h.suspicious_activity_count, 1),
                ..h
            },
            ValidationResult::Rejected(RejectReason::QuestTooFrequent),
        )
    } else {
        (PlayerActionHistory { last_quest_completion: now, ..h }, ValidationResult::Approved)
    }
}

/// Levels gained going from `old_level` to `new_level`; none when the level
/// does not rise.
pub open spec fn level_gain(old_level: u32, new_level: u32) -> u32 {
    if new_level >= old_level {
        (new_level - old_level) as u32
    } else {
        0
    }
}

/// A level-up from `old_level` to `new_level` at `now`: the history after
/// it, and the outcome.
pub open spec fn level_step(
    h: PlayerActionHistory,
    cfg: ValidationConfig,
    old_level: u32,
    new_level: u32,
    now: u64,
) -> (PlayerActionHistory, ValidationResult) {
    if level_gain(old_level, new_level) > cfg.max_level_jumps {
        (
            PlayerActionHistory {
                suspicious_activity_count: add_capped(
                    h.suspicious_activity_count,
                    LEVEL_JUMP_PENALTY,
                ),
                ..h
            },
            ValidationResult::Rejected(RejectReason::SuspiciousLevelProgression),
        )
    } else {
        (PlayerActionHistory { last_level_up: now, ..h }, ValidationResult::Approved)
    }
}

/// The most recent of a history's timestamps.
pub open spec fn last_activity(h: PlayerActionHistory) -> u64 {
    let a = if h.last_resource_collection >= h.last_quest_completion {
        h.last_resource_collection
    } else {
        h.last_quest_completion
    };
    if a >= h.last_level_up {
        a
    } else {
        h.last_level_up
    }
}

/// Whether a history survives a cleanup at `now`: it was active within the
/// retention period.
pub open spec fn is_retained(h: PlayerActionHistory, now: u64) -> bool {
    elapsed(now, last_activity(h)) <= HISTORY_RETENTION_SECS
}

/// The standing of a player with history `h` under `cfg`.
pub open spec fn status_of(
    player_id: u32,
    h: PlayerActionHistory,
    cfg: ValidationConfig,
) -> PlayerSecurityStatus {
    PlayerSecurityStatus {
        player_id,
        suspicious_activity_count: h.suspicious_activity_count,
        actions_per_second: h.actions_per_second,
        is_flagged: h.suspicious_activity_count >= cfg.suspicious_threshold,
        is_rate_limited: h.actions_per_second > cfg.max_actions_per_second,
    }
}

/// Relies on `SystemTime::elapsed`, taken from the Unix epoch: the whole
/// seconds since then, or zero for a clock set before it. Nothing is
/// promised of the value.
#[verifier::external_body]
fn current_timestamp() -> u64 {
    match std::time::UNIX_EPOCH.elapsed() {
        Ok(since) => since.as_secs(),
        Err(_) => 0,
    }
}

/// `x - y`, or zero where `y` is the larger.
fn seconds_between(now: u64, earlier: u64) -> (r: u64)
    ensures
        r == elapsed(now, earlier),
{
    if now >= earlier {
        now - earlier
    } else {
        0
    }
}

/// The validator: a history per player and the policy.
#[derive(Debug)]
pub struct SecurityManager {
    /// History of each player seen, keyed by player id.
    pub player_actions: HashMap<u32, PlayerActionHistory>,
    pub validation_config: ValidationConfig,
}

impl Default for SecurityManager {
    fn default() -> (r: SecurityManager)
        ensures
            r.player_actions@ == Map::<u32, PlayerActionHistory>::empty(),
            r.validation_config == default_config(),
    {
        SecurityManager {
            player_actions: HashMap::new(),
            validation_config: ValidationConfig::default(),
        }
    }
}

impl SecurityManager {
    /// A validator with no histories and the given policy.
    pub fn with_config(validation_config: ValidationConfig) -> (r: SecurityManager)
        ensures
            r.player_actions@ == Map::<u32, PlayerActionHistory>::empty(),
            r.validation_config == validation_config,
    {
        SecurityManager { player_actions: HashMap::new(), validation_config }
    }

    /// The stored history of `player_id`, or a new one.
    fn history(&self, player_id: u32) -> (r: PlayerActionHistory)
        ensures
            r == history_of(self.player_actions@, player_id),
    {
        match self.player_actions.get(&player_id) {
            Some(h) => *h,
            None => PlayerActionHistory {
                last_resource_collection: 0,
                last_quest_completion: 0,
                last_level_up: 0,
                actions_per_second: 0,
                suspicious_activity_count: 0,
            },
        }
    }

    /// Checks a collection of `amount` whole resource units by `player_id`
    /// at `now`. An amount above the per-action maximum is refused with one
    /// point of suspicion. Otherwise the collection is counted against the
    /// per-second rate: over it, the outcome is `RateLimited` with one point
    /// of suspicion, and the time of the last collection stays as it was.
    /// Within it, the collection is recorded, and the outcome is `Flagged`
    /// for a player whose suspicion has reached the threshold, `Approved`
    /// for any other.
    pub fn validate_resource_collection_at(&mut self, player_id: u32, amount: u64, now: u64) -> (r:
        ValidationResult)
        ensures
            final(self).validation_config == old(self).validation_config,
            ({
                let (h, res) = resource_step(
                    history_of(old(self).player_actions@, player_id),
                    old(self).validation_config,
                    amount,
                    now,
                );
                &&& r == res
                &&& final(self).player_actions@ == old(self).player_actions@.insert(player_id, h)
            }),
    {
        let mut h = self.history(player_id);
        let cfg = self.validation_config;
        let result;
        if amount > cfg.max_resource_gain_per_action {
            h.suspicious_activity_count = h.suspicious_activity_count.saturating_add(1);
            result = ValidationResult::Rejected(RejectReason::ExcessiveResourceGain);
        } else {
            if seconds_between(now, h.last_resource_collection) < 1 {
                h.actions_per_second = h.actions_per_second.saturating_add(1);
            } else {
                h.actions_per_second = 1;
            }
            if h.actions_per_second > cfg.max_actions_per_second {
                h.suspicious_activity_count = h.suspicious_activity_count.saturating_add(1);
                result = ValidationResult::RateLimited;
            } else {
                h.last_resource_collection = now;
                if h.suspicious_activity_count >= cfg.suspicious_threshold {
                    result = ValidationResult::Flagged;
                } else {
                    result = ValidationResult::Approved;
                }
            }
        }
        self.player_actions.insert(player_id, h);
        result
    }

    /// [`Self::validate_resource_collection_at`] at the time the system
    /// clock gives.
    pub fn validate_resource_collection(&mut self, player_id: u32, amount: u64) -> (r:
        ValidationResult)
        ensures
            final(self).validation_config == old(self).validation_config,
            exists|now: u64|
                {
                    let (h, res) = #[trigger] resource_step(
                        history_of(old(self).player_actions@, player_id),
                        old(self).validation_config,
                        amount,
                        now,
                    );
                    &&& r == res
                    &&& final(self).player_actions@ == old(self).player_actions@.insert(
                        player_id,
                        h,
                    )
                },
    {
        let now = current_timestamp();
        self.validate_resource_collection_at(player_id, amount, now)
    }

    /// Checks a quest completion by `player_id` at `now`: refused, with one
    /// point of suspicion, when the previous approved completion is less
    /// than the minimum interval ago; otherwise approved and recorded.
    pub fn validate_quest_completion_at(&mut self, player_id: u32, quest_id: u32, now: u64) -> (r:
        ValidationResult)
        ensures
            final(self).validation_config == old(self).validation_config,
            ({
                let (h, res) = quest_step(
                    history_of(old(self).player_actions@, player_id),
                    old(self).validation_config,
                    now,
                );
                &&& r == res
                &&& final(self).player_actions@ == old(self).player_actions@.insert(player_id, h)
            }),
    {
        let mut h = self.history(player_id);
        let result;
        if seconds_between(now, h.last_quest_completion)
            < self.validation_config.min_time_between_quests {
            h.suspicious_activity_count = h.suspicious_activity_count.saturating_add(1);
            result = ValidationResult::Rejected(RejectReason::QuestTooFrequent);
        } else {
            h.last_quest_completion = now;
            result = ValidationResult::Approved;
        }
        self.player_actions.insert(player_id, h);
        result
    }

    /// [`Self::validate_quest_completion_at`] at the time the system clock
    /// gives.
    pub fn validate_quest_completion(&mut self, player_id: u32, quest_id: u32) -> (r:
        ValidationResult)
        ensures
            final(self).validation_config == old(self).validation_config,
            exists|now: u64|
                {
                    let (h, res) = #[trigger] quest_step(
                        history_of(old(self).player_actions@, player_id),
                        old(self).validation_config,
                        now,
                    );
                    &&& r == res
                    &&& final(self).player_actions@ == old(self).player_actions@.insert(
                        player_id,
                        h,
                    )
                },
    {
        let now = current_timestamp();
        self.validate_quest_completion_at(player_id, quest_id, now)
    }

    /// Checks a level-up of `player_id` from `old_level` to `new_level` at
    /// `now`: a gain of more levels than allowed at once is refused with
    /// [`LEVEL_JUMP_PENALTY`] points of suspicion; any other is approved and
    /// recorded.
    pub fn validate_level_up_at(
        &mut self,
        player_id: u32,
        old_level: u32,
        new_level: u32,
        now: u64,
    ) -> (r: ValidationResult)
        ensures
            final(self).validation_config == old(self).validation_config,
            ({
                let (h, res) = level_step(
                    history_of(old(self).player_actions@, player_id),
                    old(self).validation_config,
                    old_level,
                    new_level,
                    now,
                );
                &&& r == res
                &&& final(self).player_actions@ == old(self).player_actions@.insert(player_id, h)
            }),
    {
        let mut h = self.history(player_id);
        let level_jump = new_level.saturating_sub(old_level);
        let result;
        if level_jump > self.validation_config.max_level_jumps {
            h.suspicious_activity_count = h.suspicious_activity_count.saturating_add(
                LEVEL_JUMP_PENALTY,
            );
            result = ValidationResult::Rejected(RejectReason::SuspiciousLevelProgression);
        } else {
            h.last_level_up = now;
            result = ValidationResult::Approved;
        }
        self.player_actions.insert(player_id, h);
        result
    }

    /// [`Self::validate_level_up_at`] at the time the system clock gives.
    pub fn validate_level_up(&mut self, player_id: u32, old_level: u32, new_level: u32) -> (r:
        ValidationResult)
        ensures
            final(self).validation_config == old(self).validation_config,
            exists|now: u64|
                {
                    let (h, res) = #[trigger] level_step(
                        history_of(old(self).player_actions@, player_id),
                        old(self).validation_config,
                        old_level,
                        new_level,
                        now,
                    );
                    &&& r == res
                    &&& final(self).player_actions@ == old(self).player_actions@.insert(
                        player_id,
                        h,
                    )
                },
    {
        let now = current_timestamp();
        self.validate_level_up_at(player_id, old_level, new_level, now)
    }

    /// The standing of a tracked player, computed from its history now;
    /// `None` for a player the validator has not seen.
    pub fn get_player_status(&self, player_id: u32) -> (r: Option<PlayerSecurityStatus>)
        ensures
            !self.player_actions@.contains_key(player_id) ==> r is None,
            self.player_actions@.contains_key(player_id) ==> r == Some(
                status_of(player_id, self.player_actions@[player_id], self.validation_config),
            ),
    {
        match self.player_actions.get(&player_id) {
            Some(h) => Some(
                PlayerSecurityStatus {
                    player_id,
                    suspicious_activity_count: h.suspicious_activity_count,
                    actions_per_second: h.actions_per_second,
                    is_flagged: h.suspicious_activity_count
                        >= self.validation_config.suspicious_threshold,
                    is_rate_limited: h.actions_per_second
                        > self.validation_config.max_actions_per_second,
                },
            ),
            None => None,
        }
    }

    /// Clears the suspicion and the action rate of a tracked player; does
    /// nothing for any other.
    pub fn reset_player_security(&mut self, player_id: u32)
        ensures
            final(self).validation_config == old(self).validation_config,
            old(self).player_actions@.contains_key(player_id) ==> final(self).player_actions@
                == old(self).player_actions@.insert(
                player_id,
                PlayerActionHistory {
                    suspicious_activity_count: 0,
                    actions_per_second: 0,
                    ..old(self).player_actions@[player_id]
                },
            ),
            !old(self).player_actions@.contains_key(player_id) ==> final(self).player_actions@
                == old(self).player_actions@,
    {
        match self.player_actions.get(&player_id) {
            Some(h) => {
                let cleared = PlayerActionHistory {
                    suspicious_activity_count: 0,
                    actions_per_second: 0,
                    ..*h
                };
                self.player_actions.insert(player_id, cleared);
            },
            None => {},
        }
    }

    /// Evicts every history idle for longer than
    /// [`HISTORY_RETENTION_SECS`] at `now`, and keeps the others as they
    /// are. Meant to be called periodically; the validator holds no timer.
    pub fn cleanup(&mut self, now: u64)
        ensures
            final(self).validation_config == old(self).validation_config,
            forall|p: u32|
                #[trigger] final(self).player_actions@.contains_key(p) <==> (
                old(self).player_actions@.contains_key(p)
                    && is_retained(old(self).player_actions@[p], now)),
            forall|p: u32|
                #[trigger] final(self).player_actions@.contains_key(p)
                    ==> final(self).player_actions@[p] == old(self).player_actions@[p],
    {
        let ids = self.player_ids();
        let ghost before = self.player_actions@;
        let mut i: usize = 0;
        while i < ids.len()
            invariant
                i <= ids@.len(),
                ids@.no_duplicates(),
                ids@.to_set() == before.dom(),
                before == old(self).player_actions@,
                self.validation_config == old(self).validation_config,
                forall|p: u32|
                    #[trigger] self.player_actions@.contains_key(p) ==> before.contains_key(p)
                        && self.player_actions@[p] == before[p],
                forall|j: int|
                    0 <= j < i ==> (self.player_actions@.contains_key(#[trigger] ids@[j])
                        <==> is_retained(before[ids@[j]], now)),
                forall|j: int|
                    i <= j < ids@.len() ==> self.player_actions@.contains_key(#[trigger] ids@[j]),
            decreases ids@.len() - i,
        {
            let id = ids[i];
            proof {
                assert(ids@.to_set().contains(id));
                assert forall|j: int| 0 <= j < ids@.len() && j != i implies ids@[j] != id by {}
            }
            match self.player_actions.get(&id) {
                Some(h) => {
                    let a = if h.last_resource_collection >= h.last_quest_completion {
                        h.last_resource_collection
                    } else {
                        h.last_quest_completion
                    };
                    let last = if a >= h.last_level_up {
                        a
                    } else {
                        h.last_level_up
                    };
                    if seconds_between(now, last) > HISTORY_RETENTION_SECS {
                        self.player_actions.remove(&id);
                    }
                },
                None => {},
            }
            i = i + 1;
        }
        proof {
            assert forall|p: u32| #[trigger]
                old(self).player_actions@.contains_key(p) && is_retained(
                    old(self).player_actions@[p],
                    now,
                ) implies self.player_actions@.contains_key(p) by {
                assert(ids@.to_set().contains(p));
                let j = choose|j: int| 0 <= j < ids@.len() && #[trigger] ids@[j] == p;
            }
        }
    }

    /// The ids of the tracked players, each once.
    pub fn player_ids(&self) -> (r: Vec<u32>)
        ensures
            r@.no_duplicates(),
            r@.to_set() == self.player_actions@.dom(),
    {
        let mut ids: Vec<u32> = Vec::new();
        let keys = self.player_actions.keys();
        let ghost all = keys.remaining().unref();
        proof {
            assert(all.to_set() == self.player_actions@.dom());
        }
        for id in it: keys
            invariant
                it.seq().unref() == all,
                all.no_duplicates(),
                ids@ == all.take(it.index() as int),
                it.index() == it.seq().len() ==> ids@ == all,
        {
            ids.push(*id);
            proof {
                assert(ids@ =~= all.take(it.index() + 1));
            }
        }
        ids
    }
}

/// A collection of more than the per-action maximum is always refused,
/// whatever the history and the time, and costs one point of suspicion.
pub proof fn lemma_excessive_collection_rejected(
    h: PlayerActionHistory,
    cfg: ValidationConfig,
    amount: u64,
    now: u64,
)
    requires
        amount > cfg.max_resource_gain_per_action,
    ensures
        resource_step(h, cfg, amount, now).1 == ValidationResult::Rejected(
            RejectReason::ExcessiveResourceGain,
        ),
        resource_step(h, cfg, amount, now).0 == (PlayerActionHistory {
            suspicious_activity_count: add_capped(h.suspicious_activity_count, 1),
            ..h
        }),
        h.suspicious_activity_count < u32::MAX ==> resource_step(
            h,
            cfg,
            amount,
            now,
        ).0.suspicious_activity_count == h.suspicious_activity_count + 1,
{
}

/// A player's first collection, of an amount within the maximum, is
/// approved under any policy that allows at least one collection a second
/// and flags at a positive threshold.
pub proof fn lemma_first_collection_approved(cfg: ValidationConfig, amount: u64, now: u64)
    requires
        amount <= cfg.max_resource_gain_per_action,
        cfg.max_actions_per_second >= 1,
        cfg.suspicious_threshold >= 1,
    ensures
        resource_step(new_history(), cfg, amount, now).1 == ValidationResult::Approved,
{
}

/// After an approved quest completion at `first`, a second one is refused
/// while less than the minimum interval has passed, and approved once it
/// has.
pub proof fn lemma_quest_spacing(
    h: PlayerActionHistory,
    cfg: ValidationConfig,
    first: u64,
    second: u64,
)
    requires
        quest_step(h, cfg, first).1 == ValidationResult::Approved,
        second >= first,
    ensures
        second - first < cfg.min_time_between_quests ==> quest_step(
            quest_step(h, cfg, first).0,
            cfg,
            second,
        ).1 == ValidationResult::Rejected(RejectReason::QuestTooFrequent),
        second - first < cfg.min_time_between_quests ==> quest_step(
            quest_step(h, cfg, first).0,
            cfg,
            second,
        ).0 == (PlayerActionHistory {
            suspicious_activity_count: add_capped(h.suspicious_activity_count, 1),
            last_quest_completion: first,
            ..h
        }),
        second - first >= cfg.min_time_between_quests ==> quest_step(
            quest_step(h, cfg, first).0,
            cfg,
            second,
        ).1 == ValidationResult::Approved,
{
}

/// A level jump beyond the allowed gain is refused and adds
/// [`LEVEL_JUMP_PENALTY`] points of suspicion.
pub proof fn lemma_level_jump_penalized(
    h: PlayerActionHistory,
    cfg: ValidationConfig,
    old_level: u32,
    new_level: u32,
    now: u64,
)
    requires
        new_level >= old_level,
        new_level - old_level > cfg.max_level_jumps,
    ensures
        level_step(h, cfg, old_level, new_level, now).1 == ValidationResult::Rejected(
            RejectReason::SuspiciousLevelProgression,
        ),
        level_step(h, cfg, old_level, new_level, now).0 == (PlayerActionHistory {
            suspicious_activity_count: add_capped(h.suspicious_activity_count, LEVEL_JUMP_PENALTY),
            ..h
        }),
        h.suspicious_activity_count + LEVEL_JUMP_PENALTY <= u32::MAX ==> level_step(
            h,
            cfg,
            old_level,
            new_level,
            now,
        ).0.suspicious_activity_count == h.suspicious_activity_count + LEVEL_JUMP_PENALTY,
{
}

/// A refused level jump by a player the validator has not seen yet gives
/// that player a history with [`LEVEL_JUMP_PENALTY`] points of suspicion.
pub proof fn lemma_level_jump_unseen_player(
    histories: Map<u32, PlayerActionHistory>,
    cfg: ValidationConfig,
    player_id: u32,
    old_level: u32,
    new_level: u32,
    now: u64,
)
    requires
        !histories.contains_key(player_id),
        new_level >= old_level,
        new_level - old_level > cfg.max_level_jumps,
    ensures
        level_step(history_of(histories, player_id), cfg, old_level, new_level, now).0
            == (PlayerActionHistory { suspicious_activity_count: LEVEL_JUMP_PENALTY, ..new_history() }),
{
}

/// The history after refused collections, one for each of `amounts`, all
/// at `now`.
pub open spec fn after_collections(
    h: PlayerActionHistory,
    cfg: ValidationConfig,
    amounts: Seq<u64>,
    now: u64,
) -> PlayerActionHistory
    decreases amounts.len(),
{
    if amounts.len() == 0 {
        h
    } else {
        resource_step(after_collections(h, cfg, amounts.drop_last(), now), cfg, amounts.last(), now).0
    }
}

/// Each refused collection adds exactly one point of suspicion and changes
/// nothing else.
proof fn lemma_refusals_accumulate(
    h: PlayerActionHistory,
    cfg: ValidationConfig,
    amounts: Seq<u64>,
    now: u64,
)
    requires
        h.suspicious_activity_count + amounts.len() <= u32::MAX,
        forall|i: int| 0 <= i < amounts.len() ==> #[trigger] amounts[i]
            > cfg.max_resource_gain_per_action,
    ensures
        after_collections(h, cfg, amounts, now) == (PlayerActionHistory {
            suspicious_activity_count: (h.suspicious_activity_count + amounts.len()) as u32,
            ..h
        }),
    decreases amounts.len(),
{
    if amounts.len() > 0 {
        let prefix = amounts.drop_last();
        assert forall|i: int| 0 <= i < prefix.len() implies #[trigger] prefix[i]
            > cfg.max_resource_gain_per_action by {
            assert(prefix[i] == amounts[i]);
        }
        lemma_refusals_accumulate(h, cfg, prefix, now);
        assert(amounts.last() == amounts[amounts.len() - 1]);
    }
}

/// Refused collections push suspicion up to the threshold, and from then on
/// a collection of a valid amount is never approved: it is flagged, or,
/// when it also breaks the per-second rate, rate-limited. With a second or
/// more since the last approved collection and a rate of at least one
/// collection a second, it is flagged.
pub proof fn lemma_refusals_lead_to_flag(
    h: PlayerActionHistory,
    cfg: ValidationConfig,
    refused: Seq<u64>,
    amount: u64,
    now: u64,
)
    requires
        h.suspicious_activity_count + refused.len() <= u32::MAX,
        h.suspicious_activity_count + refused.len() >= cfg.suspicious_threshold,
        forall|i: int| 0 <= i < refused.len() ==> #[trigger] refused[i]
            > cfg.max_resource_gain_per_action,
        amount <= cfg.max_resource_gain_per_action,
    ensures
        after_collections(h, cfg, refused, now).suspicious_activity_count
            >= cfg.suspicious_threshold,
        resource_step(after_collections(h, cfg, refused, now), cfg, amount, now).1
            != ValidationResult::Approved,
        elapsed(now, h.last_resource_collection) >= 1 && cfg.max_actions_per_second >= 1
            ==> resource_step(after_collections(h, cfg, refused, now), cfg, amount, now).1
            == ValidationResult::Flagged,
{
    lemma_refusals_accumulate(h, cfg, refused, now);
}

/// Cleanup keeps a history whose last activity is at most the retention
/// period old, and evicts one idle for longer: one second either side of
/// the hour decides.
pub proof fn lemma_cleanup_boundary(h: PlayerActionHistory, now: u64)
    ensures
        now >= last_activity(h) + HISTORY_RETENTION_SECS + 1 ==> !is_retained(h, now),
        now <= last_activity(h) + HISTORY_RETENTION_SECS - 1 ==> is_retained(h, now),
{
}

} // verus!
