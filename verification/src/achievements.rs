//! The achievement evaluator: a fixed set of predicates over a player's
//! statistics, run after a settlement update is applied.
//!
//! Each badge fires at most once per account and kind: unlocking an already
//! unlocked kind is a no-op, never an error, so re-evaluation is harmless.

use vstd::prelude::*;
use crate::player::{PlayerStats, PlayerTier, spec_tier_rank};
use crate::text::string_eq;

verus! {

/// The scaled single-contest return above which a first-place finish counts
/// as exceptional (a 50 percent return in the 10,000 scale).
pub const EXCEPTIONAL_RETURN_SCALED: i128 = 5000;

/// The kinds of achievement a player can unlock.
#[derive(Debug, Clone, Copy, PartialEq, Eq, Hash, Structural)]
pub enum AchievementKind {
    /// First contest won.
    FirstWin,
    /// Ten contests played.
    TenGamesPlayed,
    /// Fifty contests played.
    FiftyGamesPlayed,
    /// One hundred contests played.
    HundredGamesPlayed,
    /// Won a contest with an exceptional single-contest return.
    ExceptionalReturn,
    /// Crossed into an upper tier band.
    TierReached { tier: PlayerTier },
}

/// An unlocked achievement: append-only, idempotent by account and kind.
pub struct Achievement {
    /// Account that unlocked the badge.
    pub account: String,
    /// The badge kind.
    pub kind: AchievementKind,
    /// Unlock timestamp in microseconds.
    pub unlocked_at: u64,
    /// The contest that triggered the unlock, when one did.
    pub game_id: Option<String>,
}

/// Whether an account already holds an achievement of a kind.
pub open spec fn spec_has_achievement(
    achs: Seq<Achievement>,
    account: Seq<char>,
    kind: AchievementKind,
) -> bool {
    exists|i: int|
        0 <= i < achs.len() && (#[trigger] achs[i]).account@ == account && achs[i].kind == kind
}

/// The achievement list after unlocking one kind for one account: unchanged
/// when the account already holds the kind, extended by one record otherwise.
pub open spec fn spec_unlock(
    achs: Seq<Achievement>,
    record: Achievement,
) -> Seq<Achievement> {
    if spec_has_achievement(achs, record.account@, record.kind) {
        achs
    } else {
        achs.push(record)
    }
}

/// Unlocking is idempotent: applying the same unlock twice leaves the list
/// exactly as one application does, so no duplicate record is ever created.
pub proof fn lemma_unlock_idempotent(achs: Seq<Achievement>, record: Achievement)
    ensures
        spec_unlock(spec_unlock(achs, record), record) == spec_unlock(achs, record),
{
    let once = spec_unlock(achs, record);
    if !spec_has_achievement(achs, record.account@, record.kind) {
        assert(once[once.len() - 1] == record);
        assert(spec_has_achievement(once, record.account@, record.kind));
    }
}

/// The kinds newly satisfied by a settled player's statistics: first win,
/// games-played milestones, an exceptional winning return, and a crossing
/// into an upper tier band. The statistics are the values after the
/// settlement update.
pub open spec fn spec_earned_kinds(
    stats: PlayerStats,
    old_tier: PlayerTier,
    new_tier: PlayerTier,
    rank: u32,
    contest_return: int,
) -> Seq<AchievementKind> {
    (if stats.games_won >= 1 {
        seq![AchievementKind::FirstWin]
    } else {
        Seq::empty()
    }) + (if stats.games_played >= 10 {
        seq![AchievementKind::TenGamesPlayed]
    } else {
        Seq::empty()
    }) + (if stats.games_played >= 50 {
        seq![AchievementKind::FiftyGamesPlayed]
    } else {
        Seq::empty()
    }) + (if stats.games_played >= 100 {
        seq![AchievementKind::HundredGamesPlayed]
    } else {
        Seq::empty()
    }) + (if rank == 1 && contest_return >= EXCEPTIONAL_RETURN_SCALED as int {
        seq![AchievementKind::ExceptionalReturn]
    } else {
        Seq::empty()
    }) + (if spec_tier_rank(new_tier) > spec_tier_rank(old_tier) {
        seq![AchievementKind::TierReached { tier: new_tier }]
    } else {
        Seq::empty()
    })
}

/// Evaluates the achievement predicates against updated statistics and
/// returns the kinds they grant, in a fixed order.
pub fn evaluate_achievements(
    stats: &PlayerStats,
    old_tier: PlayerTier,
    new_tier: PlayerTier,
    rank: u32,
    contest_return: i128,
) -> (r: Vec<AchievementKind>)
    ensures
        r@ == spec_earned_kinds(*stats, old_tier, new_tier, rank, contest_return as int),
{
    let mut kinds: Vec<AchievementKind> = Vec::new();
    if stats.games_won >= 1 {
        kinds.push(AchievementKind::FirstWin);
    }
    if stats.games_played >= 10 {
        kinds.push(AchievementKind::TenGamesPlayed);
    }
    if stats.games_played >= 50 {
        kinds.push(AchievementKind::FiftyGamesPlayed);
    }
    if stats.games_played >= 100 {
        kinds.push(AchievementKind::HundredGamesPlayed);
    }
    if rank == 1 && contest_return >= EXCEPTIONAL_RETURN_SCALED {
        kinds.push(AchievementKind::ExceptionalReturn);
    }
    if new_tier.rank() > old_tier.rank() {
        kinds.push(AchievementKind::TierReached { tier: new_tier });
    }
    proof {
        assert(kinds@ =~= spec_earned_kinds(
            *stats,
            old_tier,
            new_tier,
            rank,
            contest_return as int,
        ));
    }
    kinds
}

/// Checks whether an account already holds an achievement of a kind.
pub fn has_achievement(achs: &Vec<Achievement>, account: &String, kind: AchievementKind) -> (r:
    bool)
    ensures
        r == spec_has_achievement(achs@, account@, kind),
{
    let mut i: usize = 0;
    while i < achs.len()
        invariant
            i <= achs@.len(),
            forall|j: int|
                0 <= j < i ==> !((#[trigger] achs@[j]).account@ == account@ && achs@[j].kind
                    == kind),
        decreases achs@.len() - i,
    {
        if string_eq(&achs[i].account, account) && kind_eq(achs[i].kind, kind) {
            return true;
        }
        i += 1;
    }
    false
}

/// Compares two achievement kinds.
fn kind_eq(a: AchievementKind, b: AchievementKind) -> (r: bool)
    ensures
        r == (a == b),
{
    a == b
}

/// The owned form of an optional borrowed contest identifier.
pub open spec fn spec_opt_value(o: Option<&String>) -> Option<String> {
    match o {
        Some(g) => Some(*g),
        None => None,
    }
}

/// Unlocks one kind for one account: appends a record unless the account
/// already holds the kind, in which case nothing changes.
pub fn unlock_achievement(
    achs: &mut Vec<Achievement>,
    account: &String,
    kind: AchievementKind,
    now: u64,
    game_id: Option<&String>,
) -> (added: bool)
    ensures
        added == !spec_has_achievement(old(achs)@, account@, kind),
        final(achs)@ == spec_unlock(old(achs)@, Achievement {
            account: *account,
            kind,
            unlocked_at: now,
            game_id: spec_opt_value(game_id),
        }),
        spec_has_achievement(final(achs)@, account@, kind),
{
    if has_achievement(achs, account, kind) {
        return false;
    }
    let gid = match game_id {
        Some(g) => Some(g.clone()),
        None => None,
    };
    let record = Achievement { account: account.clone(), kind, unlocked_at: now, game_id: gid };
    achs.push(record);
    proof {
        assert(achs@.drop_last() =~= old(achs)@);
        assert(achs@[achs@.len() - 1].account@ == account@ && achs@[achs@.len() - 1].kind == kind);
    }
    true
}

} // verus!
