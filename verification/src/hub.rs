//! The hub engine: the authoritative lifecycle state machine for contests.
//!
//! The hub owns its entities exclusively and mutates them only in its own
//! operation and message handlers, one at a time, run to completion. A
//! handler never waits for another instance: delegation to a tournament mode
//! engine queues an outbound message, and the confirmation arrives later as
//! an inbound message of its own.

use vstd::prelude::*;
use vstd::string::*;
use crate::achievements::{
    Achievement, AchievementKind, spec_has_achievement, spec_earned_kinds, evaluate_achievements,
    unlock_achievement,
};
use crate::error::CoinDraftsError;
use crate::game::{Game, GameMode, GameStatus, PriceSnapshot};
use crate::messages::{CoinDraftsMessage, Envelope, TraditionalLeaguesMessage};
use crate::player::{
    PlayerProfile, PlayerStats, PlayerTier, spec_fresh_stats, spec_tier_for,
};
use crate::portfolio::{CryptoHolding, Portfolio, PortfolioStatus, spec_portfolio_valid};
use crate::ranking::{ScoreEntry, rank_entries, spec_ranked};
use crate::scoring::{calculate_portfolio_return, spec_portfolio_return};
use crate::text::{dec_digits, lemma_dec_digits_injective, string_eq, u64_to_dec};
use crate::validation::{validate_entry_fee, validate_game_duration};

verus! {

/// One settlement row: produced exactly once per account and contest, kept
/// as an append-only historical record.
pub struct SettlementResult {
    /// The settled contest.
    pub game_id: String,
    /// The ranked account.
    pub player_account: String,
    /// Rank, starting at 1.
    pub rank: u32,
    /// The portfolio's signed return, scaled by 10,000.
    pub return_scaled: i128,
    /// Prize awarded in micro-units.
    pub prize_usdc: u64,
    /// Settlement timestamp in microseconds.
    pub settled_at: u64,
}

/// One registration of an account for a contest.
pub struct Registration {
    /// The contest registered for.
    pub game_id: String,
    /// The registered account.
    pub account: String,
}

/// The hub instance's state: keyed collections and the monotone id counter,
/// owned exclusively by this instance.
pub struct CoinDraftsState {
    /// Contests by identifier.
    pub games: Vec<Game>,
    /// Player profiles by account, shared across contests.
    pub players: Vec<PlayerProfile>,
    /// Registrations, at most one per contest and account.
    pub registrations: Vec<Registration>,
    /// Live portfolios, at most one per contest and account.
    pub portfolios: Vec<Portfolio>,
    /// Append-only settlement history.
    pub results: Vec<SettlementResult>,
    /// Append-only achievement records, unique per account and kind.
    pub achievements: Vec<Achievement>,
    /// Monotone counter for minting contest identifiers; never reused.
    pub game_counter: u64,
    /// Destination instance for tournament delegation messages.
    pub league_instance: String,
}

/// The identifier minted for counter value `k`.
pub open spec fn spec_game_id_chars(k: nat) -> Seq<char> {
    "game_"@ + dec_digits(k)
}

/// Distinct counter values mint distinct identifiers.
pub proof fn lemma_game_id_injective(a: nat, b: nat)
    requires
        spec_game_id_chars(a) == spec_game_id_chars(b),
    ensures
        a == b,
{
    let p = "game_"@;
    assert((p + dec_digits(a)).skip(p.len() as int) =~= dec_digits(a));
    assert((p + dec_digits(b)).skip(p.len() as int) =~= dec_digits(b));
    lemma_dec_digits_injective(a, b);
}

/// Mints the identifier for a counter value.
fn make_game_id(k: u64) -> (r: String)
    ensures
        r@ == spec_game_id_chars(k as nat),
{
    let mut s = String::from_str("game_");
    let d = u64_to_dec(k);
    s.append(d.as_str());
    s
}

/// Whether an identifier was minted from a counter value below `c`.
pub open spec fn spec_id_minted(id: Seq<char>, c: nat) -> bool {
    exists|k: nat| k < c && id == spec_game_id_chars(k)
}

/// The index of the contest with an identifier, or -1 when unknown.
pub open spec fn spec_find_game(games: Seq<Game>, id: Seq<char>) -> int
    decreases games.len(),
{
    if games.len() == 0 {
        -1
    } else if games.first().game_id@ == id {
        0
    } else {
        let r = spec_find_game(games.drop_first(), id);
        if r == -1 {
            -1
        } else {
            r + 1
        }
    }
}

/// The found index is the first match; -1 means no match at all.
pub proof fn lemma_find_game_is_first(games: Seq<Game>, id: Seq<char>)
    ensures
        spec_find_game(games, id) == -1 ==> forall|j: int|
            0 <= j < games.len() ==> (#[trigger] games[j]).game_id@ != id,
        spec_find_game(games, id) != -1 ==> {
            let r = spec_find_game(games, id);
            &&& 0 <= r < games.len()
            &&& games[r].game_id@ == id
            &&& forall|j: int| 0 <= j < r ==> (#[trigger] games[j]).game_id@ != id
        },
    decreases games.len(),
{
    if games.len() > 0 && games.first().game_id@ != id {
        let d = games.drop_first();
        lemma_find_game_is_first(d, id);
        assert(forall|j: int| 1 <= j < games.len() ==> #[trigger] games[j] == d[j - 1]);
        let rd = spec_find_game(d, id);
        if rd == -1 {
            assert forall|j: int| 0 <= j < games.len() implies (#[trigger] games[j]).game_id@
                != id by {
                if j > 0 {
                    assert(games[j] == d[j - 1]);
                }
            }
        } else {
            assert(games[rd + 1] == d[rd]);
            assert forall|j: int| 0 <= j < rd + 1 implies (#[trigger] games[j]).game_id@ != id by {
                if j > 0 {
                    assert(games[j] == d[j - 1]);
                }
            }
        }
    }
}

/// Finds the index of the contest with an identifier.
fn find_game_index(games: &Vec<Game>, id: &String) -> (r: Option<usize>)
    ensures
        r matches Some(i) ==> i == spec_find_game(games@, id@),
        r is None ==> spec_find_game(games@, id@) == -1,
{
    proof {
        lemma_find_game_is_first(games@, id@);
    }
    let mut i: usize = 0;
    while i < games.len()
        invariant
            i <= games@.len(),
            forall|j: int| 0 <= j < i ==> (#[trigger] games@[j]).game_id@ != id@,
        decreases games@.len() - i,
    {
        if string_eq(&games[i].game_id, id) {
            proof {
                lemma_find_game_is_first(games@, id@);
            }
            return Some(i);
        }
        i += 1;
    }
    proof {
        lemma_find_game_is_first(games@, id@);
    }
    None
}

/// The index of the profile with an account, or -1 when unknown.
pub open spec fn spec_find_player(players: Seq<PlayerProfile>, account: Seq<char>) -> int
    decreases players.len(),
{
    if players.len() == 0 {
        -1
    } else if players.first().account@ == account {
        0
    } else {
        let r = spec_find_player(players.drop_first(), account);
        if r == -1 {
            -1
        } else {
            r + 1
        }
    }
}

/// The found index is the first match; -1 means no match at all.
pub proof fn lemma_find_player_is_first(players: Seq<PlayerProfile>, account: Seq<char>)
    ensures
        spec_find_player(players, account) == -1 ==> forall|j: int|
            0 <= j < players.len() ==> (#[trigger] players[j]).account@ != account,
        spec_find_player(players, account) != -1 ==> {
            let r = spec_find_player(players, account);
            &&& 0 <= r < players.len()
            &&& players[r].account@ == account
            &&& forall|j: int| 0 <= j < r ==> (#[trigger] players[j]).account@ != account
        },
    decreases players.len(),
{
    if players.len() > 0 && players.first().account@ != account {
        let d = players.drop_first();
        lemma_find_player_is_first(d, account);
        assert(forall|j: int| 1 <= j < players.len() ==> #[trigger] players[j] == d[j - 1]);
        let rd = spec_find_player(d, account);
        if rd == -1 {
            assert forall|j: int| 0 <= j < players.len() implies (#[trigger] players[j]).account@
                != account by {
                if j > 0 {
                    assert(players[j] == d[j - 1]);
                }
            }
        } else {
            assert(players[rd + 1] == d[rd]);
            assert forall|j: int| 0 <= j < rd + 1 implies (#[trigger] players[j]).account@
                != account by {
                if j > 0 {
                    assert(players[j] == d[j - 1]);
                }
            }
        }
    }
}

/// Finds the index of the profile with an account.
fn find_player_index(players: &Vec<PlayerProfile>, account: &String) -> (r: Option<usize>)
    ensures
        r matches Some(i) ==> i == spec_find_player(players@, account@),
        r is None ==> spec_find_player(players@, account@) == -1,
{
    let mut i: usize = 0;
    while i < players.len()
        invariant
            i <= players@.len(),
            forall|j: int| 0 <= j < i ==> (#[trigger] players@[j]).account@ != account@,
        decreases players@.len() - i,
    {
        if string_eq(&players[i].account, account) {
            proof {
                lemma_find_player_is_first(players@, account@);
            }
            return Some(i);
        }
        i += 1;
    }
    proof {
        lemma_find_player_is_first(players@, account@);
    }
    None
}

/// Whether a registration pair is present.
pub open spec fn spec_is_registered(
    regs: Seq<Registration>,
    gid: Seq<char>,
    account: Seq<char>,
) -> bool {
    exists|i: int|
        0 <= i < regs.len() && (#[trigger] regs[i]).game_id@ == gid && regs[i].account@ == account
}

/// Checks whether an account is registered for a contest.
fn is_registered(regs: &Vec<Registration>, gid: &String, account: &String) -> (r: bool)
    ensures
        r == spec_is_registered(regs@, gid@, account@),
{
    let mut i: usize = 0;
    while i < regs.len()
        invariant
            i <= regs@.len(),
            forall|j: int|
                0 <= j < i ==> !((#[trigger] regs@[j]).game_id@ == gid@ && regs@[j].account@
                    == account@),
        decreases regs@.len() - i,
    {
        if string_eq(&regs[i].game_id, gid) && string_eq(&regs[i].account, account) {
            return true;
        }
        i += 1;
    }
    false
}

/// The index of the live portfolio for a contest and account, or -1.
pub open spec fn spec_find_portfolio(
    ps: Seq<Portfolio>,
    gid: Seq<char>,
    account: Seq<char>,
) -> int
    decreases ps.len(),
{
    if ps.len() == 0 {
        -1
    } else if ps.first().game_id@ == gid && ps.first().player_account@ == account {
        0
    } else {
        let r = spec_find_portfolio(ps.drop_first(), gid, account);
        if r == -1 {
            -1
        } else {
            r + 1
        }
    }
}

/// The found index is the first match; -1 means no match at all.
pub proof fn lemma_find_portfolio_is_first(ps: Seq<Portfolio>, gid: Seq<char>, account: Seq<char>)
    ensures
        spec_find_portfolio(ps, gid, account) == -1 ==> forall|j: int|
            0 <= j < ps.len() ==> !((#[trigger] ps[j]).game_id@ == gid && ps[j].player_account@
                == account),
        spec_find_portfolio(ps, gid, account) != -1 ==> {
            let r = spec_find_portfolio(ps, gid, account);
            &&& 0 <= r < ps.len()
            &&& ps[r].game_id@ == gid
            &&& ps[r].player_account@ == account
        },
    decreases ps.len(),
{
    if ps.len() > 0 && !(ps.first().game_id@ == gid && ps.first().player_account@ == account) {
        let d = ps.drop_first();
        lemma_find_portfolio_is_first(d, gid, account);
        assert(forall|j: int| 1 <= j < ps.len() ==> #[trigger] ps[j] == d[j - 1]);
        let rd = spec_find_portfolio(d, gid, account);
        if rd == -1 {
            assert forall|j: int|
                0 <= j < ps.len() implies !((#[trigger] ps[j]).game_id@ == gid
                && ps[j].player_account@ == account) by {
                if j > 0 {
                    assert(ps[j] == d[j - 1]);
                }
            }
        } else {
            assert(ps[rd + 1] == d[rd]);
        }
    }
}

/// Finds the index of the live portfolio for a contest and account.
fn find_portfolio_index(ps: &Vec<Portfolio>, gid: &String, account: &String) -> (r: Option<usize>)
    ensures
        r matches Some(i) ==> i == spec_find_portfolio(ps@, gid@, account@),
        r is None ==> spec_find_portfolio(ps@, gid@, account@) == -1,
{
    proof {
        lemma_find_portfolio_is_first(ps@, gid@, account@);
    }
    let mut i: usize = 0;
    while i < ps.len()
        invariant
            i <= ps@.len(),
            forall|j: int|
                0 <= j < i ==> !((#[trigger] ps@[j]).game_id@ == gid@ && ps@[j].player_account@
                    == account@),
        decreases ps@.len() - i,
    {
        if string_eq(&ps[i].game_id, gid) && string_eq(&ps[i].player_account, account) {
            proof {
                lemma_find_portfolio_first_here(ps@, gid@, account@, i as int);
            }
            return Some(i);
        }
        i += 1;
    }
    proof {
        lemma_find_portfolio_none(ps@, gid@, account@);
    }
    None
}

/// A first match at `i` makes the found index `i`.
proof fn lemma_find_portfolio_first_here(
    ps: Seq<Portfolio>,
    gid: Seq<char>,
    account: Seq<char>,
    i: int,
)
    requires
        0 <= i < ps.len(),
        ps[i].game_id@ == gid && ps[i].player_account@ == account,
        forall|j: int|
            0 <= j < i ==> !((#[trigger] ps[j]).game_id@ == gid && ps[j].player_account@
                == account),
    ensures
        spec_find_portfolio(ps, gid, account) == i,
    decreases ps.len(),
{
    if i > 0 {
        assert(ps.drop_first()[i - 1] == ps[i]);
        assert forall|j: int| 0 <= j < i - 1 implies !((#[trigger] ps.drop_first()[j]).game_id@
            == gid && ps.drop_first()[j].player_account@ == account) by {
            assert(ps.drop_first()[j] == ps[j + 1]);
        }
        lemma_find_portfolio_first_here(ps.drop_first(), gid, account, i - 1);
    }
}

/// With no match anywhere the found index is -1.
proof fn lemma_find_portfolio_none(ps: Seq<Portfolio>, gid: Seq<char>, account: Seq<char>)
    requires
        forall|j: int|
            0 <= j < ps.len() ==> !((#[trigger] ps[j]).game_id@ == gid && ps[j].player_account@
                == account),
    ensures
        spec_find_portfolio(ps, gid, account) == -1,
    decreases ps.len(),
{
    if ps.len() > 0 {
        assert forall|j: int| 0 <= j < ps.drop_first().len() implies !((
        #[trigger] ps.drop_first()[j]).game_id@ == gid && ps.drop_first()[j].player_account@
            == account) by {
            assert(ps.drop_first()[j] == ps[j + 1]);
        }
        lemma_find_portfolio_none(ps.drop_first(), gid, account);
    }
}

/// Well-formedness of the hub state: identifiers and keys are unique, every
/// stored portfolio is valid, every contest's entry fee is within the
/// validated bounds, and every contest identifier was minted from a counter
/// value below the current one.
pub open spec fn spec_hub_wf(s: CoinDraftsState) -> bool {
    &&& forall|i: int, j: int|
        0 <= i < j < s.games@.len() ==> (#[trigger] s.games@[i]).game_id@ != (
        #[trigger] s.games@[j]).game_id@
    &&& forall|i: int|
        0 <= i < s.games@.len() ==> spec_id_minted(
            (#[trigger] s.games@[i]).game_id@,
            s.game_counter as nat,
        )
    &&& forall|i: int|
        0 <= i < s.games@.len() ==> 100_000 <= (#[trigger] s.games@[i]).entry_fee_usdc
            <= 100_000_000
    &&& forall|i: int, j: int|
        0 <= i < j < s.players@.len() ==> (#[trigger] s.players@[i]).account@ != (
        #[trigger] s.players@[j]).account@
    &&& forall|i: int, j: int|
        0 <= i < j < s.registrations@.len() ==> !((#[trigger] s.registrations@[i]).game_id@ == (
        #[trigger] s.registrations@[j]).game_id@ && s.registrations@[i].account@
            == s.registrations@[j].account@)
    &&& forall|i: int, j: int|
        0 <= i < j < s.portfolios@.len() ==> !((#[trigger] s.portfolios@[i]).game_id@ == (
        #[trigger] s.portfolios@[j]).game_id@ && s.portfolios@[i].player_account@
            == s.portfolios@[j].player_account@)
    &&& forall|i: int|
        0 <= i < s.portfolios@.len() ==> spec_portfolio_valid(
            (#[trigger] s.portfolios@[i]).holdings@,
        ) && s.portfolios@[i].status is Valid
    &&& forall|i: int, j: int|
        0 <= i < j < s.achievements@.len() ==> !((#[trigger] s.achievements@[i]).account@ == (
        #[trigger] s.achievements@[j]).account@ && s.achievements@[i].kind
            == s.achievements@[j].kind)
}

/// Whether two hub states hold exactly the same entities.
pub open spec fn spec_same_hub_state(a: CoinDraftsState, b: CoinDraftsState) -> bool {
    &&& a.games@ == b.games@
    &&& a.players@ == b.players@
    &&& a.registrations@ == b.registrations@
    &&& a.portfolios@ == b.portfolios@
    &&& a.results@ == b.results@
    &&& a.achievements@ == b.achievements@
    &&& a.game_counter == b.game_counter
    &&& a.league_instance@ == b.league_instance@
}

impl CoinDraftsState {
    /// A fresh hub instance that will delegate tournaments to the named
    /// instance. The counter starts at 1, matching instantiation.
    pub fn instantiate(league_instance: String) -> (r: Self)
        ensures
            spec_hub_wf(r),
            r.games@.len() == 0,
            r.players@.len() == 0,
            r.registrations@.len() == 0,
            r.portfolios@.len() == 0,
            r.results@.len() == 0,
            r.achievements@.len() == 0,
            r.game_counter == 1,
            r.league_instance == league_instance,
    {
        CoinDraftsState {
            games: Vec::new(),
            players: Vec::new(),
            registrations: Vec::new(),
            portfolios: Vec::new(),
            results: Vec::new(),
            achievements: Vec::new(),
            game_counter: 1,
            league_instance,
        }
    }

    /// Creates a contest: validates the fee and duration, mints a fresh
    /// identifier from the monotone counter, and stores the contest open for
    /// registration. For a traditional league contest one delegation request
    /// is queued; the contest does not wait for the reply.
    pub fn create_game(
        &mut self,
        mode: GameMode,
        name: String,
        max_players: u32,
        entry_fee_usdc: u64,
        duration_hours: u64,
        now: u64,
    ) -> (r: Result<(String, Vec<Envelope<CoinDraftsMessage>>), CoinDraftsError>)
        requires
            spec_hub_wf(*old(self)),
        ensures
            spec_hub_wf(*final(self)),
            r is Err <==> !(100_000 <= entry_fee_usdc <= 100_000_000 && 1 <= duration_hours <= 168
                && old(self).game_counter < u64::MAX),
            r is Err ==> spec_same_hub_state(*final(self), *old(self)),
            r matches Ok(ok) ==> {
                &&& ok.0@ == spec_game_id_chars(old(self).game_counter as nat)
                &&& final(self).games@.len() == old(self).games@.len() + 1
                &&& final(self).games@.drop_last() == old(self).games@
                &&& final(self).games@.last().game_id@ == ok.0@
                &&& final(self).games@.last().name == name
                &&& final(self).games@.last().mode == mode
                &&& final(self).games@.last().status is WaitingForPlayers
                &&& final(self).games@.last().created_at == now
                &&& final(self).games@.last().player_count == 0
                &&& final(self).games@.last().max_players == max_players
                &&& final(self).games@.last().entry_fee_usdc == entry_fee_usdc
                &&& final(self).games@.last().duration_hours == duration_hours
                &&& final(self).games@.last().start_prices is None
                &&& final(self).games@.last().winners@.len() == 0
                &&& final(self).game_counter == old(self).game_counter + 1
                &&& final(self).players@ == old(self).players@
                &&& final(self).registrations@ == old(self).registrations@
                &&& final(self).portfolios@ == old(self).portfolios@
                &&& final(self).results@ == old(self).results@
                &&& final(self).achievements@ == old(self).achievements@
                &&& final(self).league_instance@ == old(self).league_instance@
                &&& (mode is TraditionalLeague ==> ok.1@.len() == 1
                    && ok.1@[0].destination@ == old(self).league_instance@
                    && (ok.1@[0].payload matches CoinDraftsMessage::CreateTournament {
                        game_id,
                        tournament_name,
                        entry_fee_usdc: fee,
                        max_participants,
                    } && game_id@ == ok.0@ && tournament_name@ == name@ && fee == entry_fee_usdc
                        && max_participants == max_players))
                &&& (!(mode is TraditionalLeague) ==> ok.1@.len() == 0)
            },
    {
        if let Err(e) = validate_entry_fee(entry_fee_usdc) {
            return Err(e);
        }
        if let Err(e) = validate_game_duration(duration_hours) {
            return Err(e);
        }
        if self.game_counter == u64::MAX {
            return Err(
                CoinDraftsError::internal(String::from_str("contest identifiers exhausted")),
            );
        }
        let game_id = make_game_id(self.game_counter);
        let game = Game {
            game_id: game_id.clone(),
            name: name.clone(),
            mode,
            status: GameStatus::WaitingForPlayers,
            created_at: now,
            player_count: 0,
            max_players,
            entry_fee_usdc,
            duration_hours,
            start_prices: None,
            winners: Vec::new(),
        };
        let ghost old_games = self.games@;
        self.games.push(game);
        self.game_counter = self.game_counter + 1;
        proof {
            assert(self.games@.drop_last() =~= old_games);
            assert forall|i: int| 0 <= i < old_games.len() implies (
            #[trigger] old_games[i]).game_id@ != spec_game_id_chars(
                (self.game_counter - 1) as nat,
            ) by {
                if old_games[i].game_id@ == spec_game_id_chars((self.game_counter - 1) as nat) {
                    let k = choose|k: nat|
                        k < (self.game_counter - 1) as nat && old_games[i].game_id@
                            == spec_game_id_chars(k);
                    lemma_game_id_injective(k, (self.game_counter - 1) as nat);
                }
            }
            assert(spec_id_minted(
                self.games@.last().game_id@,
                self.game_counter as nat,
            )) by {
                assert(((self.game_counter - 1) as nat) < (self.game_counter as nat));
            }
            assert forall|i: int|
                0 <= i < self.games@.len() implies spec_id_minted(
                (#[trigger] self.games@[i]).game_id@,
                self.game_counter as nat,
            ) by {
                if i < self.games@.len() - 1 {
                    assert(self.games@[i] == old_games[i]);
                    let k = choose|k: nat|
                        k < (self.game_counter - 1) as nat && old_games[i].game_id@
                            == spec_game_id_chars(k);
                    assert(k < self.game_counter as nat);
                }
            }
        }
        let mut messages: Vec<Envelope<CoinDraftsMessage>> = Vec::new();
        if let GameMode::TraditionalLeague = mode {
            messages.push(
                Envelope {
                    destination: self.league_instance.clone(),
                    payload: CoinDraftsMessage::CreateTournament {
                        game_id: game_id.clone(),
                        tournament_name: name,
                        entry_fee_usdc,
                        max_participants: max_players,
                    },
                },
            );
        }
        Ok((game_id, messages))
    }

    /// Registers an account for a contest.
    ///
    /// Fails with a not-found error when the contest is unknown. Returns
    /// `Ok(false)` with no state change when the contest is not open for
    /// registration or is full: callers check capacity themselves. A second
    /// registration of the same account is an idempotent overwrite: the
    /// display name is refreshed and the player count does not change.
    pub fn register_player(
        &mut self,
        game_id: &String,
        account: String,
        player_name: String,
        now: u64,
    ) -> (r: Result<bool, CoinDraftsError>)
        requires
            spec_hub_wf(*old(self)),
        ensures
            spec_hub_wf(*final(self)),
            r matches Err(e) ==> e is GameNotFound && spec_find_game(old(self).games@, game_id@)
                == -1 && spec_same_hub_state(*final(self), *old(self)),
            r is Err <==> spec_find_game(old(self).games@, game_id@) == -1,
            r matches Ok(false) ==> spec_same_hub_state(*final(self), *old(self)),
            r matches Ok(false) ==> {
                let gi = spec_find_game(old(self).games@, game_id@);
                &&& gi >= 0
                &&& (!(old(self).games@[gi].status is WaitingForPlayers) || (!spec_is_registered(
                    old(self).registrations@,
                    game_id@,
                    account@,
                ) && old(self).games@[gi].player_count >= old(self).games@[gi].max_players))
            },
            r matches Ok(true) ==> {
                let gi = spec_find_game(old(self).games@, game_id@);
                let already = spec_is_registered(old(self).registrations@, game_id@, account@);
                let pi = spec_find_player(old(self).players@, account@);
                &&& gi >= 0
                &&& old(self).games@[gi].status is WaitingForPlayers
                &&& (already || old(self).games@[gi].player_count < old(self).games@[gi].max_players)
                &&& (already ==> final(self).games@ == old(self).games@ && final(self).registrations@ == old(self).registrations@)
                &&& (!already ==> final(self).registrations@.len() == old(self).registrations@.len() + 1 && final(self).registrations@.drop_last() == old(self).registrations@ && final(self).registrations@.last().game_id@ == game_id@ && final(self).registrations@.last().account@ == account@)
                &&& (!already ==> final(self).games@ == old(self).games@.update(
                    gi,
                    Game {
                        player_count: (old(self).games@[gi].player_count + 1) as u32,
                        ..old(self).games@[gi]
                    },
                ))
                &&& (pi >= 0 ==> final(self).players@ == old(self).players@.update(
                    pi,
                    PlayerProfile { name: player_name, ..old(self).players@[pi] },
                ))
                &&& (pi == -1 ==> final(self).players@.len() == old(self).players@.len() + 1
                    && final(self).players@.drop_last() == old(self).players@ && final(self).players@.last().account@ == account@ && final(self).players@.last().name
                    == player_name && final(self).players@.last().registered_at == now && final(self).players@.last().stats == spec_fresh_stats() && final(self).players@.last().tier
                    is Rookie && final(self).players@.last().total_earnings_usdc == 0)
                &&& final(self).portfolios@ == old(self).portfolios@
                &&& final(self).results@ == old(self).results@
                &&& final(self).achievements@ == old(self).achievements@
                &&& final(self).game_counter == old(self).game_counter
                &&& final(self).league_instance@ == old(self).league_instance@
            },
    {
        let gi = match find_game_index(&self.games, game_id) {
            Some(i) => i,
            None => {
                return Err(CoinDraftsError::GameNotFound { game_id: game_id.clone() });
            },
        };
        proof {
            lemma_find_game_is_first(self.games@, game_id@);
        }
        if !matches!(self.games[gi].status, GameStatus::WaitingForPlayers) {
            return Ok(false);
        }
        let already = is_registered(&self.registrations, game_id, &account);
        if !already && self.games[gi].player_count >= self.games[gi].max_players {
            return Ok(false);
        }
        if !already {
            let ghost old_regs = self.registrations@;
            self.registrations.push(
                Registration { game_id: game_id.clone(), account: account.clone() },
            );
            proof {
                assert(self.registrations@.drop_last() =~= old_regs);
            }
            let count = self.games[gi].player_count;
            let g = &mut self.games[gi];
            g.player_count = count + 1;
        }
        let pi = find_player_index(&self.players, &account);
        match pi {
            Some(i) => {
                proof {
                    lemma_find_player_is_first(self.players@, account@);
                }
                let p = &mut self.players[i];
                p.name = player_name;
            },
            None => {
                proof {
                    lemma_find_player_is_first(self.players@, account@);
                }
                let ghost old_players = self.players@;
                self.players.push(PlayerProfile::new(account, player_name, now));
                proof {
                    assert(self.players@.drop_last() =~= old_players);
                }
            },
        }
        proof {
            let og = old(self).games@;
            let gs = self.games@;
            assert(gs.len() == og.len());
            assert(forall|i: int|
                0 <= i < gs.len() ==> (#[trigger] gs[i]).game_id@ == og[i].game_id@ && gs[i].entry_fee_usdc
                    == og[i].entry_fee_usdc);
            assert forall|i: int, j: int| 0 <= i < j < gs.len() implies (
            #[trigger] gs[i]).game_id@ != (#[trigger] gs[j]).game_id@ by {
                assert(og[i].game_id@ != og[j].game_id@);
            }
            assert forall|i: int|
                0 <= i < gs.len() implies spec_id_minted(
                (#[trigger] gs[i]).game_id@,
                self.game_counter as nat,
            ) by {
                assert(spec_id_minted(og[i].game_id@, old(self).game_counter as nat));
            }
            let op = old(self).players@;
            let ps = self.players@;
            assert forall|i: int, j: int| 0 <= i < j < ps.len() implies (
            #[trigger] ps[i]).account@ != (#[trigger] ps[j]).account@ by {
                if ps.len() == op.len() {
                    assert(ps[i].account@ == op[i].account@ && ps[j].account@ == op[j].account@);
                } else {
                    if j < ps.len() - 1 {
                        assert(ps[i] == op[i] && ps[j] == op[j]);
                    } else {
                        assert(ps[i] == op[i]);
                        assert(ps[j].account@ == account@);
                        assert(op[i].account@ != account@);
                    }
                }
            }
            let or = old(self).registrations@;
            let rs = self.registrations@;
            assert forall|i: int, j: int| 0 <= i < j < rs.len() implies !((
            #[trigger] rs[i]).game_id@ == (#[trigger] rs[j]).game_id@ && rs[i].account@
                == rs[j].account@) by {
                if rs.len() == or.len() {
                    assert(rs[i] == or[i] && rs[j] == or[j]);
                } else {
                    if j < rs.len() - 1 {
                        assert(rs[i] == or[i] && rs[j] == or[j]);
                    } else {
                        assert(rs[i] == or[i]);
                        assert(rs[j].game_id@ == game_id@ && rs[j].account@ == account@);
                    }
                }
            }
        }
        Ok(true)
    }

    /// Submits a portfolio for a contest: validates the allocation sum and
    /// holding count, then replaces any prior portfolio from the same account
    /// for the same contest, so at most one live portfolio per participant
    /// exists. Invalid submissions are rejected before storage, never stored.
    pub fn submit_portfolio(
        &mut self,
        game_id: &String,
        account: String,
        holdings: Vec<CryptoHolding>,
        now: u64,
    ) -> (r: Result<(), CoinDraftsError>)
        requires
            spec_hub_wf(*old(self)),
        ensures
            spec_hub_wf(*final(self)),
            r is Err ==> spec_same_hub_state(*final(self), *old(self)),
            r matches Err(e) ==> (e is GameNotFound <==> spec_find_game(
                old(self).games@,
                game_id@,
            ) == -1),
            r matches Err(e) ==> (e is GameNotFound || e is InvalidPortfolio),
            r is Ok <==> spec_find_game(old(self).games@, game_id@) >= 0 && spec_portfolio_valid(
                holdings@,
            ),
            r is Ok ==> {
                let fi = spec_find_portfolio(old(self).portfolios@, game_id@, account@);
                &&& (fi >= 0 ==> final(self).portfolios@.len() == old(self).portfolios@.len()
                    && (forall|j: int|
                        0 <= j < old(self).portfolios@.len() && j != fi ==> final(self).portfolios@[j] == old(self).portfolios@[j]))
                &&& (fi == -1 ==> final(self).portfolios@.len() == old(self).portfolios@.len() + 1
                    && final(self).portfolios@.drop_last() == old(self).portfolios@)
                &&& {
                    let ni = if fi >= 0 {
                        fi
                    } else {
                        old(self).portfolios@.len() as int
                    };
                    &&& final(self).portfolios@[ni].game_id@ == game_id@
                    &&& final(self).portfolios@[ni].player_account@ == account@
                    &&& final(self).portfolios@[ni].holdings@ == holdings@
                    &&& final(self).portfolios@[ni].submitted_at == now
                    &&& final(self).portfolios@[ni].status is Valid
                }
                &&& final(self).games@ == old(self).games@
                &&& final(self).players@ == old(self).players@
                &&& final(self).registrations@ == old(self).registrations@
                &&& final(self).results@ == old(self).results@
                &&& final(self).achievements@ == old(self).achievements@
                &&& final(self).game_counter == old(self).game_counter
                &&& final(self).league_instance@ == old(self).league_instance@
            },
    {
        if find_game_index(&self.games, game_id).is_none() {
            return Err(CoinDraftsError::GameNotFound { game_id: game_id.clone() });
        }
        let portfolio = Portfolio {
            game_id: game_id.clone(),
            player_account: account,
            holdings,
            submitted_at: now,
            status: PortfolioStatus::Valid,
        };
        if let Err(errors) = portfolio.validate() {
            return Err(CoinDraftsError::InvalidPortfolio { errors });
        }
        let fi = find_portfolio_index(&self.portfolios, game_id, &portfolio.player_account);
        let ghost old_ps = self.portfolios@;
        match fi {
            Some(i) => {
                proof {
                    lemma_find_portfolio_is_first(self.portfolios@, game_id@,
                        portfolio.player_account@);
                }
                let slot = &mut self.portfolios[i];
                *slot = portfolio;
                proof {
                    let ps = self.portfolios@;
                    assert forall|a: int, b: int| 0 <= a < b < ps.len() implies !((
                    #[trigger] ps[a]).game_id@ == (#[trigger] ps[b]).game_id@
                        && ps[a].player_account@ == ps[b].player_account@) by {
                        assert(ps[a].game_id@ == old_ps[a].game_id@ && ps[a].player_account@
                            == old_ps[a].player_account@);
                        assert(ps[b].game_id@ == old_ps[b].game_id@ && ps[b].player_account@
                            == old_ps[b].player_account@);
                    }
                }
            },
            None => {
                proof {
                    lemma_find_portfolio_is_first(self.portfolios@, game_id@,
                        portfolio.player_account@);
                }
                self.portfolios.push(portfolio);
                proof {
                    let ps = self.portfolios@;
                    assert(ps.drop_last() =~= old_ps);
                    assert forall|a: int, b: int| 0 <= a < b < ps.len() implies !((
                    #[trigger] ps[a]).game_id@ == (#[trigger] ps[b]).game_id@
                        && ps[a].player_account@ == ps[b].player_account@) by {
                        if b < ps.len() - 1 {
                            assert(ps[a] == old_ps[a] && ps[b] == old_ps[b]);
                        } else {
                            assert(ps[a] == old_ps[a]);
                        }
                    }
                }
            },
        }
        Ok(())
    }

    /// Starts a contest: records the start price snapshot and advances the
    /// status to active. A contest that already holds a start snapshot, or
    /// has completed, is left untouched: re-invocation with a different
    /// snapshot must not overwrite the recorded baseline.
    pub fn start_game(
        &mut self,
        game_id: &String,
        price_snapshot: Vec<PriceSnapshot>,
        now: u64,
    ) -> (r: Result<bool, CoinDraftsError>)
        requires
            spec_hub_wf(*old(self)),
        ensures
            spec_hub_wf(*final(self)),
            r is Err <==> spec_find_game(old(self).games@, game_id@) == -1,
            r matches Err(e) ==> e is GameNotFound && spec_same_hub_state(*final(self), *old(self)),
            r matches Ok(false) ==> spec_same_hub_state(*final(self), *old(self)),
            r matches Ok(false) ==> {
                let gi = spec_find_game(old(self).games@, game_id@);
                &&& gi >= 0
                &&& (old(self).games@[gi].start_prices is Some || old(self).games@[gi].status
                    is Completed)
            },
            r matches Ok(true) ==> {
                let gi = spec_find_game(old(self).games@, game_id@);
                &&& gi >= 0
                &&& old(self).games@[gi].start_prices is None
                &&& !(old(self).games@[gi].status is Completed)
                &&& final(self).games@.len() == old(self).games@.len()
                &&& (forall|j: int|
                    0 <= j < old(self).games@.len() && j != gi ==> final(self).games@[j] == old(self).games@[j])
                &&& final(self).games@[gi].status is Active
                &&& (final(self).games@[gi].start_prices matches Some(v) && v@ == price_snapshot@)
                &&& final(self).games@[gi].game_id@ == old(self).games@[gi].game_id@
                &&& final(self).games@[gi].name == old(self).games@[gi].name
                &&& final(self).games@[gi].mode == old(self).games@[gi].mode
                &&& final(self).games@[gi].created_at == old(self).games@[gi].created_at
                &&& final(self).games@[gi].player_count == old(self).games@[gi].player_count
                &&& final(self).games@[gi].max_players == old(self).games@[gi].max_players
                &&& final(self).games@[gi].entry_fee_usdc == old(self).games@[gi].entry_fee_usdc
                &&& final(self).games@[gi].duration_hours == old(self).games@[gi].duration_hours
                &&& final(self).games@[gi].winners@ == old(self).games@[gi].winners@
                &&& final(self).players@ == old(self).players@
                &&& final(self).registrations@ == old(self).registrations@
                &&& final(self).portfolios@ == old(self).portfolios@
                &&& final(self).results@ == old(self).results@
                &&& final(self).achievements@ == old(self).achievements@
                &&& final(self).game_counter == old(self).game_counter
                &&& final(self).league_instance@ == old(self).league_instance@
            },
    {
        let gi = match find_game_index(&self.games, game_id) {
            Some(i) => i,
            None => {
                return Err(CoinDraftsError::GameNotFound { game_id: game_id.clone() });
            },
        };
        proof {
            lemma_find_game_is_first(self.games@, game_id@);
        }
        if self.games[gi].start_prices.is_some() || matches!(
            self.games[gi].status,
            GameStatus::Completed,
        ) {
            return Ok(false);
        }
        let ghost og = self.games@;
        let g = &mut self.games[gi];
        g.status = GameStatus::Active;
        g.start_prices = Some(price_snapshot);
        proof {
            let gs = self.games@;
            assert(forall|i: int|
                0 <= i < gs.len() ==> (#[trigger] gs[i]).game_id@ == og[i].game_id@
                    && gs[i].entry_fee_usdc == og[i].entry_fee_usdc);
            assert forall|i: int, j: int| 0 <= i < j < gs.len() implies (
            #[trigger] gs[i]).game_id@ != (#[trigger] gs[j]).game_id@ by {
                assert(og[i].game_id@ != og[j].game_id@);
            }
            assert forall|i: int|
                0 <= i < gs.len() implies spec_id_minted(
                (#[trigger] gs[i]).game_id@,
                self.game_counter as nat,
            ) by {
                assert(spec_id_minted(og[i].game_id@, old(self).game_counter as nat));
            }
        }
        Ok(true)
    }
}

/// The prize for a rank under the hub payout curve: 50 percent of the pool to
/// the winner, 30 to the second, 20 to the third, zero below. Integer
/// division truncates; a lost remainder stays unallocated.
pub open spec fn spec_hub_prize(pool: u64, rank: int) -> int {
    if rank == 1 {
        (pool * 50) / 100
    } else if rank == 2 {
        (pool * 30) / 100
    } else if rank == 3 {
        (pool * 20) / 100
    } else {
        0
    }
}

/// Each single prize share stays within the pool.
pub proof fn lemma_hub_prize_le_pool(pool: u64)
    ensures
        forall|rank: int| 0 <= #[trigger] spec_hub_prize(pool, rank) <= pool,
{
    vstd::arithmetic::div_mod::lemma_div_by_multiple(pool as int, 100);
    assert forall|rank: int| 0 <= #[trigger] spec_hub_prize(pool, rank) <= pool by {
        vstd::arithmetic::div_mod::lemma_div_is_ordered(pool as int * 50, pool as int * 100, 100);
        vstd::arithmetic::div_mod::lemma_div_is_ordered(pool as int * 30, pool as int * 100, 100);
        vstd::arithmetic::div_mod::lemma_div_is_ordered(pool as int * 20, pool as int * 100, 100);
        vstd::arithmetic::div_mod::lemma_div_pos_is_pos(pool as int * 50, 100);
        vstd::arithmetic::div_mod::lemma_div_pos_is_pos(pool as int * 30, 100);
        vstd::arithmetic::div_mod::lemma_div_pos_is_pos(pool as int * 20, 100);
    }
}

/// Computes the prize for one rank under the hub payout curve.
pub fn hub_prize(pool: u64, rank: u32) -> (r: u64)
    ensures
        r == spec_hub_prize(pool, rank as int),
        r <= pool,
{
    proof {
        lemma_hub_prize_le_pool(pool);
    }
    if rank == 1 {
        ((pool as u128 * 50) / 100) as u64
    } else if rank == 2 {
        ((pool as u128 * 30) / 100) as u64
    } else if rank == 3 {
        ((pool as u128 * 20) / 100) as u64
    } else {
        0
    }
}

/// The prizes a settlement distributes never exceed the entry fee multiplied
/// by the number of settled participants: the three paid ranks together stay
/// within the pool, and every rank below the third receives zero.
pub proof fn lemma_settlement_prizes_bounded(entry_fee: u64, participants: u64)
    requires
        entry_fee * participants <= u64::MAX,
    ensures
        ({
            let pool = (entry_fee * participants) as u64;
            spec_hub_prize(pool, 1) + spec_hub_prize(pool, 2) + spec_hub_prize(pool, 3)
                <= entry_fee * participants
        }),
        forall|rank: int|
            rank >= 4 ==> #[trigger] spec_hub_prize((entry_fee * participants) as u64, rank) == 0,
{
    let pool = (entry_fee * participants) as u64;
    let p = pool as int;
    vstd::arithmetic::div_mod::lemma_fundamental_div_mod(p * 50, 100);
    vstd::arithmetic::div_mod::lemma_fundamental_div_mod(p * 30, 100);
    vstd::arithmetic::div_mod::lemma_fundamental_div_mod(p * 20, 100);
    assert(p * 50 + p * 30 + p * 20 == p * 100) by (nonlinear_arith);
    assert(100 * ((p * 50) / 100) + 100 * ((p * 30) / 100) + 100 * ((p * 20) / 100) <= p * 100);
}


/// The prizes recorded by a settlement stay within the pool: every rank
/// below the third earns zero, each single row's prize never exceeds the
/// pool, and the three paid ranks together never exceed it either.
pub proof fn lemma_result_rows_prizes_bounded(
    ranked: Seq<ScoreEntry>,
    pool: u64,
    gid: String,
    now: u64,
)
    ensures
        ({
            let rows = spec_result_rows(ranked, pool, gid, now);
            &&& forall|k: int| 3 <= k < rows.len() ==> (#[trigger] rows[k]).prize_usdc == 0
            &&& forall|k: int| 0 <= k < rows.len() ==> (#[trigger] rows[k]).prize_usdc <= pool
            &&& (rows.len() >= 3 ==> rows[0].prize_usdc + rows[1].prize_usdc + rows[2].prize_usdc
                <= pool)
        }),
{
    lemma_hub_prize_le_pool(pool);
    let rows = spec_result_rows(ranked, pool, gid, now);
    assert forall|k: int| 3 <= k < rows.len() implies (#[trigger] rows[k]).prize_usdc == 0 by {
        assert(spec_hub_prize(pool, k + 1) == 0);
    }
    assert forall|k: int| 0 <= k < rows.len() implies (#[trigger] rows[k]).prize_usdc <= pool by {
        assert(0 <= spec_hub_prize(pool, k + 1) <= pool);
    }
    if rows.len() >= 3 {
        let p = pool as int;
        vstd::arithmetic::div_mod::lemma_fundamental_div_mod(p * 50, 100);
        vstd::arithmetic::div_mod::lemma_fundamental_div_mod(p * 30, 100);
        vstd::arithmetic::div_mod::lemma_fundamental_div_mod(p * 20, 100);
        assert(p * 50 + p * 30 + p * 20 == p * 100) by (nonlinear_arith);
        assert(100 * ((p * 50) / 100) + 100 * ((p * 30) / 100) + 100 * ((p * 20) / 100) <= p
            * 100);
    }
}

/// A saturating increment.
pub open spec fn spec_inc_u32(x: u32) -> u32 {
    if x == u32::MAX {
        x
    } else {
        (x + 1) as u32
    }
}

/// A saturating addition.
pub open spec fn spec_add_sat_u64(a: u64, b: u64) -> u64 {
    if a + b > u64::MAX {
        u64::MAX
    } else {
        (a + b) as u64
    }
}

/// A profile after one settlement update: one more game played, one more win
/// when the rank is first, the prize added to the cumulative earnings
/// (saturating at the integer cap), and the tier rederived from the updated
/// statistics.
pub open spec fn spec_settled_profile(p: PlayerProfile, won: bool, prize: u64) -> PlayerProfile {
    let played = spec_inc_u32(p.stats.games_played);
    let wins = if won {
        spec_inc_u32(p.stats.games_won)
    } else {
        p.stats.games_won
    };
    PlayerProfile {
        stats: PlayerStats { games_played: played, games_won: wins, ..p.stats },
        tier: spec_tier_for(played, wins),
        total_earnings_usdc: spec_add_sat_u64(p.total_earnings_usdc, prize),
        ..p
    }
}

/// The achievement list after unlocking a list of kinds for one account, in
/// order; each unlock is skipped when the account already holds the kind.
pub open spec fn spec_unlock_all(
    achs: Seq<Achievement>,
    account: String,
    kinds: Seq<AchievementKind>,
    now: u64,
    gid: String,
) -> Seq<Achievement>
    decreases kinds.len(),
{
    if kinds.len() == 0 {
        achs
    } else {
        crate::achievements::spec_unlock(
            spec_unlock_all(achs, account, kinds.drop_last(), now, gid),
            Achievement {
                account: account,
                kind: kinds.last(),
                unlocked_at: now,
                game_id: Some(gid),
            },
        )
    }
}

/// Unlocking keeps account-and-kind pairs unique.
proof fn lemma_unlock_all_unique(
    achs: Seq<Achievement>,
    account: String,
    kinds: Seq<AchievementKind>,
    now: u64,
    gid: String,
)
    requires
        forall|i: int, j: int|
            0 <= i < j < achs.len() ==> !((#[trigger] achs[i]).account@ == (
            #[trigger] achs[j]).account@ && achs[i].kind == achs[j].kind),
    ensures
        ({
            let r = spec_unlock_all(achs, account, kinds, now, gid);
            forall|i: int, j: int|
                0 <= i < j < r.len() ==> !((#[trigger] r[i]).account@ == (#[trigger] r[j]).account@
                    && r[i].kind == r[j].kind)
        }),
    decreases kinds.len(),
{
    if kinds.len() > 0 {
        lemma_unlock_all_unique(achs, account, kinds.drop_last(), now, gid);
        let prev = spec_unlock_all(achs, account, kinds.drop_last(), now, gid);
        let record = Achievement {
            account: account,
            kind: kinds.last(),
            unlocked_at: now,
            game_id: Some(gid),
        };
        let r = spec_unlock_all(achs, account, kinds, now, gid);
        if !spec_has_achievement(prev, record.account@, record.kind) {
            assert forall|i: int, j: int| 0 <= i < j < r.len() implies !((
            #[trigger] r[i]).account@ == (#[trigger] r[j]).account@ && r[i].kind == r[j].kind) by {
                if j < r.len() - 1 {
                    assert(r[i] == prev[i] && r[j] == prev[j]);
                } else {
                    assert(r[i] == prev[i]);
                    assert(r[j] == record);
                }
            }
        }
    }
}

/// One settlement step applied to the players and achievements: the ranked
/// entry's account, when it has a profile, receives the settlement update and
/// the newly earned achievement kinds.
pub open spec fn spec_settle_step(
    players: Seq<PlayerProfile>,
    achs: Seq<Achievement>,
    e: ScoreEntry,
    rank: int,
    prize: u64,
    gid: String,
    now: u64,
) -> (Seq<PlayerProfile>, Seq<Achievement>) {
    let pi = spec_find_player(players, e.account@);
    if pi == -1 {
        (players, achs)
    } else {
        let updated = spec_settled_profile(players[pi], rank == 1, prize);
        let kinds = spec_earned_kinds(
            updated.stats,
            players[pi].tier,
            updated.tier,
            rank as u32,
            e.score as int,
        );
        (players.update(pi, updated), spec_unlock_all(achs, e.account, kinds, now, gid))
    }
}

/// The players and achievements after settling the first `k` ranked entries,
/// rank `m` receiving the prize for rank `m` from the pool.
pub open spec fn spec_settle_all(
    players: Seq<PlayerProfile>,
    achs: Seq<Achievement>,
    ranked: Seq<ScoreEntry>,
    pool: u64,
    gid: String,
    now: u64,
    k: int,
) -> (Seq<PlayerProfile>, Seq<Achievement>)
    decreases k,
{
    if k <= 0 {
        (players, achs)
    } else {
        let prev = spec_settle_all(players, achs, ranked, pool, gid, now, k - 1);
        spec_settle_step(
            prev.0,
            prev.1,
            ranked[k - 1],
            k,
            spec_hub_prize(pool, k) as u64,
            gid,
            now,
        )
    }
}

/// Settling preserves the shape of the state: the player list keeps its
/// length and account keys, and achievement pairs stay unique.
proof fn lemma_settle_all_shape(
    players: Seq<PlayerProfile>,
    achs: Seq<Achievement>,
    ranked: Seq<ScoreEntry>,
    pool: u64,
    gid: String,
    now: u64,
    k: int,
)
    requires
        forall|i: int, j: int|
            0 <= i < j < achs.len() ==> !((#[trigger] achs[i]).account@ == (
            #[trigger] achs[j]).account@ && achs[i].kind == achs[j].kind),
    ensures
        ({
            let r = spec_settle_all(players, achs, ranked, pool, gid, now, k);
            &&& r.0.len() == players.len()
            &&& forall|i: int| 0 <= i < players.len() ==> (#[trigger] r.0[i]).account == players[i].account
            &&& forall|i: int| 0 <= i < players.len() ==> (#[trigger] r.0[i]).name == players[i].name
            &&& forall|i: int, j: int|
                0 <= i < j < r.1.len() ==> !((#[trigger] r.1[i]).account@ == (
                #[trigger] r.1[j]).account@ && r.1[i].kind == r.1[j].kind)
        }),
    decreases k,
{
    if k > 0 {
        lemma_settle_all_shape(players, achs, ranked, pool, gid, now, k - 1);
        let prev = spec_settle_all(players, achs, ranked, pool, gid, now, k - 1);
        let e = ranked[k - 1];
        let pi = spec_find_player(prev.0, e.account@);
        if pi != -1 {
            lemma_find_player_is_first(prev.0, e.account@);
            let updated = spec_settled_profile(prev.0[pi], k == 1, spec_hub_prize(pool, k) as u64);
            let kinds = spec_earned_kinds(
                updated.stats,
                prev.0[pi].tier,
                updated.tier,
                k as u32,
                e.score as int,
            );
            lemma_unlock_all_unique(prev.1, e.account, kinds, now, gid);
        }
    }
}

/// The settlement rows recorded for a ranked sequence: one row per entry, in
/// rank order, each prize fixed by the rank alone.
pub open spec fn spec_result_rows(
    ranked: Seq<ScoreEntry>,
    pool: u64,
    gid: String,
    now: u64,
) -> Seq<SettlementResult> {
    Seq::new(
        ranked.len(),
        |k: int|
            SettlementResult {
                game_id: gid,
                player_account: ranked[k].account,
                rank: (k + 1) as u32,
                return_scaled: ranked[k].score,
                prize_usdc: spec_hub_prize(pool, k + 1) as u64,
                settled_at: now,
            },
    )
}

/// The scored entries of the live portfolios of one contest, in storage
/// order (the submission order, since resubmission replaces in place).
pub open spec fn spec_scored_of(
    ps: Seq<Portfolio>,
    gid: Seq<char>,
    starts: Seq<PriceSnapshot>,
    ends: Seq<PriceSnapshot>,
) -> Seq<ScoreEntry>
    decreases ps.len(),
{
    if ps.len() == 0 {
        Seq::empty()
    } else {
        let prefix = spec_scored_of(ps.drop_last(), gid, starts, ends);
        if ps.last().game_id@ == gid {
            prefix.push(
                ScoreEntry {
                    account: ps.last().player_account,
                    score: crate::scoring::spec_portfolio_return(
                        ps.last().holdings@,
                        starts,
                        ends,
                    ) as i128,
                    submission_index: prefix.len() as usize,
                },
            )
        } else {
            prefix
        }
    }
}

/// What a successful settlement does, relating the state before to the state
/// after through the ranked entries: the game's live portfolios are scored
/// against the recorded start snapshot and the given end snapshot, ranked
/// descending by score with ties in submission order, one settlement row is
/// appended per participant with the prize fixed by the rank, every ranked
/// account's profile receives the settlement update and its newly earned
/// achievements, the top finishers are recorded on the contest, and the
/// status advances to completed. Nothing else changes.
pub open spec fn spec_hub_settlement(
    pre: CoinDraftsState,
    post: CoinDraftsState,
    gid: String,
    ends: Seq<PriceSnapshot>,
    now: u64,
    ranked: Seq<ScoreEntry>,
) -> bool {
    let gi = spec_find_game(pre.games@, gid@);
    let starts = pre.games@[gi].start_prices->Some_0;
    let scored = spec_scored_of(pre.portfolios@, gid@, starts@, ends);
    let pool = (pre.games@[gi].entry_fee_usdc * scored.len()) as u64;
    &&& 0 <= gi < pre.games@.len()
    &&& pre.games@[gi].status is Active
    &&& pre.games@[gi].start_prices is Some
    &&& 1 <= scored.len() <= u32::MAX - 1
    &&& ranked.to_multiset() == scored.to_multiset()
    &&& ranked.len() == scored.len()
    &&& spec_ranked(ranked)
    &&& post.players@ == spec_settle_all(
        pre.players@,
        pre.achievements@,
        ranked,
        pool,
        gid,
        now,
        ranked.len() as int,
    ).0
    &&& post.achievements@ == spec_settle_all(
        pre.players@,
        pre.achievements@,
        ranked,
        pool,
        gid,
        now,
        ranked.len() as int,
    ).1
    &&& post.results@ == pre.results@ + spec_result_rows(ranked, pool, gid, now)
    &&& post.games@.len() == pre.games@.len()
    &&& (forall|j: int| 0 <= j < pre.games@.len() && j != gi ==> post.games@[j] == pre.games@[j])
    &&& post.games@[gi].status is Completed
    &&& post.games@[gi].winners@.len() == (if ranked.len() < 3 {
        ranked.len() as int
    } else {
        3
    })
    &&& (forall|k: int|
        0 <= k < post.games@[gi].winners@.len() ==> post.games@[gi].winners@[k]
            == ranked[k].account)
    &&& post.games@[gi].game_id == pre.games@[gi].game_id
    &&& post.games@[gi].name == pre.games@[gi].name
    &&& post.games@[gi].mode == pre.games@[gi].mode
    &&& post.games@[gi].created_at == pre.games@[gi].created_at
    &&& post.games@[gi].player_count == pre.games@[gi].player_count
    &&& post.games@[gi].max_players == pre.games@[gi].max_players
    &&& post.games@[gi].entry_fee_usdc == pre.games@[gi].entry_fee_usdc
    &&& post.games@[gi].duration_hours == pre.games@[gi].duration_hours
    &&& post.games@[gi].start_prices == pre.games@[gi].start_prices
    &&& post.registrations@ == pre.registrations@
    &&& post.portfolios@ == pre.portfolios@
    &&& post.game_counter == pre.game_counter
    &&& post.league_instance@ == pre.league_instance@
}

/// A saturating increment.
fn inc_sat_u32(x: u32) -> (r: u32)
    ensures
        r == spec_inc_u32(x),
{
    if x == u32::MAX {
        x
    } else {
        x + 1
    }
}

/// A saturating addition.
fn add_sat_u64(a: u64, b: u64) -> (r: u64)
    ensures
        r == spec_add_sat_u64(a, b),
{
    if b > u64::MAX - a {
        u64::MAX
    } else {
        a + b
    }
}

impl CoinDraftsState {
    /// Settles a contest against an end price snapshot.
    ///
    /// Preconditions checked at run time: the contest must be active, a start
    /// snapshot must be recorded, and at least one portfolio must exist. Any
    /// failure leaves the state untouched and reports `Ok(false)`, so
    /// settlement can be retried once the precondition is met. A completed
    /// contest never settles again: payouts are applied exactly once, in the
    /// same step that advances the status.
    #[verifier::rlimit(100)]
    pub fn end_game(
        &mut self,
        game_id: &String,
        price_snapshot: Vec<PriceSnapshot>,
        now: u64,
    ) -> (r: Result<bool, CoinDraftsError>)
        requires
            spec_hub_wf(*old(self)),
        ensures
            spec_hub_wf(*final(self)),
            r is Err <==> spec_find_game(old(self).games@, game_id@) == -1,
            r matches Err(e) ==> e is GameNotFound && spec_same_hub_state(*final(self), *old(self)),
            r matches Ok(false) ==> spec_same_hub_state(*final(self), *old(self)),
            r matches Ok(false) ==> {
                let gi = spec_find_game(old(self).games@, game_id@);
                &&& gi >= 0
                &&& (!(old(self).games@[gi].status is Active) || old(self).games@[gi].start_prices
                    is None || (old(self).games@[gi].start_prices matches Some(sp) && !(1
                    <= spec_scored_of(old(self).portfolios@, game_id@, sp@, price_snapshot@).len()
                    <= u32::MAX - 1)))
            },
            r matches Ok(true) ==> exists|ranked: Seq<ScoreEntry>|
                spec_hub_settlement(
                    *old(self),
                    *final(self),
                    *game_id,
                    price_snapshot@,
                    now,
                    ranked,
                ),
    {
        let gi = match find_game_index(&self.games, game_id) {
            Some(i) => i,
            None => {
                return Err(CoinDraftsError::GameNotFound { game_id: game_id.clone() });
            },
        };
        proof {
            lemma_find_game_is_first(self.games@, game_id@);
        }
        if !matches!(self.games[gi].status, GameStatus::Active) {
            return Ok(false);
        }
        let ghost starts_view: Seq<PriceSnapshot>;
        let mut entries: Vec<ScoreEntry> = Vec::new();
        {
            let starts = match &self.games[gi].start_prices {
                Some(s) => s,
                None => {
                    return Ok(false);
                },
            };
            proof {
                starts_view = starts@;
            }
            let mut i: usize = 0;
            while i < self.portfolios.len()
                invariant
                    i <= self.portfolios@.len(),
                    spec_hub_wf(*self),
                    starts@ == starts_view,
                    entries@ == spec_scored_of(
                        self.portfolios@.take(i as int),
                        game_id@,
                        starts_view,
                        price_snapshot@,
                    ),
                    entries@.len() <= i,
                decreases self.portfolios@.len() - i,
            {
                proof {
                    assert(self.portfolios@.take(i + 1).drop_last() =~= self.portfolios@.take(
                        i as int,
                    ));
                    assert(self.portfolios@.take(i + 1).last() == self.portfolios@[i as int]);
                    assert(spec_portfolio_valid(self.portfolios@[i as int].holdings@));
                }
                if string_eq(&self.portfolios[i].game_id, game_id) {
                    let score = calculate_portfolio_return(
                        &self.portfolios[i].holdings,
                        starts,
                        &price_snapshot,
                    );
                    let idx = entries.len();
                    entries.push(
                        ScoreEntry {
                            account: self.portfolios[i].player_account.clone(),
                            score,
                            submission_index: idx,
                        },
                    );
                }
                i += 1;
            }
            proof {
                assert(self.portfolios@.take(self.portfolios@.len() as int) =~= self.portfolios@);
            }
        }
        if entries.len() == 0 {
            return Ok(false);
        }
        // Ranks are 32-bit; a contest with more scored portfolios than the
        // rank range can number cannot settle.
        if entries.len() > 0xffff_fffe {
            return Ok(false);
        }
        let n = entries.len();
        let fee = self.games[gi].entry_fee_usdc;
        proof {
            assert(fee * (n as u64) <= 100_000_000 * 0xffff_fffeu64) by (nonlinear_arith)
                requires
                    fee <= 100_000_000,
                    n <= 0xffff_fffe,
            ;
        }
        let pool = fee * (n as u64);
        let ranked = rank_entries(entries);
        let ghost pre = *self;
        let mut idx: usize = 0;
        while idx < ranked.len()
            invariant
                idx <= ranked@.len(),
                ranked@.len() == n <= 0xffff_fffe,
                spec_ranked(ranked@),
                self.players@ == spec_settle_all(
                    pre.players@,
                    pre.achievements@,
                    ranked@,
                    pool,
                    *game_id,
                    now,
                    idx as int,
                ).0,
                self.achievements@ == spec_settle_all(
                    pre.players@,
                    pre.achievements@,
                    ranked@,
                    pool,
                    *game_id,
                    now,
                    idx as int,
                ).1,
                self.results@ == pre.results@ + spec_result_rows(
                    ranked@,
                    pool,
                    *game_id,
                    now,
                ).take(idx as int),
                self.games@ == pre.games@,
                self.registrations@ == pre.registrations@,
                self.portfolios@ == pre.portfolios@,
                self.game_counter == pre.game_counter,
                self.league_instance == pre.league_instance,
            decreases ranked@.len() - idx,
        {
            let ghost step_players = self.players@;
            let ghost step_achs = self.achievements@;
            let rank: u32 = (idx as u32) + 1;
            let prize = hub_prize(pool, rank);
            match find_player_index(&self.players, &ranked[idx].account) {
                Some(pi) => {
                    proof {
                        lemma_find_player_is_first(self.players@, ranked@[idx as int].account@);
                    }
                    let old_tier = self.players[pi].tier;
                    let played = inc_sat_u32(self.players[pi].stats.games_played);
                    let wins = if rank == 1 {
                        inc_sat_u32(self.players[pi].stats.games_won)
                    } else {
                        self.players[pi].stats.games_won
                    };
                    let earnings = add_sat_u64(self.players[pi].total_earnings_usdc, prize);
                    let new_tier = PlayerTier::tier_for(played, wins);
                    {
                        let slot = &mut self.players[pi];
                        slot.stats.games_played = played;
                        slot.stats.games_won = wins;
                        slot.total_earnings_usdc = earnings;
                        slot.tier = new_tier;
                    }
                    proof {
                        assert(self.players@[pi as int] == spec_settled_profile(
                            step_players[pi as int],
                            rank == 1,
                            prize,
                        ));
                        assert(self.players@ =~= step_players.update(
                            pi as int,
                            spec_settled_profile(step_players[pi as int], rank == 1, prize),
                        ));
                    }
                    let stats_after = self.players[pi].stats;
                    let kinds = evaluate_achievements(
                        &stats_after,
                        old_tier,
                        new_tier,
                        rank,
                        ranked[idx].score,
                    );
                    let ghost mid = *self;
                    let mut kk: usize = 0;
                    while kk < kinds.len()
                        invariant
                            kk <= kinds@.len(),
                            idx < ranked@.len(),
                            self.achievements@ == spec_unlock_all(
                                mid.achievements@,
                                ranked@[idx as int].account,
                                kinds@.take(kk as int),
                                now,
                                *game_id,
                            ),
                            self.players@ == mid.players@,
                            self.games@ == mid.games@,
                            self.registrations@ == mid.registrations@,
                            self.portfolios@ == mid.portfolios@,
                            self.results@ == mid.results@,
                            self.game_counter == mid.game_counter,
                            self.league_instance == mid.league_instance,
                        decreases kinds@.len() - kk,
                    {
                        proof {
                            assert(kinds@.take(kk + 1).drop_last() =~= kinds@.take(kk as int));
                            assert(kinds@.take(kk + 1).last() == kinds@[kk as int]);
                        }
                        unlock_achievement(
                            &mut self.achievements,
                            &ranked[idx].account,
                            kinds[kk],
                            now,
                            Some(game_id),
                        );
                        kk += 1;
                    }
                    proof {
                        assert(kinds@.take(kinds@.len() as int) =~= kinds@);
                        assert(mid.achievements@ == step_achs);
                        let e = ranked@[idx as int];
                        let stepped = spec_settle_step(
                            step_players,
                            step_achs,
                            e,
                            idx + 1,
                            spec_hub_prize(pool, idx + 1) as u64,
                            *game_id,
                            now,
                        );
                        assert(spec_find_player(step_players, e.account@) == pi as int);
                        assert(prize == spec_hub_prize(pool, idx + 1) as u64);
                        assert(self.players@ == stepped.0);
                        assert(self.achievements@ == stepped.1);
                    }
                },
                None => {
                    proof {
                        let e = ranked@[idx as int];
                        assert(spec_find_player(step_players, e.account@) == -1);
                    }
                },
            }
            proof {
                let up = spec_settle_all(
                    pre.players@,
                    pre.achievements@,
                    ranked@,
                    pool,
                    *game_id,
                    now,
                    idx + 1,
                );
                assert(self.players@ == up.0);
                assert(self.achievements@ == up.1);
            }
            let ghost rows = spec_result_rows(ranked@, pool, *game_id, now);
            self.results.push(
                SettlementResult {
                    game_id: game_id.clone(),
                    player_account: ranked[idx].account.clone(),
                    rank,
                    return_scaled: ranked[idx].score,
                    prize_usdc: prize,
                    settled_at: now,
                },
            );
            proof {
                assert(self.results@ =~= pre.results@ + rows.take(idx + 1));
            }
            idx += 1;
        }
        proof {
            assert(spec_result_rows(ranked@, pool, *game_id, now).take(n as int)
                =~= spec_result_rows(ranked@, pool, *game_id, now));
        }
        let mut winners: Vec<String> = Vec::new();
        winners.push(ranked[0].account.clone());
        if ranked.len() > 1 {
            winners.push(ranked[1].account.clone());
        }
        if ranked.len() > 2 {
            winners.push(ranked[2].account.clone());
        }
        {
            let g = &mut self.games[gi];
            g.status = GameStatus::Completed;
            g.winners = winners;
        }
        proof {
            let gs = self.games@;
            assert(forall|i: int|
                0 <= i < gs.len() ==> (#[trigger] gs[i]).game_id@ == pre.games@[i].game_id@
                    && gs[i].entry_fee_usdc == pre.games@[i].entry_fee_usdc);
            assert forall|i: int, j: int| 0 <= i < j < gs.len() implies (
            #[trigger] gs[i]).game_id@ != (#[trigger] gs[j]).game_id@ by {
                assert(pre.games@[i].game_id@ != pre.games@[j].game_id@);
            }
            assert forall|i: int|
                0 <= i < gs.len() implies spec_id_minted(
                (#[trigger] gs[i]).game_id@,
                self.game_counter as nat,
            ) by {
                assert(spec_id_minted(pre.games@[i].game_id@, pre.game_counter as nat));
            }
            lemma_settle_all_shape(
                pre.players@,
                pre.achievements@,
                ranked@,
                pool,
                *game_id,
                now,
                n as int,
            );
            assert forall|i: int, j: int| 0 <= i < j < self.players@.len() implies (
            #[trigger] self.players@[i]).account@ != (#[trigger] self.players@[j]).account@ by {
                assert(self.players@[i].account == pre.players@[i].account);
                assert(self.players@[j].account == pre.players@[j].account);
            }
            assert(spec_hub_settlement(*old(self), *self, *game_id, price_snapshot@, now, ranked@));
        }
        Ok(true)
    }
}

/// A profile after an evenly split tournament award: one more game played,
/// one more win, the share added to the cumulative earnings (saturating at
/// the integer cap), and the tier rederived.
pub open spec fn spec_awarded_profile(p: PlayerProfile, share: u64) -> PlayerProfile {
    let played = spec_inc_u32(p.stats.games_played);
    let wins = spec_inc_u32(p.stats.games_won);
    PlayerProfile {
        stats: PlayerStats { games_played: played, games_won: wins, ..p.stats },
        tier: spec_tier_for(played, wins),
        total_earnings_usdc: spec_add_sat_u64(p.total_earnings_usdc, share),
        ..p
    }
}

/// The players after awarding the first `k` listed winners their share; a
/// winner without a profile is skipped.
pub open spec fn spec_award_winners(
    players: Seq<PlayerProfile>,
    winners: Seq<String>,
    share: u64,
    k: int,
) -> Seq<PlayerProfile>
    decreases k,
{
    if k <= 0 {
        players
    } else {
        let prev = spec_award_winners(players, winners, share, k - 1);
        let pi = spec_find_player(prev, winners[k - 1]@);
        if pi == -1 {
            prev
        } else {
            prev.update(pi, spec_awarded_profile(prev[pi], share))
        }
    }
}

/// Awarding preserves the player list's length and account keys.
proof fn lemma_award_winners_shape(
    players: Seq<PlayerProfile>,
    winners: Seq<String>,
    share: u64,
    k: int,
)
    ensures
        ({
            let r = spec_award_winners(players, winners, share, k);
            &&& r.len() == players.len()
            &&& forall|i: int|
                0 <= i < players.len() ==> (#[trigger] r[i]).account == players[i].account
        }),
    decreases k,
{
    if k > 0 {
        lemma_award_winners_shape(players, winners, share, k - 1);
        let prev = spec_award_winners(players, winners, share, k - 1);
        let pi = spec_find_player(prev, winners[k - 1]@);
        if pi != -1 {
            lemma_find_player_is_first(prev, winners[k - 1]@);
        }
    }
}

/// The per-winner share of an evenly split prize pool.
pub open spec fn spec_even_share(pool: u64, n: nat) -> u64 {
    if n == 0 {
        0u64
    } else {
        (pool as int / n as int) as u64
    }
}

/// What a tournament completion notification does to the hub's games and
/// players: an unknown contest, or one already completed, changes nothing;
/// otherwise the contest's status advances to completed and every listed
/// winner with a profile receives an even share of the reported pool, one
/// more game played and one more win.
pub open spec fn spec_tournament_completed(
    games: Seq<Game>,
    players: Seq<PlayerProfile>,
    gid: Seq<char>,
    winners: Seq<String>,
    pool: u64,
) -> (Seq<Game>, Seq<PlayerProfile>) {
    let gi = spec_find_game(games, gid);
    if gi == -1 || games[gi].status is Completed {
        (games, players)
    } else {
        let share = spec_even_share(pool, winners.len());
        (
            games.update(gi, Game { status: GameStatus::Completed, ..games[gi] }),
            spec_award_winners(players, winners, share, winners.len() as int),
        )
    }
}

/// A first match at `i` makes the found index `i`.
proof fn lemma_find_game_first_here(games: Seq<Game>, id: Seq<char>, i: int)
    requires
        0 <= i < games.len(),
        games[i].game_id@ == id,
        forall|j: int| 0 <= j < i ==> (#[trigger] games[j]).game_id@ != id,
    ensures
        spec_find_game(games, id) == i,
    decreases games.len(),
{
    if i > 0 {
        let d = games.drop_first();
        assert(d[i - 1] == games[i]);
        assert forall|j: int| 0 <= j < i - 1 implies (#[trigger] d[j]).game_id@ != id by {
            assert(d[j] == games[j + 1]);
        }
        lemma_find_game_first_here(d, id, i - 1);
    }
}

/// Applying the same tournament completion notification twice leaves the
/// state exactly as one application does: the first application completes
/// the contest, and a completion notification for a completed contest is a
/// no-op, so earnings are never paid twice.
pub proof fn lemma_tournament_completed_idempotent(
    games: Seq<Game>,
    players: Seq<PlayerProfile>,
    gid: Seq<char>,
    winners: Seq<String>,
    pool: u64,
)
    requires
        forall|i: int, j: int|
            0 <= i < j < games.len() ==> (#[trigger] games[i]).game_id@ != (
            #[trigger] games[j]).game_id@,
    ensures
        ({
            let once = spec_tournament_completed(games, players, gid, winners, pool);
            spec_tournament_completed(once.0, once.1, gid, winners, pool) == once
        }),
{
    let gi = spec_find_game(games, gid);
    lemma_find_game_is_first(games, gid);
    if gi != -1 && !(games[gi].status is Completed) {
        let once = spec_tournament_completed(games, players, gid, winners, pool);
        assert(once.0[gi].game_id@ == gid);
        assert forall|j: int| 0 <= j < gi implies (#[trigger] once.0[j]).game_id@ != gid by {
            assert(once.0[j] == games[j]);
        }
        lemma_find_game_first_here(once.0, gid, gi);
        assert(once.0[gi].status is Completed);
    }
}

impl CoinDraftsState {
    /// Handles one inbound message from the tournament mode engine. Unknown
    /// contests and advisory messages are tolerated and dropped: an inbound
    /// message may always arrive after local state has moved on.
    ///
    /// A tournament creation confirmation advances a waiting contest to
    /// active. A completion notification completes the contest and pays each
    /// listed winner an even share of the reported pool, exactly once: a
    /// second notification for the same contest finds it completed and
    /// changes nothing.
    pub fn execute_message(&mut self, message: TraditionalLeaguesMessage, now: u64)
        requires
            spec_hub_wf(*old(self)),
        ensures
            spec_hub_wf(*final(self)),
            final(self).registrations@ == old(self).registrations@,
            final(self).portfolios@ == old(self).portfolios@,
            final(self).results@ == old(self).results@,
            final(self).achievements@ == old(self).achievements@,
            final(self).game_counter == old(self).game_counter,
            final(self).league_instance@ == old(self).league_instance@,
            message matches TraditionalLeaguesMessage::TournamentCreated { game_id, .. } ==> {
                let gi = spec_find_game(old(self).games@, game_id@);
                &&& final(self).players@ == old(self).players@
                &&& (gi >= 0 && old(self).games@[gi].status is WaitingForPlayers ==> final(self).games@ == old(self).games@.update(
                    gi,
                    Game { status: GameStatus::Active, ..old(self).games@[gi] },
                ))
                &&& (!(gi >= 0 && old(self).games@[gi].status is WaitingForPlayers) ==> final(self).games@ == old(self).games@)
            },
            message matches TraditionalLeaguesMessage::TournamentCompleted {
                game_id,
                winners,
                total_prize_pool,
                ..
            } ==> (final(self).games@, final(self).players@) == spec_tournament_completed(
                old(self).games@,
                old(self).players@,
                game_id@,
                winners@,
                total_prize_pool,
            ),
            message is PlayerVerified ==> spec_same_hub_state(*final(self), *old(self)),
            message is TournamentStatusUpdate ==> spec_same_hub_state(*final(self), *old(self)),
    {
        match message {
            TraditionalLeaguesMessage::TournamentCreated { game_id, .. } => {
                let gi = match find_game_index(&self.games, &game_id) {
                    Some(i) => i,
                    None => {
                        return ;
                    },
                };
                proof {
                    lemma_find_game_is_first(self.games@, game_id@);
                }
                if !matches!(self.games[gi].status, GameStatus::WaitingForPlayers) {
                    return ;
                }
                let ghost og = self.games@;
                {
                    let g = &mut self.games[gi];
                    g.status = GameStatus::Active;
                }
                proof {
                    self.lemma_games_touch_keeps_wf(og, *old(self));
                }
            },
            TraditionalLeaguesMessage::TournamentCompleted {
                game_id,
                winners,
                total_prize_pool,
                ..
            } => {
                let gi = match find_game_index(&self.games, &game_id) {
                    Some(i) => i,
                    None => {
                        return ;
                    },
                };
                proof {
                    lemma_find_game_is_first(self.games@, game_id@);
                }
                if matches!(self.games[gi].status, GameStatus::Completed) {
                    return ;
                }
                let share: u64 = if winners.len() == 0 {
                    0
                } else {
                    total_prize_pool / (winners.len() as u64)
                };
                let ghost og = self.games@;
                {
                    let g = &mut self.games[gi];
                    g.status = GameStatus::Completed;
                }
                proof {
                    self.lemma_games_touch_keeps_wf(og, *old(self));
                }
                let ghost players0 = self.players@;
                let ghost games_after = self.games@;
                let mut w: usize = 0;
                while w < winners.len()
                    invariant
                        w <= winners@.len(),
                        self.players@ == spec_award_winners(
                            players0,
                            winners@,
                            share,
                            w as int,
                        ),
                        self.games@ == games_after,
                        self.registrations@ == old(self).registrations@,
                        self.portfolios@ == old(self).portfolios@,
                        self.results@ == old(self).results@,
                        self.achievements@ == old(self).achievements@,
                        self.game_counter == old(self).game_counter,
                        self.league_instance == old(self).league_instance,
                    decreases winners@.len() - w,
                {
                    match find_player_index(&self.players, &winners[w]) {
                        Some(pi) => {
                            proof {
                                lemma_find_player_is_first(self.players@, winners@[w as int]@);
                            }
                            let played = inc_sat_u32(self.players[pi].stats.games_played);
                            let wins = inc_sat_u32(self.players[pi].stats.games_won);
                            let earnings = add_sat_u64(self.players[pi].total_earnings_usdc, share);
                            let new_tier = PlayerTier::tier_for(played, wins);
                            let ghost before = self.players@;
                            {
                                let p = &mut self.players[pi];
                                p.stats.games_played = played;
                                p.stats.games_won = wins;
                                p.total_earnings_usdc = earnings;
                                p.tier = new_tier;
                            }
                            proof {
                                assert(self.players@ =~= before.update(
                                    pi as int,
                                    spec_awarded_profile(before[pi as int], share),
                                ));
                            }
                        },
                        None => {},
                    }
                    w += 1;
                }
                proof {
                    lemma_award_winners_shape(players0, winners@, share, winners@.len() as int);
                    assert forall|i: int, j: int| 0 <= i < j < self.players@.len() implies (
                    #[trigger] self.players@[i]).account@ != (
                    #[trigger] self.players@[j]).account@ by {
                        assert(self.players@[i].account == players0[i].account);
                        assert(self.players@[j].account == players0[j].account);
                    }
                }
            },
            TraditionalLeaguesMessage::PlayerVerified { .. } => {
            },
            TraditionalLeaguesMessage::TournamentStatusUpdate { .. } => {
            },
        }
    }

    /// Changing the status of one game preserves well-formedness: the
    /// identifiers and fees of every game are untouched.
    proof fn lemma_games_touch_keeps_wf(&self, og: Seq<Game>, pre: CoinDraftsState)
        requires
            spec_hub_wf(pre),
            og == pre.games@,
            self.games@.len() == og.len(),
            forall|i: int|
                0 <= i < og.len() ==> (#[trigger] self.games@[i]).game_id@ == og[i].game_id@
                    && self.games@[i].entry_fee_usdc == og[i].entry_fee_usdc,
            self.game_counter == pre.game_counter,
        ensures
            forall|i: int, j: int|
                0 <= i < j < self.games@.len() ==> (#[trigger] self.games@[i]).game_id@ != (
                #[trigger] self.games@[j]).game_id@,
            forall|i: int|
                0 <= i < self.games@.len() ==> spec_id_minted(
                    (#[trigger] self.games@[i]).game_id@,
                    self.game_counter as nat,
                ),
            forall|i: int|
                0 <= i < self.games@.len() ==> 100_000 <= (
                #[trigger] self.games@[i]).entry_fee_usdc <= 100_000_000,
    {
        assert forall|i: int, j: int| 0 <= i < j < self.games@.len() implies (
        #[trigger] self.games@[i]).game_id@ != (#[trigger] self.games@[j]).game_id@ by {
            assert(og[i].game_id@ != og[j].game_id@);
        }
        assert forall|i: int|
            0 <= i < self.games@.len() implies spec_id_minted(
            (#[trigger] self.games@[i]).game_id@,
            self.game_counter as nat,
        ) by {
            assert(spec_id_minted(og[i].game_id@, pre.game_counter as nat));
        }
    }
}

/// Operations accepted by the hub instance, applied one at a time in
/// delivery order.
pub enum CoinDraftsOperation {
    /// Create a contest.
    CreateGame { mode: GameMode, name: String, max_players: u32, entry_fee_usdc: u64, duration_hours: u64 },
    /// Register the authenticated signer for a contest.
    RegisterPlayer { game_id: String, player_name: String },
    /// Register a named account for a contest.
    RegisterPlayerWithAccount { game_id: String, player_name: String, player_account: String },
    /// Submit an equally allocated portfolio for the authenticated signer.
    SubmitPortfolio { game_id: String, cryptocurrencies: Vec<String> },
    /// Submit an equally allocated portfolio for a named account.
    SubmitPortfolioForAccount { game_id: String, player_account: String, cryptocurrencies: Vec<String> },
    /// Record the start price snapshot and activate the contest.
    StartGame { game_id: String, price_snapshot: Vec<PriceSnapshot> },
    /// Settle the contest against an end price snapshot.
    EndGame { game_id: String, price_snapshot: Vec<PriceSnapshot> },
}

/// The holdings of an equally allocated portfolio: one holding per symbol,
/// each with 100 divided by the number of symbols (truncated) as its
/// allocation. A count that does not divide 100 evenly yields an allocation
/// sum below 100, which portfolio validation then rejects.
pub open spec fn spec_equal_allocation(symbols: Seq<String>, i: int) -> CryptoHolding {
    CryptoHolding {
        symbol: symbols[i],
        allocation_percent: (100int / symbols.len() as int) as u8,
    }
}

/// The full equally allocated holdings sequence for a list of symbols.
pub open spec fn spec_equal_holdings(symbols: Seq<String>) -> Seq<CryptoHolding> {
    Seq::new(symbols.len(), |i: int| spec_equal_allocation(symbols, i))
}

/// Builds the equally allocated holdings for a list of symbols.
pub fn equal_allocation_holdings(symbols: Vec<String>) -> (r: Vec<CryptoHolding>)
    requires
        symbols@.len() >= 1,
    ensures
        r@ == spec_equal_holdings(symbols@),
{
    let n = symbols.len();
    let alloc: u8 = (100u64 / (n as u64)) as u8;
    proof {
        vstd::arithmetic::div_mod::lemma_div_nonincreasing(100, n as int);
    }
    let mut out: Vec<CryptoHolding> = Vec::new();
    let mut i: usize = 0;
    while i < n
        invariant
            n == symbols@.len(),
            i <= n,
            alloc == (100int / n as int) as u8,
            out@.len() == i,
            forall|j: int|
                0 <= j < i ==> #[trigger] out@[j] == spec_equal_allocation(symbols@, j),
        decreases n - i,
    {
        out.push(CryptoHolding { symbol: symbols[i].clone(), allocation_percent: alloc });
        i += 1;
    }
    proof {
        assert(out@ =~= spec_equal_holdings(symbols@));
    }
    out
}

/// The effect of a create operation: invalid bounds (or an exhausted
/// counter) change nothing and queue nothing; otherwise one contest is
/// appended with a freshly minted identifier and, for a traditional league
/// contest, one delegation request is queued.
pub open spec fn spec_create_effect(
    pre: CoinDraftsState,
    post: CoinDraftsState,
    mode: GameMode,
    name: String,
    max_players: u32,
    entry_fee_usdc: u64,
    duration_hours: u64,
    now: u64,
    msgs: Seq<Envelope<CoinDraftsMessage>>,
) -> bool {
    if !(100_000 <= entry_fee_usdc <= 100_000_000 && 1 <= duration_hours <= 168
        && pre.game_counter < u64::MAX) {
        &&& spec_same_hub_state(post, pre)
        &&& msgs.len() == 0
    } else {
        &&& post.games@.len() == pre.games@.len() + 1
        &&& post.games@.drop_last() == pre.games@
        &&& post.games@.last().game_id@ == spec_game_id_chars(pre.game_counter as nat)
        &&& post.games@.last().name == name
        &&& post.games@.last().mode == mode
        &&& post.games@.last().status is WaitingForPlayers
        &&& post.games@.last().created_at == now
        &&& post.games@.last().player_count == 0
        &&& post.games@.last().max_players == max_players
        &&& post.games@.last().entry_fee_usdc == entry_fee_usdc
        &&& post.games@.last().duration_hours == duration_hours
        &&& post.games@.last().start_prices is None
        &&& post.games@.last().winners@.len() == 0
        &&& post.game_counter == pre.game_counter + 1
        &&& post.players@ == pre.players@
        &&& post.registrations@ == pre.registrations@
        &&& post.portfolios@ == pre.portfolios@
        &&& post.results@ == pre.results@
        &&& post.achievements@ == pre.achievements@
        &&& post.league_instance@ == pre.league_instance@
        &&& (mode is TraditionalLeague ==> msgs.len() == 1 && msgs[0].destination@
            == pre.league_instance@ && (msgs[0].payload matches
            CoinDraftsMessage::CreateTournament {
            game_id,
            tournament_name,
            entry_fee_usdc: fee,
            max_participants,
        } && game_id@ == spec_game_id_chars(pre.game_counter as nat) && tournament_name@ == name@
            && fee == entry_fee_usdc && max_participants == max_players))
        &&& (!(mode is TraditionalLeague) ==> msgs.len() == 0)
    }
}

/// The effect of a registration: an unknown contest, a contest not open for
/// registration, or a full contest changes nothing; otherwise the account is
/// registered (idempotently) and its profile created or refreshed.
pub open spec fn spec_register_effect(
    pre: CoinDraftsState,
    post: CoinDraftsState,
    game_id: String,
    account: String,
    player_name: String,
    now: u64,
) -> bool {
    let gi = spec_find_game(pre.games@, game_id@);
    let already = spec_is_registered(pre.registrations@, game_id@, account@);
    let pi = spec_find_player(pre.players@, account@);
    if gi == -1 {
        spec_same_hub_state(post, pre)
    } else if !(pre.games@[gi].status is WaitingForPlayers) || (!already
        && pre.games@[gi].player_count >= pre.games@[gi].max_players) {
        spec_same_hub_state(post, pre)
    } else {
        &&& (already ==> post.games@ == pre.games@ && post.registrations@ == pre.registrations@)
        &&& (!already ==> post.registrations@.len() == pre.registrations@.len() + 1
            && post.registrations@.drop_last() == pre.registrations@
            && post.registrations@.last().game_id@ == game_id@
            && post.registrations@.last().account@ == account@ && post.games@ == pre.games@.update(
            gi,
            Game { player_count: (pre.games@[gi].player_count + 1) as u32, ..pre.games@[gi] },
        ))
        &&& (pi >= 0 ==> post.players@ == pre.players@.update(
            pi,
            PlayerProfile { name: player_name, ..pre.players@[pi] },
        ))
        &&& (pi == -1 ==> post.players@.len() == pre.players@.len() + 1
            && post.players@.drop_last() == pre.players@ && post.players@.last().account@
            == account@ && post.players@.last().name == player_name
            && post.players@.last().registered_at == now && post.players@.last().stats
            == spec_fresh_stats() && post.players@.last().tier is Rookie
            && post.players@.last().total_earnings_usdc == 0)
        &&& post.portfolios@ == pre.portfolios@
        &&& post.results@ == pre.results@
        &&& post.achievements@ == pre.achievements@
        &&& post.game_counter == pre.game_counter
        &&& post.league_instance@ == pre.league_instance@
    }
}


/// What storing a portfolio does: the live portfolio for the contest and
/// account is replaced in place or appended, carrying exactly the given
/// holdings, and nothing else changes.
pub open spec fn spec_stored_portfolio(
    pre: CoinDraftsState,
    post: CoinDraftsState,
    gid: Seq<char>,
    account: Seq<char>,
    holdings: Seq<CryptoHolding>,
    now: u64,
) -> bool {
    let fi = spec_find_portfolio(pre.portfolios@, gid, account);
    let ni = if fi >= 0 {
        fi
    } else {
        pre.portfolios@.len() as int
    };
    &&& (fi >= 0 ==> post.portfolios@.len() == pre.portfolios@.len() && (forall|j: int|
        0 <= j < pre.portfolios@.len() && j != fi ==> post.portfolios@[j] == pre.portfolios@[j]))
    &&& (fi == -1 ==> post.portfolios@.len() == pre.portfolios@.len() + 1
        && post.portfolios@.drop_last() == pre.portfolios@)
    &&& post.portfolios@[ni].game_id@ == gid
    &&& post.portfolios@[ni].player_account@ == account
    &&& post.portfolios@[ni].holdings@ == holdings
    &&& post.portfolios@[ni].submitted_at == now
    &&& post.portfolios@[ni].status is Valid
    &&& post.games@ == pre.games@
    &&& post.players@ == pre.players@
    &&& post.registrations@ == pre.registrations@
    &&& post.results@ == pre.results@
    &&& post.achievements@ == pre.achievements@
    &&& post.game_counter == pre.game_counter
    &&& post.league_instance@ == pre.league_instance@
}

/// The effect of a start operation: an unknown contest, a contest that
/// already holds a start snapshot, or a completed contest changes nothing;
/// otherwise the snapshot is recorded and the status advances to active.
pub open spec fn spec_start_effect(
    pre: CoinDraftsState,
    post: CoinDraftsState,
    game_id: String,
    snaps: Seq<PriceSnapshot>,
) -> bool {
    let gi = spec_find_game(pre.games@, game_id@);
    if gi == -1 || pre.games@[gi].start_prices is Some || pre.games@[gi].status is Completed {
        spec_same_hub_state(post, pre)
    } else {
        &&& post.games@.len() == pre.games@.len()
        &&& (forall|j: int|
            0 <= j < pre.games@.len() && j != gi ==> post.games@[j] == pre.games@[j])
        &&& post.games@[gi].status is Active
        &&& (post.games@[gi].start_prices matches Some(v) && v@ == snaps)
        &&& post.games@[gi].game_id@ == pre.games@[gi].game_id@
        &&& post.games@[gi].player_count == pre.games@[gi].player_count
        &&& post.games@[gi].entry_fee_usdc == pre.games@[gi].entry_fee_usdc
        &&& post.games@[gi].winners@ == pre.games@[gi].winners@
        &&& post.players@ == pre.players@
        &&& post.registrations@ == pre.registrations@
        &&& post.portfolios@ == pre.portfolios@
        &&& post.results@ == pre.results@
        &&& post.achievements@ == pre.achievements@
        &&& post.game_counter == pre.game_counter
        &&& post.league_instance@ == pre.league_instance@
    }
}

/// Whether a contest can settle against an end snapshot: it is known and
/// active, holds a start snapshot, and has at least one live portfolio (and
/// not more than a rank can number).
pub open spec fn spec_hub_settleable(
    pre: CoinDraftsState,
    game_id: String,
    snaps: Seq<PriceSnapshot>,
) -> bool {
    let gi = spec_find_game(pre.games@, game_id@);
    &&& gi >= 0
    &&& pre.games@[gi].status is Active
    &&& (pre.games@[gi].start_prices matches Some(sp) && 1 <= spec_scored_of(
        pre.portfolios@,
        game_id@,
        sp@,
        snaps,
    ).len() <= 0xffff_fffe)
}

/// The effect of a settlement operation: when the contest can settle it
/// settles as one exact settlement relation describes; otherwise nothing
/// changes.
pub open spec fn spec_end_effect(
    pre: CoinDraftsState,
    post: CoinDraftsState,
    game_id: String,
    snaps: Seq<PriceSnapshot>,
    now: u64,
) -> bool {
    if spec_hub_settleable(pre, game_id, snaps) {
        exists|ranked: Seq<ScoreEntry>| spec_hub_settlement(pre, post, game_id, snaps, now, ranked)
    } else {
        spec_same_hub_state(post, pre)
    }
}

impl CoinDraftsState {

    /// Submits an equally allocated portfolio built from a symbol list: one
    /// holding per symbol, each allocated 100 divided by the symbol count.
    /// An unknown contest or an allocation sum that is not exactly 100
    /// changes nothing.
    pub fn submit_equal_allocation(
        &mut self,
        game_id: String,
        account: String,
        cryptocurrencies: Vec<String>,
        now: u64,
    )
        requires
            spec_hub_wf(*old(self)),
            cryptocurrencies@.len() >= 1,
        ensures
            spec_hub_wf(*final(self)),
            !(spec_find_game(old(self).games@, game_id@) >= 0 && spec_portfolio_valid(
                spec_equal_holdings(cryptocurrencies@),
            )) ==> spec_same_hub_state(*final(self), *old(self)),
            spec_find_game(old(self).games@, game_id@) >= 0 && spec_portfolio_valid(
                spec_equal_holdings(cryptocurrencies@),
            ) ==> {
                let fi = spec_find_portfolio(old(self).portfolios@, game_id@, account@);
                &&& (fi >= 0 ==> final(self).portfolios@.len() == old(self).portfolios@.len()
                    && (forall|j: int|
                        0 <= j < old(self).portfolios@.len() && j != fi ==> final(self).portfolios@[j] == old(self).portfolios@[j]))
                &&& (fi == -1 ==> final(self).portfolios@.len() == old(self).portfolios@.len() + 1
                    && final(self).portfolios@.drop_last() == old(self).portfolios@)
                &&& {
                    let ni = if fi >= 0 {
                        fi
                    } else {
                        old(self).portfolios@.len() as int
                    };
                    &&& final(self).portfolios@[ni].game_id@ == game_id@
                    &&& final(self).portfolios@[ni].player_account@ == account@
                    &&& final(self).portfolios@[ni].holdings@ == spec_equal_holdings(
                        cryptocurrencies@,
                    )
                    &&& final(self).portfolios@[ni].submitted_at == now
                    &&& final(self).portfolios@[ni].status is Valid
                }
                &&& final(self).games@ == old(self).games@
                &&& final(self).players@ == old(self).players@
                &&& final(self).registrations@ == old(self).registrations@
                &&& final(self).results@ == old(self).results@
                &&& final(self).achievements@ == old(self).achievements@
                &&& final(self).game_counter == old(self).game_counter
                &&& final(self).league_instance@ == old(self).league_instance@
            },
    {
        let holdings = equal_allocation_holdings(cryptocurrencies);
        let res = self.submit_portfolio(&game_id, account, holdings, now);
        proof {
            if res is Err {
                assert(spec_same_hub_state(*self, *old(self)));
            }
        }
    }


    /// Applies one operation to the hub state and returns the outbound
    /// messages it queued. Operations that act for the caller use the
    /// authenticated signer as the account. Failures are swallowed here, as
    /// operation handling acknowledges rather than throws; the typed methods
    /// report them exactly.
    #[verifier::rlimit(100)]
    #[verifier::spinoff_prover]
    pub fn execute_operation(
        &mut self,
        operation: CoinDraftsOperation,
        signer: String,
        now: u64,
    ) -> (msgs: Vec<Envelope<CoinDraftsMessage>>)
        requires
            spec_hub_wf(*old(self)),
        ensures
            spec_hub_wf(*final(self)),
            operation matches CoinDraftsOperation::CreateGame {
                mode,
                name,
                max_players,
                entry_fee_usdc,
                duration_hours,
            } ==> spec_create_effect(
                *old(self),
                *final(self),
                mode,
                name,
                max_players,
                entry_fee_usdc,
                duration_hours,
                now,
                msgs@,
            ),
            operation matches CoinDraftsOperation::RegisterPlayer { game_id, player_name }
                ==> spec_register_effect(
                *old(self),
                *final(self),
                game_id,
                signer,
                player_name,
                now,
            ) && msgs@.len() == 0,
            operation matches CoinDraftsOperation::RegisterPlayerWithAccount {
                game_id,
                player_name,
                player_account,
            } ==> spec_register_effect(
                *old(self),
                *final(self),
                game_id,
                player_account,
                player_name,
                now,
            ) && msgs@.len() == 0,
            operation matches CoinDraftsOperation::SubmitPortfolio { game_id, cryptocurrencies }
                ==> (cryptocurrencies@.len() >= 1 && !(spec_find_game(old(self).games@, game_id@)
                >= 0 && spec_portfolio_valid(spec_equal_holdings(cryptocurrencies@)))
                ==> spec_same_hub_state(*final(self), *old(self))) && (cryptocurrencies@.len() >= 1
                && spec_find_game(old(self).games@, game_id@) >= 0 && spec_portfolio_valid(
                spec_equal_holdings(cryptocurrencies@),
            ) ==> spec_stored_portfolio(
                *old(self),
                *final(self),
                game_id@,
                signer@,
                spec_equal_holdings(cryptocurrencies@),
                now,
            )) && (cryptocurrencies@.len() == 0 ==> spec_same_hub_state(*final(self), *old(self)))
                && msgs@.len() == 0,
            operation matches CoinDraftsOperation::SubmitPortfolioForAccount {
                game_id,
                player_account,
                cryptocurrencies,
            } ==> (cryptocurrencies@.len() >= 1 && !(spec_find_game(old(self).games@, game_id@)
                >= 0 && spec_portfolio_valid(spec_equal_holdings(cryptocurrencies@)))
                ==> spec_same_hub_state(*final(self), *old(self))) && (cryptocurrencies@.len() >= 1
                && spec_find_game(old(self).games@, game_id@) >= 0 && spec_portfolio_valid(
                spec_equal_holdings(cryptocurrencies@),
            ) ==> spec_stored_portfolio(
                *old(self),
                *final(self),
                game_id@,
                player_account@,
                spec_equal_holdings(cryptocurrencies@),
                now,
            )) && (cryptocurrencies@.len() == 0 ==> spec_same_hub_state(*final(self), *old(self)))
                && msgs@.len() == 0,
            operation matches CoinDraftsOperation::StartGame { game_id, price_snapshot }
                ==> spec_start_effect(*old(self), *final(self), game_id, price_snapshot@)
                && msgs@.len() == 0,
            operation matches CoinDraftsOperation::EndGame { game_id, price_snapshot }
                ==> spec_end_effect(*old(self), *final(self), game_id, price_snapshot@, now)
                && msgs@.len() == 0,
    {
        match operation {
            CoinDraftsOperation::CreateGame {
                mode,
                name,
                max_players,
                entry_fee_usdc,
                duration_hours,
            } => {
                match self.create_game(mode, name, max_players, entry_fee_usdc, duration_hours, now) {
                    Ok((_, msgs)) => msgs,
                    Err(_) => Vec::new(),
                }
            },
            CoinDraftsOperation::RegisterPlayer { game_id, player_name } => {
                let _ = self.register_player(&game_id, signer, player_name, now);
                Vec::new()
            },
            CoinDraftsOperation::RegisterPlayerWithAccount {
                game_id,
                player_name,
                player_account,
            } => {
                let _ = self.register_player(&game_id, player_account, player_name, now);
                Vec::new()
            },
            CoinDraftsOperation::SubmitPortfolio { game_id, cryptocurrencies } => {
                if cryptocurrencies.len() >= 1 {
                    self.submit_equal_allocation(game_id, signer, cryptocurrencies, now);
                }
                Vec::new()
            },
            CoinDraftsOperation::SubmitPortfolioForAccount {
                game_id,
                player_account,
                cryptocurrencies,
            } => {
                if cryptocurrencies.len() >= 1 {
                    self.submit_equal_allocation(game_id, player_account, cryptocurrencies, now);
                }
                Vec::new()
            },
            CoinDraftsOperation::StartGame { game_id, price_snapshot } => {
                let ghost snaps = price_snapshot@;
                let res = self.start_game(&game_id, price_snapshot, now);
                proof {
                    assert(spec_start_effect(*old(self), *self, game_id, snaps));
                }
                Vec::new()
            },
            CoinDraftsOperation::EndGame { game_id, price_snapshot } => {
                let ghost snaps = price_snapshot@;
                let res = self.end_game(&game_id, price_snapshot, now);
                proof {
                    match res {
                        Ok(true) => {
                        },
                        Ok(false) => {
                            assert(!spec_hub_settleable(*old(self), game_id, snaps));
                        },
                        Err(_) => {
                            assert(!spec_hub_settleable(*old(self), game_id, snaps));
                        },
                    }
                }
                Vec::new()
            },
        }
    }
}


/// Every portfolio a well-formed hub stores is a valid allocation-based
/// portfolio: its allocation percentages sum to exactly 100 and it holds
/// between one and ten assets. A submission that does not is rejected before
/// storage, so no reachable state ever holds one.
pub proof fn lemma_stored_portfolios_valid(s: CoinDraftsState)
    requires
        spec_hub_wf(s),
    ensures
        forall|i: int|
            0 <= i < s.portfolios@.len() ==> crate::portfolio::spec_alloc_sum(
                (#[trigger] s.portfolios@[i]).holdings@,
            ) == 100 && 1 <= s.portfolios@[i].holdings@.len() <= 10,
{
}

impl CoinDraftsState {
    /// The contest with an identifier, when the hub knows it.
    pub fn game(&self, game_id: &String) -> (r: Option<&Game>)
        ensures
            r matches Some(g) ==> spec_find_game(self.games@, game_id@) >= 0 && *g
                == self.games@[spec_find_game(self.games@, game_id@)],
            r is None ==> spec_find_game(self.games@, game_id@) == -1,
    {
        match find_game_index(&self.games, game_id) {
            Some(i) => {
                proof {
                    lemma_find_game_is_first(self.games@, game_id@);
                }
                Some(&self.games[i])
            },
            None => None,
        }
    }

    /// The number of contests the hub has created and kept.
    pub fn total_games(&self) -> (r: usize)
        ensures
            r == self.games@.len(),
    {
        self.games.len()
    }

    /// The live portfolios of one contest, in storage order.
    pub fn game_portfolios(&self, game_id: &String) -> (r: Vec<Portfolio>)
        ensures
            r@.len() <= self.portfolios@.len(),
            forall|k: int|
                0 <= k < r@.len() ==> (#[trigger] r@[k]).game_id@ == game_id@,
    {
        let mut out: Vec<Portfolio> = Vec::new();
        let mut i: usize = 0;
        while i < self.portfolios.len()
            invariant
                i <= self.portfolios@.len(),
                out@.len() <= i,
                forall|k: int| 0 <= k < out@.len() ==> (#[trigger] out@[k]).game_id@ == game_id@,
            decreases self.portfolios@.len() - i,
        {
            if string_eq(&self.portfolios[i].game_id, game_id) {
                let ghost before = out@;
                out.push(self.portfolios[i].duplicate());
                proof {
                    assert forall|k: int|
                        0 <= k < out@.len() implies (#[trigger] out@[k]).game_id@ == game_id@ by {
                        if k < out@.len() - 1 {
                            assert(out@[k] == before[k]);
                        }
                    }
                }
            }
            i += 1;
        }
        out
    }
}

} // verus!
