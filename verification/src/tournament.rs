//! The tournament mode engine: lifecycle state machine for traditional
//! league tournaments.
//!
//! The engine owns its tournaments, participants, portfolios and results
//! exclusively, processes one operation or inbound message at a time to
//! completion, and coordinates with the hub only through typed messages.
//! There are no timers: expiry is a computed condition acted on only when an
//! explicit check operation is invoked.

use vstd::prelude::*;
use vstd::string::*;
use crate::game::PriceSnapshot;
use crate::league::{
    LeaderboardEntry, PriceData, ScoringEngine, Tournament, TournamentPortfolio, TournamentStatus,
    TournamentType, spec_change_limit, spec_pd_bounded, spec_scored_entries,
};
use crate::messages::{CoinDraftsMessage, Envelope, TraditionalLeaguesMessage};
use crate::ranking::ScoreEntry;
use crate::scoring::spec_return_scaled;
use crate::text::{dec_digits, lemma_dec_digits_injective, string_eq, u64_to_dec};
use crate::validation::validate_entry_fee;

verus! {

/// Tournaments run for this long once started, in microseconds.
pub const TOURNAMENT_DURATION_MICROS: u64 = 600_000_000;

/// Operations accepted by the tournament engine.
pub enum TraditionalLeaguesOperation {
    /// Create a tournament.
    CreateTournament { name: String, entry_fee_usdc: u64, max_participants: u32, tournament_type: TournamentType, category: String },
    /// Register an account for a tournament.
    RegisterForTournament { tournament_id: String, player_account: String },
    /// Submit a portfolio for a tournament round.
    SubmitPortfolio { tournament_id: String, round: u32, portfolio: TournamentPortfolio },
    /// Start a tournament with a price snapshot.
    StartTournament { tournament_id: String, start_prices: Vec<PriceSnapshot> },
    /// End a tournament with a final price snapshot and settle it.
    EndTournament { tournament_id: String, end_prices: Vec<PriceSnapshot> },
    /// Advance a tournament to its next round.
    AdvanceRound { tournament_id: String },
    /// Complete a tournament whose running time has elapsed.
    CompleteTournament { tournament_id: String },
    /// Check for expired tournaments and complete them.
    CheckExpiredTournaments,
}

/// Typed acknowledgments returned by the tournament engine.
pub enum TraditionalLeaguesResponse {
    TournamentCreated { tournament_id: String },
    PlayerRegistered { success: bool },
    PortfolioSubmitted { success: bool },
    TournamentStarted { success: bool, timestamp: u64 },
    TournamentEnded { success: bool, winners: Vec<String> },
    RoundAdvanced { new_round: u32 },
    TournamentCompleted { winners: Vec<String> },
    ExpiredTournamentsChecked { completed_tournaments: Vec<String> },
}

/// One participation record: an account registered for a tournament.
pub struct Participation {
    /// The tournament registered for.
    pub tournament_id: String,
    /// The registered account.
    pub account: String,
}

/// One stored portfolio, keyed by tournament, round and account.
pub struct RoundPortfolio {
    /// The tournament submitted to.
    pub tournament_id: String,
    /// The round submitted for.
    pub round: u32,
    /// The submitting account.
    pub account: String,
    /// The submitted picks.
    pub portfolio: TournamentPortfolio,
}

/// The recorded winners of a settled tournament.
pub struct TournamentResult {
    /// The settled tournament.
    pub tournament_id: String,
    /// Accounts of the top finishers, best first.
    pub winners: Vec<String>,
}

/// A link between a locally owned tournament and the hub game it was created
/// for, kept so completion notifications can be routed back.
pub struct GameLink {
    /// The local tournament.
    pub tournament_id: String,
    /// The hub contest it backs.
    pub game_id: String,
    /// The hub instance to notify.
    pub origin: String,
}

/// The tournament engine's state.
pub struct TraditionalLeaguesState {
    /// Tournaments by identifier.
    pub tournaments: Vec<Tournament>,
    /// Participations, at most one per tournament and account.
    pub participants: Vec<Participation>,
    /// Stored portfolios, at most one per tournament, round and account.
    pub portfolios: Vec<RoundPortfolio>,
    /// Recorded winners by tournament.
    pub results: Vec<TournamentResult>,
    /// Monotone counter for minting tournament identifiers; never reused.
    pub tournament_counter: u64,
    /// Links from local tournaments to the hub games they back.
    pub game_links: Vec<GameLink>,
}

/// The identifier minted for counter value `k`.
pub open spec fn spec_tournament_id_chars(k: nat) -> Seq<char> {
    "trad-league-"@ + dec_digits(k)
}

/// Distinct counter values mint distinct identifiers.
pub proof fn lemma_tournament_id_injective(a: nat, b: nat)
    requires
        spec_tournament_id_chars(a) == spec_tournament_id_chars(b),
    ensures
        a == b,
{
    let p = "trad-league-"@;
    assert((p + dec_digits(a)).skip(p.len() as int) =~= dec_digits(a));
    assert((p + dec_digits(b)).skip(p.len() as int) =~= dec_digits(b));
    lemma_dec_digits_injective(a, b);
}

/// Whether an identifier was minted from a counter value below `c`.
pub open spec fn spec_tid_minted(id: Seq<char>, c: nat) -> bool {
    exists|k: nat| k < c && id == spec_tournament_id_chars(k)
}

/// The index of the tournament with an identifier, or -1 when unknown.
pub open spec fn spec_find_tournament(ts: Seq<Tournament>, id: Seq<char>) -> int
    decreases ts.len(),
{
    if ts.len() == 0 {
        -1
    } else if ts.first().id@ == id {
        0
    } else {
        let r = spec_find_tournament(ts.drop_first(), id);
        if r == -1 {
            -1
        } else {
            r + 1
        }
    }
}

/// The found index is the first match; -1 means no match at all.
pub proof fn lemma_find_tournament_is_first(ts: Seq<Tournament>, id: Seq<char>)
    ensures
        spec_find_tournament(ts, id) == -1 ==> forall|j: int|
            0 <= j < ts.len() ==> (#[trigger] ts[j]).id@ != id,
        spec_find_tournament(ts, id) != -1 ==> {
            let r = spec_find_tournament(ts, id);
            &&& 0 <= r < ts.len()
            &&& ts[r].id@ == id
            &&& forall|j: int| 0 <= j < r ==> (#[trigger] ts[j]).id@ != id
        },
    decreases ts.len(),
{
    if ts.len() > 0 && ts.first().id@ != id {
        let d = ts.drop_first();
        lemma_find_tournament_is_first(d, id);
        assert(forall|j: int| 1 <= j < ts.len() ==> #[trigger] ts[j] == d[j - 1]);
        let rd = spec_find_tournament(d, id);
        if rd == -1 {
            assert forall|j: int| 0 <= j < ts.len() implies (#[trigger] ts[j]).id@ != id by {
                if j > 0 {
                    assert(ts[j] == d[j - 1]);
                }
            }
        } else {
            assert(ts[rd + 1] == d[rd]);
            assert forall|j: int| 0 <= j < rd + 1 implies (#[trigger] ts[j]).id@ != id by {
                if j > 0 {
                    assert(ts[j] == d[j - 1]);
                }
            }
        }
    }
}

/// Finds the index of the tournament with an identifier.
fn find_tournament_index(ts: &Vec<Tournament>, id: &String) -> (r: Option<usize>)
    ensures
        r matches Some(i) ==> i == spec_find_tournament(ts@, id@),
        r is None ==> spec_find_tournament(ts@, id@) == -1,
{
    proof {
        lemma_find_tournament_is_first(ts@, id@);
    }
    let mut i: usize = 0;
    while i < ts.len()
        invariant
            i <= ts@.len(),
            forall|j: int| 0 <= j < i ==> (#[trigger] ts@[j]).id@ != id@,
        decreases ts@.len() - i,
    {
        if string_eq(&ts[i].id, id) {
            proof {
                lemma_find_tournament_is_first(ts@, id@);
            }
            return Some(i);
        }
        i += 1;
    }
    proof {
        lemma_find_tournament_is_first(ts@, id@);
    }
    None
}

/// Whether an account is registered for a tournament.
pub open spec fn spec_is_participant(
    ps: Seq<Participation>,
    tid: Seq<char>,
    account: Seq<char>,
) -> bool {
    exists|i: int|
        0 <= i < ps.len() && (#[trigger] ps[i]).tournament_id@ == tid && ps[i].account@ == account
}

/// The number of participants of a tournament.
pub open spec fn spec_participant_count(ps: Seq<Participation>, tid: Seq<char>) -> int
    decreases ps.len(),
{
    if ps.len() == 0 {
        0int
    } else {
        spec_participant_count(ps.drop_last(), tid) + if ps.last().tournament_id@ == tid {
            1int
        } else {
            0int
        }
    }
}

/// Counts the participants of a tournament.
pub fn participant_count(ps: &Vec<Participation>, tid: &String) -> (r: usize)
    ensures
        r == spec_participant_count(ps@, tid@),
        r <= ps@.len(),
{
    proof {
        lemma_participant_count_le(ps@, tid@);
    }
    let mut count: usize = 0;
    let mut i: usize = 0;
    while i < ps.len()
        invariant
            i <= ps@.len(),
            count == spec_participant_count(ps@.take(i as int), tid@),
            count <= i,
        decreases ps@.len() - i,
    {
        proof {
            assert(ps@.take(i + 1).drop_last() =~= ps@.take(i as int));
            assert(ps@.take(i + 1).last() == ps@[i as int]);
        }
        if string_eq(&ps[i].tournament_id, tid) {
            count += 1;
        }
        i += 1;
    }
    proof {
        assert(ps@.take(ps@.len() as int) =~= ps@);
    }
    count
}

/// The participant count never exceeds the list length.
proof fn lemma_participant_count_le(ps: Seq<Participation>, tid: Seq<char>)
    ensures
        0 <= spec_participant_count(ps, tid) <= ps.len(),
    decreases ps.len(),
{
    if ps.len() > 0 {
        lemma_participant_count_le(ps.drop_last(), tid);
    }
}

/// Checks whether an account is registered for a tournament.
fn is_participant(ps: &Vec<Participation>, tid: &String, account: &String) -> (r: bool)
    ensures
        r == spec_is_participant(ps@, tid@, account@),
{
    let mut i: usize = 0;
    while i < ps.len()
        invariant
            i <= ps@.len(),
            forall|j: int|
                0 <= j < i ==> !((#[trigger] ps@[j]).tournament_id@ == tid@ && ps@[j].account@
                    == account@),
        decreases ps@.len() - i,
    {
        if string_eq(&ps[i].tournament_id, tid) && string_eq(&ps[i].account, account) {
            return true;
        }
        i += 1;
    }
    false
}

/// The index of the stored portfolio for a tournament, round and account, or
/// -1.
pub open spec fn spec_find_round_portfolio(
    ps: Seq<RoundPortfolio>,
    tid: Seq<char>,
    round: u32,
    account: Seq<char>,
) -> int
    decreases ps.len(),
{
    if ps.len() == 0 {
        -1
    } else if ps.first().tournament_id@ == tid && ps.first().round == round
        && ps.first().account@ == account {
        0
    } else {
        let r = spec_find_round_portfolio(ps.drop_first(), tid, round, account);
        if r == -1 {
            -1
        } else {
            r + 1
        }
    }
}

/// The found index is the first match; -1 means no match at all.
pub proof fn lemma_find_round_portfolio_is_first(
    ps: Seq<RoundPortfolio>,
    tid: Seq<char>,
    round: u32,
    account: Seq<char>,
)
    ensures
        spec_find_round_portfolio(ps, tid, round, account) == -1 ==> forall|j: int|
            0 <= j < ps.len() ==> !((#[trigger] ps[j]).tournament_id@ == tid && ps[j].round
                == round && ps[j].account@ == account),
        spec_find_round_portfolio(ps, tid, round, account) != -1 ==> {
            let r = spec_find_round_portfolio(ps, tid, round, account);
            &&& 0 <= r < ps.len()
            &&& ps[r].tournament_id@ == tid
            &&& ps[r].round == round
            &&& ps[r].account@ == account
        },
    decreases ps.len(),
{
    if ps.len() > 0 && !(ps.first().tournament_id@ == tid && ps.first().round == round
        && ps.first().account@ == account) {
        let d = ps.drop_first();
        lemma_find_round_portfolio_is_first(d, tid, round, account);
        assert(forall|j: int| 1 <= j < ps.len() ==> #[trigger] ps[j] == d[j - 1]);
        let rd = spec_find_round_portfolio(d, tid, round, account);
        if rd == -1 {
            assert forall|j: int|
                0 <= j < ps.len() implies !((#[trigger] ps[j]).tournament_id@ == tid && ps[j].round
                == round && ps[j].account@ == account) by {
                if j > 0 {
                    assert(ps[j] == d[j - 1]);
                }
            }
        } else {
            assert(ps[rd + 1] == d[rd]);
        }
    }
}

/// Finds the index of the stored portfolio for a tournament, round and
/// account.
fn find_round_portfolio(
    ps: &Vec<RoundPortfolio>,
    tid: &String,
    round: u32,
    account: &String,
) -> (r: Option<usize>)
    ensures
        r matches Some(i) ==> i == spec_find_round_portfolio(ps@, tid@, round, account@),
        r is None ==> spec_find_round_portfolio(ps@, tid@, round, account@) == -1,
{
    proof {
        lemma_find_round_portfolio_is_first(ps@, tid@, round, account@);
    }
    let mut i: usize = 0;
    while i < ps.len()
        invariant
            i <= ps@.len(),
            forall|j: int|
                0 <= j < i ==> !((#[trigger] ps@[j]).tournament_id@ == tid@ && ps@[j].round
                    == round && ps@[j].account@ == account@),
        decreases ps@.len() - i,
    {
        if string_eq(&ps[i].tournament_id, tid) && ps[i].round == round && string_eq(
            &ps[i].account,
            account,
        ) {
            proof {
                lemma_round_portfolio_first_here(ps@, tid@, round, account@, i as int);
            }
            return Some(i);
        }
        i += 1;
    }
    proof {
        lemma_find_round_portfolio_is_first(ps@, tid@, round, account@);
    }
    None
}

/// A first match at `i` makes the found index `i`.
proof fn lemma_round_portfolio_first_here(
    ps: Seq<RoundPortfolio>,
    tid: Seq<char>,
    round: u32,
    account: Seq<char>,
    i: int,
)
    requires
        0 <= i < ps.len(),
        ps[i].tournament_id@ == tid && ps[i].round == round && ps[i].account@ == account,
        forall|j: int|
            0 <= j < i ==> !((#[trigger] ps[j]).tournament_id@ == tid && ps[j].round == round
                && ps[j].account@ == account),
    ensures
        spec_find_round_portfolio(ps, tid, round, account) == i,
    decreases ps.len(),
{
    if i > 0 {
        let d = ps.drop_first();
        assert(d[i - 1] == ps[i]);
        assert forall|j: int|
            0 <= j < i - 1 implies !((#[trigger] d[j]).tournament_id@ == tid && d[j].round == round
            && d[j].account@ == account) by {
            assert(d[j] == ps[j + 1]);
        }
        lemma_round_portfolio_first_here(d, tid, round, account, i - 1);
    }
}

/// Well-formedness of the tournament engine state: identifiers and keys are
/// unique, identifiers come from the monotone counter, stored portfolios keep
/// at most five picks, and every entry fee is within the validated bounds.
pub open spec fn spec_league_wf(s: TraditionalLeaguesState) -> bool {
    &&& forall|i: int, j: int|
        0 <= i < j < s.tournaments@.len() ==> (#[trigger] s.tournaments@[i]).id@ != (
        #[trigger] s.tournaments@[j]).id@
    &&& forall|i: int|
        0 <= i < s.tournaments@.len() ==> spec_tid_minted(
            (#[trigger] s.tournaments@[i]).id@,
            s.tournament_counter as nat,
        )
    &&& forall|i: int|
        0 <= i < s.tournaments@.len() ==> 100_000 <= (
        #[trigger] s.tournaments@[i]).entry_fee_usdc <= 100_000_000
    &&& forall|i: int, j: int|
        0 <= i < j < s.participants@.len() ==> !((#[trigger] s.participants@[i]).tournament_id@
            == (#[trigger] s.participants@[j]).tournament_id@ && s.participants@[i].account@
            == s.participants@[j].account@)
    &&& forall|i: int, j: int|
        0 <= i < j < s.portfolios@.len() ==> !((#[trigger] s.portfolios@[i]).tournament_id@ == (
        #[trigger] s.portfolios@[j]).tournament_id@ && s.portfolios@[i].round
            == s.portfolios@[j].round && s.portfolios@[i].account@ == s.portfolios@[j].account@)
    &&& forall|i: int|
        0 <= i < s.portfolios@.len() ==> (
        #[trigger] s.portfolios@[i]).portfolio.crypto_picks@.len() <= 5
    &&& forall|i: int|
        0 <= i < s.tournaments@.len() ==> (#[trigger] s.tournaments@[i]).current_participants
            == spec_participant_count(s.participants@, s.tournaments@[i].id@)
            && s.tournaments@[i].current_participants <= s.tournaments@[i].max_participants
    &&& forall|k: int|
        0 <= k < s.participants@.len() ==> spec_find_tournament(
            s.tournaments@,
            (#[trigger] s.participants@[k]).tournament_id@,
        ) >= 0
}

/// In a well-formed engine every tournament's stored participant count equals
/// the number of its registrations and never exceeds its capacity: a
/// duplicate registration cannot push the count past the cap.
pub proof fn lemma_participants_within_capacity(s: TraditionalLeaguesState)
    requires
        spec_league_wf(s),
    ensures
        forall|i: int|
            0 <= i < s.tournaments@.len() ==> (#[trigger] s.tournaments@[i]).current_participants
                == spec_participant_count(s.participants@, s.tournaments@[i].id@)
                && s.tournaments@[i].current_participants <= s.tournaments@[i].max_participants,
{
}

/// The tournament record after one new registration: the participant count
/// raised by one and, when this registration is the second and the rounds
/// have not yet begun, the first round started.
pub open spec fn spec_registered_tournament(t: Tournament, now: u64, new_count: int) -> Tournament {
    let bumped = Tournament { current_participants: (t.current_participants + 1) as u32, ..t };
    if new_count >= 2 && t.current_round == 0 {
        Tournament {
            current_round: 1u32,
            status: TournamentStatus::InProgress,
            started_at: Some(now),
            ..bumped
        }
    } else {
        bumped
    }
}

/// Appending one registration raises exactly its tournament's count by one.
proof fn lemma_participant_count_push(ps: Seq<Participation>, p: Participation, id: Seq<char>)
    ensures
        spec_participant_count(ps.push(p), id) == spec_participant_count(ps, id) + (
        if p.tournament_id@ == id {
            1int
        } else {
            0int
        }),
{
    assert(ps.push(p).drop_last() =~= ps);
    assert(ps.push(p).last() == p);
}

/// A tournament nothing references counts zero registrations.
proof fn lemma_participant_count_absent(ps: Seq<Participation>, id: Seq<char>)
    requires
        forall|k: int| 0 <= k < ps.len() ==> (#[trigger] ps[k]).tournament_id@ != id,
    ensures
        spec_participant_count(ps, id) == 0,
    decreases ps.len(),
{
    if ps.len() > 0 {
        lemma_participant_count_absent(ps.drop_last(), id);
    }
}

/// Two tournament lists with pointwise equal identifiers find every
/// identifier at the same index.
proof fn lemma_find_tournament_same_ids(ts1: Seq<Tournament>, ts2: Seq<Tournament>, id: Seq<char>)
    requires
        ts1.len() == ts2.len(),
        forall|i: int| 0 <= i < ts1.len() ==> (#[trigger] ts1[i]).id@ == ts2[i].id@,
    ensures
        spec_find_tournament(ts1, id) == spec_find_tournament(ts2, id),
    decreases ts1.len(),
{
    if ts1.len() > 0 {
        assert(ts1.first().id@ == ts2.first().id@) by {
            assert(ts1[0].id@ == ts2[0].id@);
        }
        if ts1.first().id@ != id {
            let d1 = ts1.drop_first();
            let d2 = ts2.drop_first();
            assert forall|i: int| 0 <= i < d1.len() implies (#[trigger] d1[i]).id@
                == d2[i].id@ by {
                assert(d1[i] == ts1[i + 1] && d2[i] == ts2[i + 1]);
            }
            lemma_find_tournament_same_ids(d1, d2, id);
        }
    }
}

/// Appending a tournament keeps every previously found identifier found.
proof fn lemma_find_tournament_after_push(ts: Seq<Tournament>, t: Tournament, id: Seq<char>)
    requires
        spec_find_tournament(ts, id) >= 0,
    ensures
        spec_find_tournament(ts.push(t), id) >= 0,
{
    lemma_find_tournament_is_first(ts, id);
    let r = spec_find_tournament(ts, id);
    assert(ts.push(t)[r] == ts[r]);
    lemma_find_tournament_is_first(ts.push(t), id);
    if spec_find_tournament(ts.push(t), id) == -1 {
        assert(ts.push(t)[r].id@ != id);
    }
}

/// Whether two engine states hold exactly the same entities.
pub open spec fn spec_same_league_state(
    a: TraditionalLeaguesState,
    b: TraditionalLeaguesState,
) -> bool {
    &&& a.tournaments@ == b.tournaments@
    &&& a.participants@ == b.participants@
    &&& a.portfolios@ == b.portfolios@
    &&& a.results@ == b.results@
    &&& a.tournament_counter == b.tournament_counter
    &&& a.game_links@ == b.game_links@
}

/// The ceiling of the base-two logarithm, used for bracket round counts.
pub open spec fn spec_ceil_log2(n: u32) -> u32
    decreases n,
{
    if n <= 1 {
        0u32
    } else {
        (1 + spec_ceil_log2(((n + 1) / 2) as u32)) as u32
    }
}

/// Computes the ceiling of the base-two logarithm.
pub fn ceil_log2(n: u32) -> (r: u32)
    ensures
        r == spec_ceil_log2(n),
        r <= n,
    decreases n,
{
    proof {
        lemma_ceil_log2_le(n);
    }
    if n <= 1 {
        0
    } else {
        let half = n / 2 + n % 2;
        proof {
            assert(half == ((n + 1) / 2) as u32);
        }
        1 + ceil_log2(half)
    }
}

/// The round count never exceeds the participant count.
proof fn lemma_ceil_log2_le(n: u32)
    ensures
        spec_ceil_log2(n) <= n,
    decreases n,
{
    if n > 1 {
        lemma_ceil_log2_le(((n + 1) / 2) as u32);
    }
}

/// The number of rounds a bracket format calls for.
pub open spec fn spec_max_rounds(t: TournamentType, max_participants: u32) -> u32 {
    match t {
        TournamentType::SingleElimination => spec_ceil_log2(max_participants),
        TournamentType::DoubleElimination => (2 * spec_ceil_log2(max_participants)) as u32,
        TournamentType::RoundRobin => if max_participants == 0 {
            0u32
        } else {
            (max_participants - 1) as u32
        },
        TournamentType::Swiss => spec_ceil_log2(max_participants),
    }
}

/// Computes the number of rounds a bracket format calls for.
pub fn max_rounds_for(t: TournamentType, max_participants: u32) -> (r: u32)
    ensures
        r == spec_max_rounds(t, max_participants),
{
    match t {
        TournamentType::SingleElimination => ceil_log2(max_participants),
        TournamentType::DoubleElimination => (2u64 * (ceil_log2(max_participants) as u64)) as u32,
        TournamentType::RoundRobin => if max_participants == 0 {
            0
        } else {
            max_participants - 1
        },
        TournamentType::Swiss => ceil_log2(max_participants),
    }
}

/// The index of the game link of a tournament, or -1.
pub open spec fn spec_find_link(links: Seq<GameLink>, tid: Seq<char>) -> int
    decreases links.len(),
{
    if links.len() == 0 {
        -1
    } else if links.first().tournament_id@ == tid {
        0
    } else {
        let r = spec_find_link(links.drop_first(), tid);
        if r == -1 {
            -1
        } else {
            r + 1
        }
    }
}

/// The found index is the first match; -1 means no match at all.
proof fn lemma_find_link_is_first(links: Seq<GameLink>, tid: Seq<char>)
    ensures
        spec_find_link(links, tid) == -1 ==> forall|j: int|
            0 <= j < links.len() ==> (#[trigger] links[j]).tournament_id@ != tid,
        spec_find_link(links, tid) != -1 ==> {
            let r = spec_find_link(links, tid);
            &&& 0 <= r < links.len()
            &&& links[r].tournament_id@ == tid
            &&& forall|j: int| 0 <= j < r ==> (#[trigger] links[j]).tournament_id@ != tid
        },
    decreases links.len(),
{
    if links.len() > 0 && links.first().tournament_id@ != tid {
        let d = links.drop_first();
        lemma_find_link_is_first(d, tid);
        assert(forall|j: int| 1 <= j < links.len() ==> #[trigger] links[j] == d[j - 1]);
        let rd = spec_find_link(d, tid);
        if rd == -1 {
            assert forall|j: int|
                0 <= j < links.len() implies (#[trigger] links[j]).tournament_id@ != tid by {
                if j > 0 {
                    assert(links[j] == d[j - 1]);
                }
            }
        } else {
            assert(links[rd + 1] == d[rd]);
            assert forall|j: int|
                0 <= j < rd + 1 implies (#[trigger] links[j]).tournament_id@ != tid by {
                if j > 0 {
                    assert(links[j] == d[j - 1]);
                }
            }
        }
    }
}

/// Finds the game link of a tournament.
fn find_link_index(links: &Vec<GameLink>, tid: &String) -> (r: Option<usize>)
    ensures
        r matches Some(i) ==> i == spec_find_link(links@, tid@),
        r is None ==> spec_find_link(links@, tid@) == -1,
{
    proof {
        lemma_find_link_is_first(links@, tid@);
    }
    let mut i: usize = 0;
    while i < links.len()
        invariant
            i <= links@.len(),
            forall|j: int| 0 <= j < i ==> (#[trigger] links@[j]).tournament_id@ != tid@,
        decreases links@.len() - i,
    {
        if string_eq(&links[i].tournament_id, tid) {
            proof {
                lemma_find_link_is_first(links@, tid@);
            }
            return Some(i);
        }
        i += 1;
    }
    proof {
        lemma_find_link_is_first(links@, tid@);
    }
    None
}

/// The price data derived from a pair of snapshots: one entry per start
/// snapshot whose asset has a nonzero price in both snapshots, carrying the
/// scaled truncated change.
pub open spec fn spec_build_pd(
    starts: Seq<PriceSnapshot>,
    ends: Seq<PriceSnapshot>,
) -> Seq<PriceData>
    decreases starts.len(),
{
    if starts.len() == 0 {
        Seq::empty()
    } else {
        let prefix = spec_build_pd(starts.drop_last(), ends);
        let snap = starts.last();
        let ep = crate::scoring::spec_price_of(ends, snap.crypto_id@);
        if snap.price_usd != 0 && ep != 0 {
            prefix.push(
                PriceData {
                    symbol: snap.crypto_id,
                    start_price: snap.price_usd,
                    end_price: ep,
                    percentage_change: spec_return_scaled(snap.price_usd, ep) as i128,
                },
            )
        } else {
            prefix
        }
    }
}

/// Builds the price data for a pair of snapshots.
pub fn build_price_data(starts: &Vec<PriceSnapshot>, ends: &Vec<PriceSnapshot>) -> (r: Vec<
    PriceData,
>)
    ensures
        r@ == spec_build_pd(starts@, ends@),
        spec_pd_bounded(r@),
{
    let mut out: Vec<PriceData> = Vec::new();
    let mut i: usize = 0;
    while i < starts.len()
        invariant
            i <= starts@.len(),
            out@ == spec_build_pd(starts@.take(i as int), ends@),
            spec_pd_bounded(out@),
        decreases starts@.len() - i,
    {
        proof {
            assert(starts@.take(i + 1).drop_last() =~= starts@.take(i as int));
            assert(starts@.take(i + 1).last() == starts@[i as int]);
        }
        let ep = crate::scoring::price_of(ends, &starts[i].crypto_id);
        if starts[i].price_usd != 0 && ep != 0 {
            let change = crate::scoring::return_scaled(starts[i].price_usd, ep);
            let ghost before = out@;
            out.push(
                PriceData {
                    symbol: starts[i].crypto_id.clone(),
                    start_price: starts[i].price_usd,
                    end_price: ep,
                    percentage_change: change,
                },
            );
            proof {
                assert(out@ =~= spec_build_pd(starts@.take(i + 1), ends@));
                assert forall|j: int|
                    0 <= j < out@.len() implies -spec_change_limit() <= (
                #[trigger] out@[j]).percentage_change <= spec_change_limit() by {
                    if j < out@.len() - 1 {
                        assert(out@[j] == before[j]);
                    }
                }
            }
        }
        i += 1;
    }
    proof {
        assert(starts@.take(starts@.len() as int) =~= starts@);
    }
    out
}

/// The submissions of one tournament round: for each participant with a
/// stored portfolio for the round, in registration order, the account paired
/// with the portfolio.
pub open spec fn spec_round_submissions(
    participants: Seq<Participation>,
    portfolios: Seq<RoundPortfolio>,
    tid: Seq<char>,
    round: u32,
) -> Seq<(String, TournamentPortfolio)>
    decreases participants.len(),
{
    if participants.len() == 0 {
        Seq::empty()
    } else {
        let prefix = spec_round_submissions(participants.drop_last(), portfolios, tid, round);
        let p = participants.last();
        let fi = spec_find_round_portfolio(portfolios, tid, round, p.account@);
        if p.tournament_id@ == tid && fi >= 0 {
            prefix.push((p.account, portfolios[fi].portfolio))
        } else {
            prefix
        }
    }
}

impl TraditionalLeaguesState {
    /// A fresh tournament engine. The counter starts at 1, matching
    /// instantiation.
    pub fn instantiate() -> (r: Self)
        ensures
            spec_league_wf(r),
            r.tournaments@.len() == 0,
            r.participants@.len() == 0,
            r.portfolios@.len() == 0,
            r.results@.len() == 0,
            r.tournament_counter == 1,
            r.game_links@.len() == 0,
    {
        TraditionalLeaguesState {
            tournaments: Vec::new(),
            participants: Vec::new(),
            portfolios: Vec::new(),
            results: Vec::new(),
            tournament_counter: 1,
            game_links: Vec::new(),
        }
    }

    /// Mints a fresh tournament identifier from the monotone counter. The
    /// counter saturates at its cap rather than reusing an identifier.
    pub fn generate_tournament_id(&mut self) -> (r: String)
        ensures
            r@ == spec_tournament_id_chars(old(self).tournament_counter as nat),
            old(self).tournament_counter < u64::MAX ==> final(self).tournament_counter == old(self).tournament_counter + 1,
            old(self).tournament_counter == u64::MAX ==> final(self).tournament_counter == old(self).tournament_counter,
            final(self).tournaments@ == old(self).tournaments@,
            final(self).participants@ == old(self).participants@,
            final(self).portfolios@ == old(self).portfolios@,
            final(self).results@ == old(self).results@,
            final(self).game_links@ == old(self).game_links@,
    {
        let mut s = String::from_str("trad-league-");
        let d = u64_to_dec(self.tournament_counter);
        s.append(d.as_str());
        if self.tournament_counter < u64::MAX {
            self.tournament_counter = self.tournament_counter + 1;
        }
        s
    }

    /// Adds a participant to the registration list if not already present;
    /// adding an existing participant is a no-op, not an error. This is the
    /// raw list step: it does not touch the tournament's stored count, so a
    /// caller that maintains the count-in-step invariant bumps the count in
    /// the same handler, as registration does.
    pub fn add_participant(&mut self, tournament_id: &String, player_account: String) -> (r:
        Result<(), String>)
        ensures
            r is Ok,
            spec_is_participant(old(self).participants@, tournament_id@, player_account@) ==> final(self).participants@ == old(self).participants@,
            !spec_is_participant(old(self).participants@, tournament_id@, player_account@)
                ==> final(self).participants@.len() == old(self).participants@.len() + 1 && final(self).participants@.drop_last() == old(self).participants@ && final(self).participants@.last().tournament_id@ == tournament_id@ && final(self).participants@.last().account@ == player_account@,
            final(self).tournaments@ == old(self).tournaments@,
            final(self).portfolios@ == old(self).portfolios@,
            final(self).results@ == old(self).results@,
            final(self).tournament_counter == old(self).tournament_counter,
            final(self).game_links@ == old(self).game_links@,
    {
        if !is_participant(&self.participants, tournament_id, &player_account) {
            let ghost before = self.participants@;
            self.participants.push(
                Participation { tournament_id: tournament_id.clone(), account: player_account },
            );
            proof {
                assert(self.participants@.drop_last() =~= before);
            }
        }
        Ok(())
    }

    /// Whether a tournament has reached its registration capacity. Unknown
    /// tournaments report an error.
    pub fn is_tournament_full(&self, tournament_id: &String) -> (r: Result<bool, String>)
        ensures
            r is Err <==> spec_find_tournament(self.tournaments@, tournament_id@) == -1,
            r matches Ok(full) ==> {
                let ti = spec_find_tournament(self.tournaments@, tournament_id@);
                full == (spec_participant_count(self.participants@, tournament_id@)
                    >= self.tournaments@[ti].max_participants)
            },
    {
        let ti = match find_tournament_index(&self.tournaments, tournament_id) {
            Some(i) => i,
            None => {
                return Err(String::from_str("tournament not found"));
            },
        };
        proof {
            lemma_find_tournament_is_first(self.tournaments@, tournament_id@);
        }
        let count = participant_count(&self.participants, tournament_id);
        Ok(count >= self.tournaments[ti].max_participants as usize)
    }

    /// Creates a tournament: validates the entry fee, mints a fresh
    /// identifier, and stores the tournament open for registration. An
    /// invalid fee changes nothing and reports the error identifier.
    pub fn create_tournament(
        &mut self,
        name: String,
        entry_fee_usdc: u64,
        max_participants: u32,
        tournament_type: TournamentType,
        category: String,
        now: u64,
    ) -> (r: TraditionalLeaguesResponse)
        requires
            spec_league_wf(*old(self)),
        ensures
            spec_league_wf(*final(self)),
            !(100_000 <= entry_fee_usdc <= 100_000_000 && old(self).tournament_counter < u64::MAX)
                ==> spec_same_league_state(*final(self), *old(self)) && (
            r matches TraditionalLeaguesResponse::TournamentCreated { tournament_id }
                && tournament_id@ == "error"@),
            100_000 <= entry_fee_usdc <= 100_000_000 && old(self).tournament_counter < u64::MAX
                ==> {
                &&& (r matches TraditionalLeaguesResponse::TournamentCreated { tournament_id }
                    && tournament_id@ == spec_tournament_id_chars(
                    old(self).tournament_counter as nat,
                ))
                &&& final(self).tournaments@.len() == old(self).tournaments@.len() + 1
                &&& final(self).tournaments@.drop_last() == old(self).tournaments@
                &&& final(self).tournaments@.last().id@ == spec_tournament_id_chars(
                    old(self).tournament_counter as nat,
                )
                &&& final(self).tournaments@.last().name == name
                &&& final(self).tournaments@.last().tournament_type == tournament_type
                &&& final(self).tournaments@.last().status is Registration
                &&& final(self).tournaments@.last().entry_fee_usdc == entry_fee_usdc
                &&& final(self).tournaments@.last().max_participants == max_participants
                &&& final(self).tournaments@.last().current_participants == 0
                &&& final(self).tournaments@.last().current_round == 0
                &&& final(self).tournaments@.last().max_rounds == spec_max_rounds(
                    tournament_type,
                    max_participants,
                )
                &&& final(self).tournaments@.last().created_at == now
                &&& final(self).tournaments@.last().started_at is None
                &&& final(self).tournaments@.last().completed_at is None
                &&& final(self).tournaments@.last().category == category
                &&& final(self).tournaments@.last().start_prices is None
                &&& final(self).tournaments@.last().end_prices is None
                &&& final(self).tournament_counter == old(self).tournament_counter + 1
                &&& final(self).participants@ == old(self).participants@
                &&& final(self).portfolios@ == old(self).portfolios@
                &&& final(self).results@ == old(self).results@
                &&& final(self).game_links@ == old(self).game_links@
            },
    {
        if validate_entry_fee(entry_fee_usdc).is_err() || self.tournament_counter == u64::MAX {
            return TraditionalLeaguesResponse::TournamentCreated {
                tournament_id: String::from_str("error"),
            };
        }
        let ghost counter0 = self.tournament_counter;
        let tournament_id = self.generate_tournament_id();
        let max_rounds = max_rounds_for(tournament_type, max_participants);
        let tournament = Tournament {
            id: tournament_id.clone(),
            name,
            tournament_type,
            status: TournamentStatus::Registration,
            entry_fee_usdc,
            max_participants,
            current_participants: 0,
            current_round: 0,
            max_rounds,
            created_at: now,
            started_at: None,
            completed_at: None,
            category,
            start_prices: None,
            end_prices: None,
        };
        let ghost before = self.tournaments@;
        self.tournaments.push(tournament);
        proof {
            assert(self.tournaments@.drop_last() =~= before);
            assert forall|i: int| 0 <= i < before.len() implies (#[trigger] before[i]).id@
                != spec_tournament_id_chars(counter0 as nat) by {
                if before[i].id@ == spec_tournament_id_chars(counter0 as nat) {
                    let k = choose|k: nat|
                        k < counter0 as nat && before[i].id@ == spec_tournament_id_chars(k);
                    lemma_tournament_id_injective(k, counter0 as nat);
                }
            }
            assert(spec_tid_minted(
                self.tournaments@.last().id@,
                self.tournament_counter as nat,
            )) by {
                assert((counter0 as nat) < (self.tournament_counter as nat));
            }
            assert forall|i: int|
                0 <= i < self.tournaments@.len() implies spec_tid_minted(
                (#[trigger] self.tournaments@[i]).id@,
                self.tournament_counter as nat,
            ) by {
                if i < self.tournaments@.len() - 1 {
                    assert(self.tournaments@[i] == before[i]);
                    let k = choose|k: nat|
                        k < counter0 as nat && before[i].id@ == spec_tournament_id_chars(k);
                    assert(k < self.tournament_counter as nat);
                }
            }
            assert forall|k: int|
                0 <= k < self.participants@.len() implies (
            #[trigger] self.participants@[k]).tournament_id@ != spec_tournament_id_chars(
                counter0 as nat,
            ) by {
                let fi = spec_find_tournament(before, self.participants@[k].tournament_id@);
                lemma_find_tournament_is_first(before, self.participants@[k].tournament_id@);
                assert(before[fi].id@ == self.participants@[k].tournament_id@);
            }
            lemma_participant_count_absent(
                self.participants@,
                spec_tournament_id_chars(counter0 as nat),
            );
            assert forall|i: int|
                0 <= i < self.tournaments@.len() implies (
            #[trigger] self.tournaments@[i]).current_participants == spec_participant_count(
                self.participants@,
                self.tournaments@[i].id@,
            ) && self.tournaments@[i].current_participants
                <= self.tournaments@[i].max_participants by {
                if i < self.tournaments@.len() - 1 {
                    assert(self.tournaments@[i] == before[i]);
                    assert(before[i].current_participants == spec_participant_count(
                        old(self).participants@,
                        before[i].id@,
                    ));
                }
            }
            assert forall|k: int|
                0 <= k < self.participants@.len() implies spec_find_tournament(
                self.tournaments@,
                (#[trigger] self.participants@[k]).tournament_id@,
            ) >= 0 by {
                assert(spec_find_tournament(
                    before,
                    old(self).participants@[k].tournament_id@,
                ) >= 0);
                assert(self.tournaments@ =~= before.push(self.tournaments@.last()));
                lemma_find_tournament_after_push(
                    before,
                    self.tournaments@.last(),
                    self.participants@[k].tournament_id@,
                );
            }
        }
        TraditionalLeaguesResponse::TournamentCreated { tournament_id }
    }

    /// Registers an account for a tournament.
    ///
    /// Registration succeeds exactly when the tournament is known, still
    /// open for registration, and either the account is already registered
    /// (an idempotent success that changes nothing) or capacity is left.
    /// A new registration grows the registration list by one and raises the
    /// tournament's participant count by one, so the count can never pass
    /// the capacity; once two participants are registered the tournament's
    /// first round starts automatically.
    pub fn register_for_tournament(
        &mut self,
        tournament_id: &String,
        player_account: String,
        now: u64,
    ) -> (r: TraditionalLeaguesResponse)
        requires
            spec_league_wf(*old(self)),
        ensures
            spec_league_wf(*final(self)),
            r is PlayerRegistered,
            r matches TraditionalLeaguesResponse::PlayerRegistered { success } ==> (success <==> ({
                let ti = spec_find_tournament(old(self).tournaments@, tournament_id@);
                &&& ti >= 0
                &&& old(self).tournaments@[ti].status is Registration
                &&& (spec_is_participant(old(self).participants@, tournament_id@, player_account@)
                    || spec_participant_count(old(self).participants@, tournament_id@) < old(self).tournaments@[ti].max_participants)
            })),
            r matches TraditionalLeaguesResponse::PlayerRegistered { success } && !success
                ==> spec_same_league_state(*final(self), *old(self)),
            r matches TraditionalLeaguesResponse::PlayerRegistered { success } ==> success ==> {
                let ti = spec_find_tournament(old(self).tournaments@, tournament_id@);
                let already = spec_is_participant(
                    old(self).participants@,
                    tournament_id@,
                    player_account@,
                );
                &&& (already ==> final(self).participants@ == old(self).participants@ && final(self).tournaments@ == old(self).tournaments@)
                &&& (!already ==> final(self).participants@.len() == old(self).participants@.len() + 1 && final(self).participants@.drop_last() == old(self).participants@ && final(self).participants@.last().tournament_id@
                    == tournament_id@ && final(self).participants@.last().account@
                    == player_account@)
                &&& (!already ==> spec_participant_count(final(self).participants@, tournament_id@)
                    == spec_participant_count(old(self).participants@, tournament_id@) + 1)
                &&& (!already ==> final(self).tournaments@ == old(self).tournaments@.update(
                    ti,
                    spec_registered_tournament(
                        old(self).tournaments@[ti],
                        now,
                        spec_participant_count(old(self).participants@, tournament_id@) + 1,
                    ),
                ))
                &&& final(self).portfolios@ == old(self).portfolios@
                &&& final(self).results@ == old(self).results@
                &&& final(self).tournament_counter == old(self).tournament_counter
                &&& final(self).game_links@ == old(self).game_links@
            },
    {
        let ti = match find_tournament_index(&self.tournaments, tournament_id) {
            Some(i) => i,
            None => {
                return TraditionalLeaguesResponse::PlayerRegistered { success: false };
            },
        };
        proof {
            lemma_find_tournament_is_first(self.tournaments@, tournament_id@);
        }
        if !matches!(self.tournaments[ti].status, TournamentStatus::Registration) {
            return TraditionalLeaguesResponse::PlayerRegistered { success: false };
        }
        let already = is_participant(&self.participants, tournament_id, &player_account);
        if already {
            return TraditionalLeaguesResponse::PlayerRegistered { success: true };
        }
        let count = participant_count(&self.participants, tournament_id);
        if count >= self.tournaments[ti].max_participants as usize {
            return TraditionalLeaguesResponse::PlayerRegistered { success: false };
        }
        let ghost pre = *old(self);
        let ghost before = self.participants@;
        let entry = Participation { tournament_id: tournament_id.clone(), account: player_account };
        proof {
            lemma_participant_count_push(before, entry, tournament_id@);
        }
        self.participants.push(entry);
        proof {
            assert(self.participants@.drop_last() =~= before);
            assert(self.participants@ =~= before.push(self.participants@.last()));
        }
        // The stored count mirrors the registration list, so capacity left
        // on the list means the count can be raised without overflow.
        let count_now = self.tournaments[ti].current_participants;
        proof {
            assert(count_now == spec_participant_count(before, tournament_id@));
            assert(count_now < self.tournaments@[ti as int].max_participants);
        }
        {
            let t = &mut self.tournaments[ti];
            t.current_participants = count_now + 1;
        }
        let new_count = participant_count(&self.participants, tournament_id);
        if new_count >= 2 && self.tournaments[ti].current_round == 0 {
            let t = &mut self.tournaments[ti];
            t.current_round = 1;
            t.status = TournamentStatus::InProgress;
            t.started_at = Some(now);
        }
        proof {
            let tid = tournament_id@;
            let new_t = spec_registered_tournament(
                pre.tournaments@[ti as int],
                now,
                spec_participant_count(pre.participants@, tid) + 1,
            );
            assert(self.tournaments@ =~= pre.tournaments@.update(ti as int, new_t));
            let ts = self.tournaments@;
            let og = pre.tournaments@;
            assert(forall|i: int|
                0 <= i < ts.len() ==> (#[trigger] ts[i]).id@ == og[i].id@ && ts[i].entry_fee_usdc
                    == og[i].entry_fee_usdc && ts[i].max_participants == og[i].max_participants);
            assert forall|i: int, j: int| 0 <= i < j < ts.len() implies (#[trigger] ts[i]).id@
                != (#[trigger] ts[j]).id@ by {
                assert(og[i].id@ != og[j].id@);
            }
            assert forall|i: int|
                0 <= i < ts.len() implies spec_tid_minted(
                (#[trigger] ts[i]).id@,
                self.tournament_counter as nat,
            ) by {
                assert(spec_tid_minted(og[i].id@, pre.tournament_counter as nat));
            }
            assert forall|i: int, j: int| 0 <= i < j < self.participants@.len() implies !((
            #[trigger] self.participants@[i]).tournament_id@ == (
            #[trigger] self.participants@[j]).tournament_id@ && self.participants@[i].account@
                == self.participants@[j].account@) by {
                if j < self.participants@.len() - 1 {
                    assert(self.participants@[i] == before[i] && self.participants@[j]
                        == before[j]);
                } else {
                    assert(self.participants@[i] == before[i]);
                }
            }
            assert forall|i: int|
                0 <= i < ts.len() implies (#[trigger] ts[i]).current_participants
                == spec_participant_count(self.participants@, ts[i].id@) && ts[i].current_participants
                <= ts[i].max_participants by {
                lemma_participant_count_push(before, self.participants@.last(), og[i].id@);
                assert(og[i].current_participants == spec_participant_count(before, og[i].id@));
                if i != ti as int {
                    assert(og[i].id@ != og[ti as int].id@);
                }
            }
            assert forall|k: int|
                0 <= k < self.participants@.len() implies spec_find_tournament(
                ts,
                (#[trigger] self.participants@[k]).tournament_id@,
            ) >= 0 by {
                if k < self.participants@.len() - 1 {
                    assert(spec_find_tournament(og, before[k].tournament_id@) >= 0);
                } else {
                    lemma_find_tournament_is_first(og, tid);
                }
                lemma_find_tournament_same_ids(ts, og, self.participants@[k].tournament_id@);
            }
        }
        TraditionalLeaguesResponse::PlayerRegistered { success: true }
    }

    /// Changing non-identifying fields of tournaments, with registrations and
    /// counts untouched, preserves well-formedness.
    proof fn lemma_tournaments_touch_keeps_wf(&self, og: Seq<Tournament>, pre: TraditionalLeaguesState)
        requires
            spec_league_wf(pre),
            og == pre.tournaments@,
            self.tournaments@.len() == og.len(),
            forall|i: int|
                0 <= i < og.len() ==> (#[trigger] self.tournaments@[i]).id@ == og[i].id@
                    && self.tournaments@[i].entry_fee_usdc == og[i].entry_fee_usdc
                    && self.tournaments@[i].current_participants == og[i].current_participants
                    && self.tournaments@[i].max_participants == og[i].max_participants,
            self.participants@ == pre.participants@,
            self.tournament_counter == pre.tournament_counter,
        ensures
            forall|i: int, j: int|
                0 <= i < j < self.tournaments@.len() ==> (#[trigger] self.tournaments@[i]).id@
                    != (#[trigger] self.tournaments@[j]).id@,
            forall|i: int|
                0 <= i < self.tournaments@.len() ==> spec_tid_minted(
                    (#[trigger] self.tournaments@[i]).id@,
                    self.tournament_counter as nat,
                ),
            forall|i: int|
                0 <= i < self.tournaments@.len() ==> 100_000 <= (
                #[trigger] self.tournaments@[i]).entry_fee_usdc <= 100_000_000,
            forall|i: int|
                0 <= i < self.tournaments@.len() ==> (
                #[trigger] self.tournaments@[i]).current_participants == spec_participant_count(
                    self.participants@,
                    self.tournaments@[i].id@,
                ) && self.tournaments@[i].current_participants
                    <= self.tournaments@[i].max_participants,
            forall|k: int|
                0 <= k < self.participants@.len() ==> spec_find_tournament(
                    self.tournaments@,
                    (#[trigger] self.participants@[k]).tournament_id@,
                ) >= 0,
    {
        assert forall|i: int, j: int| 0 <= i < j < self.tournaments@.len() implies (
        #[trigger] self.tournaments@[i]).id@ != (#[trigger] self.tournaments@[j]).id@ by {
            assert(og[i].id@ != og[j].id@);
        }
        assert forall|i: int|
            0 <= i < self.tournaments@.len() implies spec_tid_minted(
            (#[trigger] self.tournaments@[i]).id@,
            self.tournament_counter as nat,
        ) by {
            assert(spec_tid_minted(og[i].id@, pre.tournament_counter as nat));
        }
        assert forall|i: int|
            0 <= i < self.tournaments@.len() implies (
        #[trigger] self.tournaments@[i]).current_participants == spec_participant_count(
            self.participants@,
            self.tournaments@[i].id@,
        ) && self.tournaments@[i].current_participants
            <= self.tournaments@[i].max_participants by {
            assert(og[i].current_participants == spec_participant_count(
                pre.participants@,
                og[i].id@,
            ));
        }
        assert forall|k: int|
            0 <= k < self.participants@.len() implies spec_find_tournament(
            self.tournaments@,
            (#[trigger] self.participants@[k]).tournament_id@,
        ) >= 0 by {
            assert(spec_find_tournament(
                pre.tournaments@,
                pre.participants@[k].tournament_id@,
            ) >= 0);
            lemma_find_tournament_same_ids(
                self.tournaments@,
                pre.tournaments@,
                self.participants@[k].tournament_id@,
            );
        }
    }

    /// Submits a portfolio for a tournament round, replacing any prior
    /// submission from the same account for the same round. A portfolio with
    /// more than the capped number of picks is rejected before storage.
    pub fn submit_portfolio(
        &mut self,
        tournament_id: String,
        round: u32,
        portfolio: TournamentPortfolio,
        signer: String,
    ) -> (r: TraditionalLeaguesResponse)
        requires
            spec_league_wf(*old(self)),
        ensures
            spec_league_wf(*final(self)),
            r is PortfolioSubmitted,
            r matches TraditionalLeaguesResponse::PortfolioSubmitted { success } && !success
                ==> spec_same_league_state(*final(self), *old(self)) && portfolio.crypto_picks@.len()
                > 5,
            r matches TraditionalLeaguesResponse::PortfolioSubmitted { success } && success ==> {
                let fi = spec_find_round_portfolio(
                    old(self).portfolios@,
                    tournament_id@,
                    round,
                    signer@,
                );
                let ni = if fi >= 0 {
                    fi
                } else {
                    old(self).portfolios@.len() as int
                };
                &&& portfolio.crypto_picks@.len() <= 5
                &&& (fi >= 0 ==> final(self).portfolios@.len() == old(self).portfolios@.len() && (
                forall|j: int|
                    0 <= j < old(self).portfolios@.len() && j != fi ==> final(self).portfolios@[j]
                        == old(self).portfolios@[j]))
                &&& (fi == -1 ==> final(self).portfolios@.len() == old(self).portfolios@.len() + 1
                    && final(self).portfolios@.drop_last() == old(self).portfolios@)
                &&& final(self).portfolios@[ni].tournament_id@ == tournament_id@
                &&& final(self).portfolios@[ni].round == round
                &&& final(self).portfolios@[ni].account@ == signer@
                &&& final(self).portfolios@[ni].portfolio.crypto_picks@
                    == portfolio.crypto_picks@
                &&& final(self).tournaments@ == old(self).tournaments@
                &&& final(self).participants@ == old(self).participants@
                &&& final(self).results@ == old(self).results@
                &&& final(self).tournament_counter == old(self).tournament_counter
                &&& final(self).game_links@ == old(self).game_links@
            },
    {
        if portfolio.crypto_picks.len() > 5 {
            return TraditionalLeaguesResponse::PortfolioSubmitted { success: false };
        }
        let entry = RoundPortfolio {
            tournament_id: tournament_id.clone(),
            round,
            account: signer,
            portfolio,
        };
        let fi = find_round_portfolio(&self.portfolios, &tournament_id, round, &entry.account);
        let ghost before = self.portfolios@;
        match fi {
            Some(i) => {
                proof {
                    lemma_find_round_portfolio_is_first(
                        self.portfolios@,
                        tournament_id@,
                        round,
                        entry.account@,
                    );
                }
                let slot = &mut self.portfolios[i];
                *slot = entry;
                proof {
                    let ps = self.portfolios@;
                    assert forall|a: int, b: int| 0 <= a < b < ps.len() implies !((
                    #[trigger] ps[a]).tournament_id@ == (#[trigger] ps[b]).tournament_id@
                        && ps[a].round == ps[b].round && ps[a].account@ == ps[b].account@) by {
                        assert(ps[a].tournament_id@ == before[a].tournament_id@ && ps[a].round
                            == before[a].round && ps[a].account@ == before[a].account@);
                        assert(ps[b].tournament_id@ == before[b].tournament_id@ && ps[b].round
                            == before[b].round && ps[b].account@ == before[b].account@);
                    }
                }
            },
            None => {
                proof {
                    lemma_find_round_portfolio_is_first(
                        self.portfolios@,
                        tournament_id@,
                        round,
                        entry.account@,
                    );
                }
                self.portfolios.push(entry);
                proof {
                    let ps = self.portfolios@;
                    assert(ps.drop_last() =~= before);
                    assert forall|a: int, b: int| 0 <= a < b < ps.len() implies !((
                    #[trigger] ps[a]).tournament_id@ == (#[trigger] ps[b]).tournament_id@
                        && ps[a].round == ps[b].round && ps[a].account@ == ps[b].account@) by {
                        if b < ps.len() - 1 {
                            assert(ps[a] == before[a] && ps[b] == before[b]);
                        } else {
                            assert(ps[a] == before[a]);
                        }
                    }
                }
            },
        }
        TraditionalLeaguesResponse::PortfolioSubmitted { success: true }
    }

    /// Starts a tournament: records the start snapshot, advances the status
    /// to in-progress and stamps the start time. A tournament that already
    /// holds a start snapshot, or has completed or been cancelled, is left
    /// untouched: re-invocation with a different snapshot must not overwrite
    /// the recorded baseline.
    pub fn start_tournament(
        &mut self,
        tournament_id: &String,
        start_prices: Vec<PriceSnapshot>,
        now: u64,
    ) -> (r: TraditionalLeaguesResponse)
        requires
            spec_league_wf(*old(self)),
        ensures
            spec_league_wf(*final(self)),
            r is TournamentStarted,
            r matches TraditionalLeaguesResponse::TournamentStarted { success, .. } && !success
                ==> spec_same_league_state(*final(self), *old(self)),
            r matches TraditionalLeaguesResponse::TournamentStarted { success, .. } ==> (success
                <==> ({
                let ti = spec_find_tournament(old(self).tournaments@, tournament_id@);
                &&& ti >= 0
                &&& old(self).tournaments@[ti].start_prices is None
                &&& !(old(self).tournaments@[ti].status is Completed)
                &&& !(old(self).tournaments@[ti].status is Cancelled)
            })),
            r matches TraditionalLeaguesResponse::TournamentStarted { success, timestamp } ==> success ==> {
                let ti = spec_find_tournament(old(self).tournaments@, tournament_id@);
                &&& ti >= 0
                &&& timestamp == now
                &&& old(self).tournaments@[ti].start_prices is None
                &&& !(old(self).tournaments@[ti].status is Completed)
                &&& !(old(self).tournaments@[ti].status is Cancelled)
                &&& final(self).tournaments@.len() == old(self).tournaments@.len()
                &&& (forall|j: int|
                    0 <= j < old(self).tournaments@.len() && j != ti ==> final(self).tournaments@[j] == old(self).tournaments@[j])
                &&& final(self).tournaments@[ti].status is InProgress
                &&& final(self).tournaments@[ti].started_at == Some(now)
                &&& (final(self).tournaments@[ti].start_prices matches Some(v) && v@
                    == start_prices@)
                &&& final(self).tournaments@[ti].id@ == old(self).tournaments@[ti].id@
                &&& final(self).tournaments@[ti].entry_fee_usdc == old(self).tournaments@[ti].entry_fee_usdc
                &&& final(self).tournaments@[ti].current_round == old(self).tournaments@[ti].current_round
                &&& final(self).tournaments@[ti].current_participants == old(self).tournaments@[ti].current_participants
                &&& final(self).participants@ == old(self).participants@
                &&& final(self).portfolios@ == old(self).portfolios@
                &&& final(self).results@ == old(self).results@
                &&& final(self).tournament_counter == old(self).tournament_counter
                &&& final(self).game_links@ == old(self).game_links@
            },
    {
        let ti = match find_tournament_index(&self.tournaments, tournament_id) {
            Some(i) => i,
            None => {
                return TraditionalLeaguesResponse::TournamentStarted {
                    success: false,
                    timestamp: 0,
                };
            },
        };
        proof {
            lemma_find_tournament_is_first(self.tournaments@, tournament_id@);
        }
        if self.tournaments[ti].start_prices.is_some() || matches!(
            self.tournaments[ti].status,
            TournamentStatus::Completed,
        ) || matches!(self.tournaments[ti].status, TournamentStatus::Cancelled) {
            return TraditionalLeaguesResponse::TournamentStarted { success: false, timestamp: 0 };
        }
        {
            let t = &mut self.tournaments[ti];
            t.status = TournamentStatus::InProgress;
            t.started_at = Some(now);
            t.start_prices = Some(start_prices);
        }
        proof {
            self.lemma_tournaments_touch_keeps_wf(old(self).tournaments@, *old(self));
        }
        TraditionalLeaguesResponse::TournamentStarted { success: true, timestamp: now }
    }

    /// Advances a tournament to its next round; reaching round one marks the
    /// tournament in progress and stamps the start time.
    pub fn advance_round(&mut self, tournament_id: &String, now: u64) -> (r:
        TraditionalLeaguesResponse)
        requires
            spec_league_wf(*old(self)),
        ensures
            spec_league_wf(*final(self)),
            r is RoundAdvanced,
            r matches TraditionalLeaguesResponse::RoundAdvanced { new_round } ==> new_round == 0
                ==> spec_same_league_state(*final(self), *old(self)) && ({
                let ti = spec_find_tournament(old(self).tournaments@, tournament_id@);
                ti == -1 || old(self).tournaments@[ti].current_round == u32::MAX
            }),
            r matches TraditionalLeaguesResponse::RoundAdvanced { new_round } ==> new_round > 0
                ==> {
                let ti = spec_find_tournament(old(self).tournaments@, tournament_id@);
                &&& ti >= 0
                &&& old(self).tournaments@[ti].current_round < u32::MAX
                &&& new_round == old(self).tournaments@[ti].current_round + 1
                &&& final(self).tournaments@.len() == old(self).tournaments@.len()
                &&& (forall|j: int|
                    0 <= j < old(self).tournaments@.len() && j != ti ==> final(self).tournaments@[j] == old(self).tournaments@[j])
                &&& final(self).tournaments@[ti].current_round == new_round
                &&& (new_round == 1 ==> final(self).tournaments@[ti].status is InProgress && final(self).tournaments@[ti].started_at == Some(now))
                &&& (new_round != 1 ==> final(self).tournaments@[ti].status == old(self).tournaments@[ti].status && final(self).tournaments@[ti].started_at == old(self).tournaments@[ti].started_at)
                &&& final(self).tournaments@[ti].id@ == old(self).tournaments@[ti].id@
                &&& final(self).participants@ == old(self).participants@
                &&& final(self).portfolios@ == old(self).portfolios@
                &&& final(self).results@ == old(self).results@
                &&& final(self).tournament_counter == old(self).tournament_counter
                &&& final(self).game_links@ == old(self).game_links@
            },
    {
        let ti = match find_tournament_index(&self.tournaments, tournament_id) {
            Some(i) => i,
            None => {
                return TraditionalLeaguesResponse::RoundAdvanced { new_round: 0 };
            },
        };
        proof {
            lemma_find_tournament_is_first(self.tournaments@, tournament_id@);
        }
        let round_now = self.tournaments[ti].current_round;
        if round_now == u32::MAX {
            return TraditionalLeaguesResponse::RoundAdvanced { new_round: 0 };
        }
        let new_round = round_now + 1;
        {
            let t = &mut self.tournaments[ti];
            t.current_round = new_round;
            if new_round == 1 {
                t.status = TournamentStatus::InProgress;
                t.started_at = Some(now);
            }
        }
        proof {
            self.lemma_tournaments_touch_keeps_wf(old(self).tournaments@, *old(self));
        }
        TraditionalLeaguesResponse::RoundAdvanced { new_round }
    }
}


/// Gathers the submissions of a tournament's current round: each registered
/// participant's stored portfolio, in registration order.
fn gather_round_submissions(
    participants: &Vec<Participation>,
    portfolios: &Vec<RoundPortfolio>,
    tid: &String,
    round: u32,
) -> (r: Vec<(String, TournamentPortfolio)>)
    requires
        forall|i: int|
            0 <= i < portfolios@.len() ==> (
            #[trigger] portfolios@[i]).portfolio.crypto_picks@.len() <= 5,
    ensures
        ({
            let subs = spec_round_submissions(participants@, portfolios@, tid@, round);
            &&& r@.len() == subs.len()
            &&& forall|k: int|
                0 <= k < r@.len() ==> (#[trigger] r@[k]).0 == subs[k].0
                    && r@[k].1.crypto_picks@ == subs[k].1.crypto_picks@
            &&& forall|k: int| 0 <= k < r@.len() ==> (#[trigger] r@[k]).1.crypto_picks@.len() <= 5
        }),
{
    let ghost subs = spec_round_submissions(participants@, portfolios@, tid@, round);
    let mut out: Vec<(String, TournamentPortfolio)> = Vec::new();
    let mut i: usize = 0;
    while i < participants.len()
        invariant
            i <= participants@.len(),
            forall|x: int|
                0 <= x < portfolios@.len() ==> (
                #[trigger] portfolios@[x]).portfolio.crypto_picks@.len() <= 5,
            ({
                let prefix = spec_round_submissions(
                    participants@.take(i as int),
                    portfolios@,
                    tid@,
                    round,
                );
                &&& out@.len() == prefix.len()
                &&& forall|k: int|
                    0 <= k < out@.len() ==> (#[trigger] out@[k]).0 == prefix[k].0
                        && out@[k].1.crypto_picks@ == prefix[k].1.crypto_picks@
                &&& forall|k: int|
                    0 <= k < out@.len() ==> (#[trigger] out@[k]).1.crypto_picks@.len() <= 5
            }),
        decreases participants@.len() - i,
    {
        proof {
            assert(participants@.take(i + 1).drop_last() =~= participants@.take(i as int));
            assert(participants@.take(i + 1).last() == participants@[i as int]);
        }
        if string_eq(&participants[i].tournament_id, tid) {
            match find_round_portfolio(portfolios, tid, round, &participants[i].account) {
                Some(pi) => {
                    proof {
                        lemma_find_round_portfolio_is_first(
                            portfolios@,
                            tid@,
                            round,
                            participants@[i as int].account@,
                        );
                    }
                    out.push(
                        (participants[i].account.clone(), portfolios[pi].portfolio.duplicate()),
                    );
                },
                None => {},
            }
        }
        i += 1;
    }
    proof {
        assert(participants@.take(participants@.len() as int) =~= participants@);
    }
    out
}

/// Whether the tournament at an index can settle: it is in progress, holds
/// both snapshots, and its current round has at least one submission (and
/// not more than a rank can number).
pub open spec fn spec_league_settleable(s: TraditionalLeaguesState, ti: int) -> bool {
    let t = s.tournaments@[ti];
    &&& 0 <= ti < s.tournaments@.len()
    &&& t.status is InProgress
    &&& t.start_prices is Some
    &&& t.end_prices is Some
    &&& 1 <= spec_round_submissions(s.participants@, s.portfolios@, t.id@, t.current_round).len()
        <= 0xffff_fffe
}

/// What a successful tournament settlement does, relating the state before
/// to the state after through the ranked entries: the current round's
/// submissions are scored against the recorded start snapshot and the given
/// end snapshot, ranked descending by score with ties in registration order,
/// the top finishers are recorded as the tournament's result, the end
/// snapshot and completion time are stored, the status advances to
/// completed, and, when the tournament backs a hub contest, one completion
/// notification carrying the winners and the prize pool is queued. Nothing
/// else changes.
pub open spec fn spec_league_settlement(
    pre: TraditionalLeaguesState,
    post: TraditionalLeaguesState,
    ti: int,
    ends: Seq<PriceSnapshot>,
    now: u64,
    ranked: Seq<ScoreEntry>,
    winners: Seq<String>,
    msgs: Seq<Envelope<TraditionalLeaguesMessage>>,
) -> bool {
    let t = pre.tournaments@[ti];
    let starts = t.start_prices->Some_0;
    let pd = spec_build_pd(starts@, ends);
    let subs = spec_round_submissions(pre.participants@, pre.portfolios@, t.id@, t.current_round);
    let pool = (t.entry_fee_usdc * t.current_participants) as u64;
    let li = spec_find_link(pre.game_links@, t.id@);
    &&& 0 <= ti < pre.tournaments@.len()
    &&& t.status is InProgress
    &&& t.start_prices is Some
    &&& 1 <= subs.len() <= u32::MAX - 1
    &&& ranked.to_multiset() == spec_scored_entries(subs, pd).to_multiset()
    &&& ranked.len() == subs.len()
    &&& crate::ranking::spec_ranked(ranked)
    &&& winners.len() == (if ranked.len() < 3 {
        ranked.len() as int
    } else {
        3
    })
    &&& (forall|k: int| 0 <= k < winners.len() ==> winners[k] == ranked[k].account)
    &&& post.tournaments@.len() == pre.tournaments@.len()
    &&& (forall|j: int|
        0 <= j < pre.tournaments@.len() && j != ti ==> post.tournaments@[j]
            == pre.tournaments@[j])
    &&& post.tournaments@[ti].status is Completed
    &&& post.tournaments@[ti].completed_at == Some(now)
    &&& (post.tournaments@[ti].end_prices matches Some(v) && v@ == ends)
    &&& post.tournaments@[ti].id@ == t.id@
    &&& post.tournaments@[ti].entry_fee_usdc == t.entry_fee_usdc
    &&& post.tournaments@[ti].current_round == t.current_round
    &&& post.tournaments@[ti].current_participants == t.current_participants
    &&& post.tournaments@[ti].started_at == t.started_at
    &&& post.tournaments@[ti].start_prices == t.start_prices
    &&& post.results@.len() == pre.results@.len() + 1
    &&& post.results@.drop_last() == pre.results@
    &&& post.results@.last().tournament_id@ == t.id@
    &&& post.results@.last().winners@ == winners
    &&& post.participants@ == pre.participants@
    &&& post.portfolios@ == pre.portfolios@
    &&& post.tournament_counter == pre.tournament_counter
    &&& post.game_links@ == pre.game_links@
    &&& (li >= 0 ==> msgs.len() == 1 && msgs[0].destination@ == pre.game_links@[li].origin@ && (
    msgs[0].payload matches TraditionalLeaguesMessage::TournamentCompleted {
        game_id,
        tournament_id,
        winners: w,
        total_prize_pool,
    } && game_id@ == pre.game_links@[li].game_id@ && tournament_id@ == t.id@ && w@ == winners
        && total_prize_pool == pool))
    &&& (li == -1 ==> msgs.len() == 0)
}

/// Whether some ranking witnesses a settlement between two states.
pub open spec fn spec_settled_outcome(
    pre: TraditionalLeaguesState,
    post: TraditionalLeaguesState,
    ti: int,
    ends: Seq<PriceSnapshot>,
    now: u64,
    winners: Seq<String>,
    msgs: Seq<Envelope<TraditionalLeaguesMessage>>,
) -> bool {
    exists|ranked: Seq<ScoreEntry>|
        spec_league_settlement(pre, post, ti, ends, now, ranked, winners, msgs)
}

impl TraditionalLeaguesState {
    /// Settles the tournament at an index against its stored snapshots.
    /// Returns nothing, changing nothing, when a precondition fails: the
    /// status must be in progress, both snapshots must be recorded, and the
    /// current round must have at least one submission.
    #[verifier::rlimit(100)]
    fn settle_at(&mut self, ti: usize, now: u64) -> (r: Option<
        (Vec<String>, Vec<Envelope<TraditionalLeaguesMessage>>),
    >)
        requires
            spec_league_wf(*old(self)),
            ti < old(self).tournaments@.len(),
        ensures
            spec_league_wf(*final(self)),
            r is None ==> spec_same_league_state(*final(self), *old(self)),
            r is Some <==> spec_league_settleable(*old(self), ti as int),
            r matches Some(out) ==> spec_settled_outcome(
                *old(self),
                *final(self),
                ti as int,
                old(self).tournaments@[ti as int].end_prices->Some_0@,
                now,
                out.0@,
                out.1@,
            ),
    {
        if !matches!(self.tournaments[ti].status, TournamentStatus::InProgress) {
            return None;
        }
        let ghost starts_view: Seq<PriceSnapshot>;
        let ghost ends_view: Seq<PriceSnapshot>;
        let pd: Vec<PriceData>;
        {
            let starts = match &self.tournaments[ti].start_prices {
                Some(s) => s,
                None => {
                    return None;
                },
            };
            let ends = match &self.tournaments[ti].end_prices {
                Some(e) => e,
                None => {
                    return None;
                },
            };
            proof {
                starts_view = starts@;
                ends_view = ends@;
            }
            pd = build_price_data(starts, ends);
        }
        let tid = self.tournaments[ti].id.clone();
        let round = self.tournaments[ti].current_round;
        let subs = gather_round_submissions(&self.participants, &self.portfolios, &tid, round);
        let ghost subs_spec = spec_round_submissions(
            self.participants@,
            self.portfolios@,
            self.tournaments@[ti as int].id@,
            round,
        );
        proof {
            assert(tid@ == self.tournaments@[ti as int].id@);
            assert(subs@.len() == subs_spec.len());
        }
        if subs.len() == 0 {
            return None;
        }
        if subs.len() > 0xffff_fffe {
            return None;
        }
        let fee = self.tournaments[ti].entry_fee_usdc;
        let parts = self.tournaments[ti].current_participants;
        proof {
            assert(fee * (parts as u64) <= 100_000_000 * 0xffff_ffffu64) by (nonlinear_arith)
                requires
                    fee <= 100_000_000,
                    parts <= 0xffff_ffffu64,
            ;
        }
        let pool = fee * (parts as u64);
        let ghost subs_view = subs@;
        let lb = ScoringEngine::calculate_leaderboard(subs, &pd, pool);
        proof {
            assert(spec_scored_entries(subs_view, pd@) =~= spec_scored_entries(subs_spec, pd@))
                by {
                assert forall|k: int|
                    0 <= k < subs_view.len() implies #[trigger] spec_scored_entries(
                    subs_view,
                    pd@,
                )[k] == spec_scored_entries(subs_spec, pd@)[k] by {
                    assert(subs_view[k].0 == subs_spec[k].0);
                    assert(subs_view[k].1.crypto_picks@ == subs_spec[k].1.crypto_picks@);
                }
            }
        }
        let mut winners: Vec<String> = Vec::new();
        winners.push(lb[0].player_account.clone());
        if lb.len() > 1 {
            winners.push(lb[1].player_account.clone());
        }
        if lb.len() > 2 {
            winners.push(lb[2].player_account.clone());
        }
        let ghost results_before = self.results@;
        let mut result_winners: Vec<String> = Vec::new();
        let mut wi: usize = 0;
        while wi < winners.len()
            invariant
                wi <= winners@.len(),
                result_winners@ =~= winners@.take(wi as int),
            decreases winners@.len() - wi,
        {
            result_winners.push(winners[wi].clone());
            proof {
                assert(result_winners@ =~= winners@.take(wi + 1));
            }
            wi += 1;
        }
        proof {
            assert(winners@.take(winners@.len() as int) =~= winners@);
            assert(result_winners@ =~= winners@);
        }
        self.results.push(TournamentResult { tournament_id: tid.clone(), winners: result_winners });
        proof {
            assert(self.results@.drop_last() =~= results_before);
        }
        {
            let t = &mut self.tournaments[ti];
            t.status = TournamentStatus::Completed;
            t.completed_at = Some(now);
        }
        proof {
            self.lemma_tournaments_touch_keeps_wf(old(self).tournaments@, *old(self));
        }
        let mut msgs: Vec<Envelope<TraditionalLeaguesMessage>> = Vec::new();
        match find_link_index(&self.game_links, &tid) {
            Some(li) => {
                proof {
                    lemma_find_link_is_first(self.game_links@, tid@);
                }
                let mut msg_winners: Vec<String> = Vec::new();
                let mut wj: usize = 0;
                while wj < winners.len()
                    invariant
                        wj <= winners@.len(),
                        msg_winners@ =~= winners@.take(wj as int),
                    decreases winners@.len() - wj,
                {
                    msg_winners.push(winners[wj].clone());
                    proof {
                        assert(msg_winners@ =~= winners@.take(wj + 1));
                    }
                    wj += 1;
                }
                proof {
                    assert(winners@.take(winners@.len() as int) =~= winners@);
                    assert(msg_winners@ =~= winners@);
                }
                msgs.push(
                    Envelope {
                        destination: self.game_links[li].origin.clone(),
                        payload: TraditionalLeaguesMessage::TournamentCompleted {
                            game_id: self.game_links[li].game_id.clone(),
                            tournament_id: tid,
                            winners: msg_winners,
                            total_prize_pool: pool,
                        },
                    },
                );
            },
            None => {},
        }
        proof {
            let scored = spec_scored_entries(subs_view, pd@);
            let ranked = choose|ranked: Seq<ScoreEntry>|
                {
                    &&& ranked.to_multiset() == scored.to_multiset()
                    &&& crate::ranking::spec_ranked(ranked)
                    &&& ranked.len() == lb@.len()
                    &&& forall|k: int|
                        0 <= k < lb@.len() ==> (#[trigger] lb@[k]).player_account
                            == ranked[k].account && lb@[k].total_return == ranked[k].score
                };
            assert(ends_view == old(self).tournaments@[ti as int].end_prices->Some_0@);
            assert(spec_league_settlement(
                *old(self),
                *self,
                ti as int,
                old(self).tournaments@[ti as int].end_prices->Some_0@,
                now,
                ranked,
                winners@,
                msgs@,
            )) by {
                assert(ranked.to_multiset() == spec_scored_entries(subs_spec, pd@).to_multiset());
                assert(winners@.len() == (if ranked.len() < 3 {
                    ranked.len() as int
                } else {
                    3
                }));
            }
            assert(spec_settled_outcome(
                *old(self),
                *self,
                ti as int,
                old(self).tournaments@[ti as int].end_prices->Some_0@,
                now,
                winners@,
                msgs@,
            ));
        }
        Some((winners, msgs))
    }

    /// Ends a tournament against a final price snapshot and settles it.
    ///
    /// The tournament must be in progress with a recorded start snapshot and
    /// at least one submission for the current round; any precondition
    /// failure leaves the state untouched and reports failure, so settlement
    /// can be retried once the precondition is met.
    pub fn end_tournament(
        &mut self,
        tournament_id: &String,
        end_prices: Vec<PriceSnapshot>,
        now: u64,
    ) -> (r: (TraditionalLeaguesResponse, Vec<Envelope<TraditionalLeaguesMessage>>))
        requires
            spec_league_wf(*old(self)),
        ensures
            spec_league_wf(*final(self)),
            r.0 is TournamentEnded,
            r.0 matches TraditionalLeaguesResponse::TournamentEnded { success, .. } ==> !success
                ==> spec_same_league_state(*final(self), *old(self)) && r.1@.len() == 0,
            r.0 matches TraditionalLeaguesResponse::TournamentEnded { success, .. } ==> (success
                <==> ({
                let ti = spec_find_tournament(old(self).tournaments@, tournament_id@);
                &&& ti >= 0
                &&& old(self).tournaments@[ti].status is InProgress
                &&& old(self).tournaments@[ti].start_prices is Some
                &&& 1 <= spec_round_submissions(
                    old(self).participants@,
                    old(self).portfolios@,
                    old(self).tournaments@[ti].id@,
                    old(self).tournaments@[ti].current_round,
                ).len() <= 0xffff_fffe
            })),
            r.0 matches TraditionalLeaguesResponse::TournamentEnded { success, winners }
                ==> success ==> spec_settled_outcome(
                *old(self),
                *final(self),
                spec_find_tournament(old(self).tournaments@, tournament_id@),
                end_prices@,
                now,
                winners@,
                r.1@,
            ),
    {
        let ti = match find_tournament_index(&self.tournaments, tournament_id) {
            Some(i) => i,
            None => {
                return (
                    TraditionalLeaguesResponse::TournamentEnded {
                        success: false,
                        winners: Vec::new(),
                    },
                    Vec::new(),
                );
            },
        };
        proof {
            lemma_find_tournament_is_first(self.tournaments@, tournament_id@);
        }
        if !matches!(self.tournaments[ti].status, TournamentStatus::InProgress)
            || self.tournaments[ti].start_prices.is_none() {
            return (
                TraditionalLeaguesResponse::TournamentEnded {
                    success: false,
                    winners: Vec::new(),
                },
                Vec::new(),
            );
        }
        let tid_check = self.tournaments[ti].id.clone();
        let round_check = self.tournaments[ti].current_round;
        let subs_check = gather_round_submissions(
            &self.participants,
            &self.portfolios,
            &tid_check,
            round_check,
        );
        if subs_check.len() == 0 || subs_check.len() > 0xffff_fffe {
            return (
                TraditionalLeaguesResponse::TournamentEnded {
                    success: false,
                    winners: Vec::new(),
                },
                Vec::new(),
            );
        }
        let ghost pre = *old(self);
        {
            let t = &mut self.tournaments[ti];
            t.end_prices = Some(end_prices);
        }
        proof {
            self.lemma_tournaments_touch_keeps_wf(old(self).tournaments@, *old(self));
        }
        let ghost mid = *self;
        match self.settle_at(ti, now) {
            Some((winners, msgs)) => {
                proof {
                    let ranked = choose|ranked: Seq<ScoreEntry>|
                        spec_league_settlement(
                            mid,
                            *self,
                            ti as int,
                            mid.tournaments@[ti as int].end_prices->Some_0@,
                            now,
                            ranked,
                            winners@,
                            msgs@,
                        );
                    assert(mid.tournaments@[ti as int].end_prices->Some_0@ == end_prices@);
                    assert(spec_round_submissions(
                        mid.participants@,
                        mid.portfolios@,
                        mid.tournaments@[ti as int].id@,
                        mid.tournaments@[ti as int].current_round,
                    ) == spec_round_submissions(
                        pre.participants@,
                        pre.portfolios@,
                        pre.tournaments@[ti as int].id@,
                        pre.tournaments@[ti as int].current_round,
                    ));
                    assert(spec_league_settlement(
                        pre,
                        *self,
                        ti as int,
                        end_prices@,
                        now,
                        ranked,
                        winners@,
                        msgs@,
                    ));
                    assert(spec_settled_outcome(
                        pre,
                        *self,
                        ti as int,
                        end_prices@,
                        now,
                        winners@,
                        msgs@,
                    ));
                }
                (TraditionalLeaguesResponse::TournamentEnded { success: true, winners }, msgs)
            },
            None => {
                // Unreachable: the checks above established every settlement
                // precondition before the end snapshot was stored.
                proof {
                    assert(spec_round_submissions(
                        mid.participants@,
                        mid.portfolios@,
                        mid.tournaments@[ti as int].id@,
                        mid.tournaments@[ti as int].current_round,
                    ) == spec_round_submissions(
                        pre.participants@,
                        pre.portfolios@,
                        pre.tournaments@[ti as int].id@,
                        pre.tournaments@[ti as int].current_round,
                    ));
                    assert(false);
                }
                (
                    TraditionalLeaguesResponse::TournamentEnded {
                        success: false,
                        winners: Vec::new(),
                    },
                    Vec::new(),
                )
            },
        }
    }

    /// Completes a tournament whose running time has elapsed: the tournament
    /// must be in progress, must have been started at least the tournament
    /// duration ago, and must hold both snapshots and at least one
    /// submission. Anything else changes nothing and reports no winners.
    pub fn complete_tournament(&mut self, tournament_id: &String, now: u64) -> (r: (
        TraditionalLeaguesResponse,
        Vec<Envelope<TraditionalLeaguesMessage>>,
    ))
        requires
            spec_league_wf(*old(self)),
        ensures
            spec_league_wf(*final(self)),
            r.0 is TournamentCompleted,
            r.0 matches TraditionalLeaguesResponse::TournamentCompleted { winners }
                ==> winners@.len() == 0 ==> spec_same_league_state(*final(self), *old(self))
                && r.1@.len() == 0,
            r.0 matches TraditionalLeaguesResponse::TournamentCompleted { winners } ==> (
            winners@.len() > 0 <==> ({
                let ti = spec_find_tournament(old(self).tournaments@, tournament_id@);
                &&& ti >= 0
                &&& (old(self).tournaments@[ti].started_at matches Some(st) && now >= st
                    + TOURNAMENT_DURATION_MICROS)
                &&& spec_league_settleable(*old(self), ti)
            })),
            r.0 matches TraditionalLeaguesResponse::TournamentCompleted { winners }
                ==> winners@.len() > 0 ==> ({
                let ti = spec_find_tournament(old(self).tournaments@, tournament_id@);
                &&& ti >= 0
                &&& (old(self).tournaments@[ti].started_at matches Some(st) && now >= st
                    + TOURNAMENT_DURATION_MICROS)
                &&& spec_settled_outcome(
                    *old(self),
                    *final(self),
                    ti,
                    old(self).tournaments@[ti].end_prices->Some_0@,
                    now,
                    winners@,
                    r.1@,
                )
            }),
    {
        let ti = match find_tournament_index(&self.tournaments, tournament_id) {
            Some(i) => i,
            None => {
                return (
                    TraditionalLeaguesResponse::TournamentCompleted { winners: Vec::new() },
                    Vec::new(),
                );
            },
        };
        proof {
            lemma_find_tournament_is_first(self.tournaments@, tournament_id@);
        }
        let elapsed = match self.tournaments[ti].started_at {
            Some(st) => st <= u64::MAX - TOURNAMENT_DURATION_MICROS && now >= st
                + TOURNAMENT_DURATION_MICROS,
            None => false,
        };
        if !elapsed {
            return (
                TraditionalLeaguesResponse::TournamentCompleted { winners: Vec::new() },
                Vec::new(),
            );
        }
        match self.settle_at(ti, now) {
            Some((winners, msgs)) => {
                proof {
                    let ranked = choose|ranked: Seq<ScoreEntry>|
                        spec_league_settlement(
                            *old(self),
                            *self,
                            ti as int,
                            old(self).tournaments@[ti as int].end_prices->Some_0@,
                            now,
                            ranked,
                            winners@,
                            msgs@,
                        );
                    assert(winners@.len() > 0);
                }
                (TraditionalLeaguesResponse::TournamentCompleted { winners }, msgs)
            },
            None => {
                (
                    TraditionalLeaguesResponse::TournamentCompleted { winners: Vec::new() },
                    Vec::new(),
                )
            },
        }
    }
}


/// What a successful registration does: an already registered account
/// changes nothing; a new account is appended to the registration list and
/// its tournament's record takes the registered transition (count raised by
/// one, first round auto-started at two participants). Nothing else changes.
pub open spec fn spec_registration_effect(
    pre: TraditionalLeaguesState,
    post: TraditionalLeaguesState,
    tid: Seq<char>,
    account: Seq<char>,
    now: u64,
) -> bool {
    let ti = spec_find_tournament(pre.tournaments@, tid);
    let already = spec_is_participant(pre.participants@, tid, account);
    &&& (already ==> post.participants@ == pre.participants@ && post.tournaments@
        == pre.tournaments@)
    &&& (!already ==> post.participants@.len() == pre.participants@.len() + 1
        && post.participants@.drop_last() == pre.participants@
        && post.participants@.last().tournament_id@ == tid && post.participants@.last().account@
        == account && spec_participant_count(post.participants@, tid) == spec_participant_count(
        pre.participants@,
        tid,
    ) + 1 && post.tournaments@ == pre.tournaments@.update(
        ti,
        spec_registered_tournament(
            pre.tournaments@[ti],
            now,
            spec_participant_count(pre.participants@, tid) + 1,
        ),
    ))
    &&& post.portfolios@ == pre.portfolios@
    &&& post.results@ == pre.results@
    &&& post.tournament_counter == pre.tournament_counter
    &&& post.game_links@ == pre.game_links@
}

/// What a successful start does: the start snapshot is recorded, the status
/// advances to in progress and the start time is stamped; every other field
/// of the tournament, every other tournament, and everything else the engine
/// stores is untouched.
pub open spec fn spec_league_start_effect(
    pre: TraditionalLeaguesState,
    post: TraditionalLeaguesState,
    tid: Seq<char>,
    snaps: Seq<PriceSnapshot>,
    now: u64,
) -> bool {
    let ti = spec_find_tournament(pre.tournaments@, tid);
    &&& post.tournaments@.len() == pre.tournaments@.len()
    &&& (forall|j: int|
        0 <= j < pre.tournaments@.len() && j != ti ==> post.tournaments@[j]
            == pre.tournaments@[j])
    &&& post.tournaments@[ti].status is InProgress
    &&& post.tournaments@[ti].started_at == Some(now)
    &&& (post.tournaments@[ti].start_prices matches Some(v) && v@ == snaps)
    &&& post.tournaments@[ti].id@ == pre.tournaments@[ti].id@
    &&& post.tournaments@[ti].entry_fee_usdc == pre.tournaments@[ti].entry_fee_usdc
    &&& post.tournaments@[ti].current_round == pre.tournaments@[ti].current_round
    &&& post.tournaments@[ti].current_participants == pre.tournaments@[ti].current_participants
    &&& post.participants@ == pre.participants@
    &&& post.portfolios@ == pre.portfolios@
    &&& post.results@ == pre.results@
    &&& post.tournament_counter == pre.tournament_counter
    &&& post.game_links@ == pre.game_links@
}

/// What a successful portfolio submission does: the account's portfolio for
/// the round is stored, replacing any prior one in place; nothing else
/// changes.
pub open spec fn spec_league_submit_effect(
    pre: TraditionalLeaguesState,
    post: TraditionalLeaguesState,
    tid: Seq<char>,
    round: u32,
    account: Seq<char>,
    picks: Seq<String>,
) -> bool {
    let fi = spec_find_round_portfolio(pre.portfolios@, tid, round, account);
    let ni = if fi >= 0 {
        fi
    } else {
        pre.portfolios@.len() as int
    };
    &&& (fi >= 0 ==> post.portfolios@.len() == pre.portfolios@.len() && (forall|j: int|
        0 <= j < pre.portfolios@.len() && j != fi ==> post.portfolios@[j] == pre.portfolios@[j]))
    &&& (fi == -1 ==> post.portfolios@.len() == pre.portfolios@.len() + 1
        && post.portfolios@.drop_last() == pre.portfolios@)
    &&& post.portfolios@[ni].tournament_id@ == tid
    &&& post.portfolios@[ni].round == round
    &&& post.portfolios@[ni].account@ == account
    &&& post.portfolios@[ni].portfolio.crypto_picks@ == picks
    &&& post.tournaments@ == pre.tournaments@
    &&& post.participants@ == pre.participants@
    &&& post.results@ == pre.results@
    &&& post.tournament_counter == pre.tournament_counter
    &&& post.game_links@ == pre.game_links@
}

/// What a valid creation request does: one tournament is created open for
/// registration under a freshly minted identifier, one link records which
/// hub contest it backs and whom to notify, and exactly one confirmation
/// carrying the new identifier is addressed back to the origin.
pub open spec fn spec_creation_request_effect(
    pre: TraditionalLeaguesState,
    post: TraditionalLeaguesState,
    gid: Seq<char>,
    origin: Seq<char>,
    entry_fee_usdc: u64,
    max_participants: u32,
    msgs: Seq<Envelope<TraditionalLeaguesMessage>>,
) -> bool {
    let minted = spec_tournament_id_chars(pre.tournament_counter as nat);
    &&& post.tournaments@.len() == pre.tournaments@.len() + 1
    &&& post.tournaments@.drop_last() == pre.tournaments@
    &&& post.tournaments@.last().id@ == minted
    &&& post.tournaments@.last().status is Registration
    &&& post.tournaments@.last().entry_fee_usdc == entry_fee_usdc
    &&& post.tournaments@.last().max_participants == max_participants
    &&& post.tournaments@.last().current_participants == 0
    &&& post.tournament_counter == pre.tournament_counter + 1
    &&& post.participants@ == pre.participants@
    &&& post.portfolios@ == pre.portfolios@
    &&& post.results@ == pre.results@
    &&& post.game_links@.len() == pre.game_links@.len() + 1
    &&& post.game_links@.drop_last() == pre.game_links@
    &&& post.game_links@.last().tournament_id@ == minted
    &&& post.game_links@.last().game_id@ == gid
    &&& post.game_links@.last().origin@ == origin
    &&& msgs.len() == 1
    &&& msgs[0].destination@ == origin
    &&& (msgs[0].payload matches TraditionalLeaguesMessage::TournamentCreated {
        game_id: g,
        tournament_id: t,
        ..
    } && g@ == gid && t@ == minted)
}

/// Whether the tournament at an index is in progress with its running time
/// elapsed.
pub open spec fn spec_expired_at(s: TraditionalLeaguesState, ti: int, now: u64) -> bool {
    &&& 0 <= ti < s.tournaments@.len()
    &&& s.tournaments@[ti].status is InProgress
    &&& (s.tournaments@[ti].started_at matches Some(st) && now >= st
        + TOURNAMENT_DURATION_MICROS)
}

/// With unique identifiers, a tournament's own identifier is found at its
/// index.
proof fn lemma_find_tournament_at(ts: Seq<Tournament>, ti: int)
    requires
        0 <= ti < ts.len(),
        forall|i: int, j: int|
            0 <= i < j < ts.len() ==> (#[trigger] ts[i]).id@ != (#[trigger] ts[j]).id@,
    ensures
        spec_find_tournament(ts, ts[ti].id@) == ti,
{
    lemma_find_tournament_is_first(ts, ts[ti].id@);
    let r = spec_find_tournament(ts, ts[ti].id@);
    if r == -1 {
        assert(ts[ti].id@ != ts[ti].id@);
    }
    if r != ti {
        assert(ts[r].id@ == ts[ti].id@);
    }
}

/// Whether the state holds an in-progress tournament with this identifier
/// whose running time has elapsed.
pub open spec fn spec_was_expired(pre: TraditionalLeaguesState, id: Seq<char>, now: u64) -> bool {
    exists|ti: int|
        {
            &&& 0 <= ti < pre.tournaments@.len()
            &&& (#[trigger] pre.tournaments@[ti]).id@ == id
            &&& pre.tournaments@[ti].status is InProgress
            &&& (pre.tournaments@[ti].started_at matches Some(st) && now >= st
                + TOURNAMENT_DURATION_MICROS)
        }
}

impl TraditionalLeaguesState {
    /// Checks every tournament for expiry and completes the expired ones.
    /// Expiry is a computed condition: nothing happens unless this operation
    /// is invoked explicitly. Every in-progress tournament whose running
    /// time has elapsed and that can settle is settled; every other
    /// tournament, and everything else the engine stores, is untouched, and
    /// the returned list names only tournaments that had expired.
    pub fn check_expired_tournaments(&mut self, now: u64) -> (r: (
        TraditionalLeaguesResponse,
        Vec<Envelope<TraditionalLeaguesMessage>>,
    ))
        requires
            spec_league_wf(*old(self)),
        ensures
            spec_league_wf(*final(self)),
            final(self).participants@ == old(self).participants@,
            final(self).portfolios@ == old(self).portfolios@,
            final(self).tournament_counter == old(self).tournament_counter,
            final(self).game_links@ == old(self).game_links@,
            final(self).results@.len() >= old(self).results@.len(),
            final(self).results@.take(old(self).results@.len() as int) == old(self).results@,
            final(self).tournaments@.len() == old(self).tournaments@.len(),
            forall|t: int|
                0 <= t < old(self).tournaments@.len() && !spec_expired_at(*old(self), t, now)
                    ==> final(self).tournaments@[t] == old(self).tournaments@[t],
            forall|t: int|
                spec_expired_at(*old(self), t, now) && spec_league_settleable(*old(self), t)
                    ==> (#[trigger] final(self).tournaments@[t]).status is Completed,
            r.0 is ExpiredTournamentsChecked,
            r.0 matches TraditionalLeaguesResponse::ExpiredTournamentsChecked {
                completed_tournaments,
            } ==> forall|k: int|
                0 <= k < completed_tournaments@.len() ==> spec_was_expired(
                    *old(self),
                    (#[trigger] completed_tournaments@[k])@,
                    now,
                ),
    {
        let ghost pre = *old(self);
        let mut completed: Vec<String> = Vec::new();
        let mut msgs: Vec<Envelope<TraditionalLeaguesMessage>> = Vec::new();
        let mut ti: usize = 0;
        while ti < self.tournaments.len()
            invariant
                ti <= self.tournaments@.len(),
                spec_league_wf(pre),
                spec_league_wf(*self),
                self.participants@ == pre.participants@,
                self.portfolios@ == pre.portfolios@,
                self.tournament_counter == pre.tournament_counter,
                self.game_links@ == pre.game_links@,
                self.results@.len() >= pre.results@.len(),
                self.results@.take(pre.results@.len() as int) == pre.results@,
                self.tournaments@.len() == pre.tournaments@.len(),
                forall|t: int|
                    ti <= t < pre.tournaments@.len() ==> #[trigger] self.tournaments@[t]
                        == pre.tournaments@[t],
                forall|t: int|
                    0 <= t < ti && !spec_expired_at(pre, t, now) ==> #[trigger] self.tournaments@[t]
                        == pre.tournaments@[t],
                forall|t: int|
                    0 <= t < ti && spec_expired_at(pre, t, now) && spec_league_settleable(pre, t)
                        ==> (#[trigger] self.tournaments@[t]).status is Completed,
                forall|k: int|
                    0 <= k < completed@.len() ==> spec_was_expired(
                        pre,
                        (#[trigger] completed@[k])@,
                        now,
                    ),
            decreases self.tournaments@.len() - ti,
        {
            let is_expired = matches!(self.tournaments[ti].status, TournamentStatus::InProgress)
                && match self.tournaments[ti].started_at {
                Some(st) => st <= u64::MAX - TOURNAMENT_DURATION_MICROS && now >= st
                    + TOURNAMENT_DURATION_MICROS,
                None => false,
            };
            proof {
                assert(self.tournaments@[ti as int] == pre.tournaments@[ti as int]);
                assert(is_expired == spec_expired_at(pre, ti as int, now));
            }
            if is_expired {
                let id = self.tournaments[ti].id.clone();
                proof {
                    lemma_find_tournament_at(self.tournaments@, ti as int);
                }
                let ghost cur = *self;
                let (resp, mut new_msgs) = self.complete_tournament(&id, now);
                if let TraditionalLeaguesResponse::TournamentCompleted { winners } = resp {
                    proof {
                        assert(spec_find_tournament(cur.tournaments@, id@) == ti as int);
                        assert(spec_league_settleable(cur, ti as int) == spec_league_settleable(
                            pre,
                            ti as int,
                        ));
                        if winners@.len() > 0 {
                            let ranked = choose|ranked: Seq<ScoreEntry>|
                                spec_league_settlement(
                                    cur,
                                    *self,
                                    ti as int,
                                    cur.tournaments@[ti as int].end_prices->Some_0@,
                                    now,
                                    ranked,
                                    winners@,
                                    new_msgs@,
                                );
                            assert(self.results@.take(pre.results@.len() as int)
                                =~= cur.results@.take(pre.results@.len() as int));
                        }
                    }
                    if winners.len() > 0 {
                        let ghost before = completed@;
                        completed.push(id);
                        proof {
                            assert forall|k: int|
                                0 <= k < completed@.len() implies spec_was_expired(
                                pre,
                                (#[trigger] completed@[k])@,
                                now,
                            ) by {
                                if k < completed@.len() - 1 {
                                    assert(completed@[k] == before[k]);
                                } else {
                                    assert(completed@[k]@ == pre.tournaments@[ti as int].id@);
                                }
                            }
                        }
                        let mut mi: usize = 0;
                        while mi < new_msgs.len()
                            invariant
                                mi <= new_msgs@.len(),
                            decreases new_msgs@.len() - mi,
                        {
                            let next = new_msgs.pop();
                            match next {
                                Some(m) => {
                                    msgs.push(m);
                                },
                                None => {},
                            }
                        }
                    }
                }
            }
            ti += 1;
        }
        (
            TraditionalLeaguesResponse::ExpiredTournamentsChecked {
                completed_tournaments: completed,
            },
            msgs,
        )
    }

    /// Applies one operation to the engine and returns its acknowledgment
    /// and any queued outbound messages. Operations that act for the caller
    /// use the authenticated signer as the account.
    pub fn execute_operation(
        &mut self,
        operation: TraditionalLeaguesOperation,
        signer: String,
        now: u64,
    ) -> (r: (TraditionalLeaguesResponse, Vec<Envelope<TraditionalLeaguesMessage>>))
        requires
            spec_league_wf(*old(self)),
        ensures
            spec_league_wf(*final(self)),
            operation is CreateTournament ==> r.0 is TournamentCreated && r.1@.len() == 0,
            operation matches TraditionalLeaguesOperation::CreateTournament {
                entry_fee_usdc,
                ..
            } ==> (!(100_000 <= entry_fee_usdc <= 100_000_000 && old(self).tournament_counter
                < u64::MAX) ==> spec_same_league_state(*final(self), *old(self))) && (100_000
                <= entry_fee_usdc <= 100_000_000 && old(self).tournament_counter < u64::MAX
                ==> final(self).tournaments@.len() == old(self).tournaments@.len() + 1 && final(self).tournaments@.drop_last() == old(self).tournaments@ && final(self).tournaments@.last().id@ == spec_tournament_id_chars(
                old(self).tournament_counter as nat,
            ) && final(self).tournaments@.last().status is Registration),
            operation is RegisterForTournament ==> r.0 is PlayerRegistered && r.1@.len() == 0,
            operation is RegisterForTournament ==> (r.0 matches
                TraditionalLeaguesResponse::PlayerRegistered { success } ==> !success
                ==> spec_same_league_state(*final(self), *old(self))),
            operation matches TraditionalLeaguesOperation::RegisterForTournament {
                tournament_id,
                player_account,
            } ==> (r.0 matches TraditionalLeaguesResponse::PlayerRegistered { success } ==> (
            success <==> ({
                let ti = spec_find_tournament(old(self).tournaments@, tournament_id@);
                &&& ti >= 0
                &&& old(self).tournaments@[ti].status is Registration
                &&& (spec_is_participant(old(self).participants@, tournament_id@, player_account@)
                    || spec_participant_count(old(self).participants@, tournament_id@) < old(
                    self,
                ).tournaments@[ti].max_participants)
            }))),
            operation matches TraditionalLeaguesOperation::RegisterForTournament {
                tournament_id,
                player_account,
            } ==> (r.0 matches TraditionalLeaguesResponse::PlayerRegistered { success }
                ==> success ==> spec_registration_effect(
                *old(self),
                *final(self),
                tournament_id@,
                player_account@,
                now,
            )),
            operation is SubmitPortfolio ==> r.0 is PortfolioSubmitted && r.1@.len() == 0,
            operation is SubmitPortfolio ==> (r.0 matches
                TraditionalLeaguesResponse::PortfolioSubmitted { success } ==> !success
                ==> spec_same_league_state(*final(self), *old(self))),
            operation matches TraditionalLeaguesOperation::SubmitPortfolio { portfolio, .. }
                ==> (r.0 matches TraditionalLeaguesResponse::PortfolioSubmitted { success } ==> (
            success <==> portfolio.crypto_picks@.len() <= 5)),
            operation matches TraditionalLeaguesOperation::SubmitPortfolio {
                tournament_id,
                round,
                portfolio,
            } ==> (r.0 matches TraditionalLeaguesResponse::PortfolioSubmitted { success }
                ==> success ==> spec_league_submit_effect(
                *old(self),
                *final(self),
                tournament_id@,
                round,
                signer@,
                portfolio.crypto_picks@,
            )),
            operation is StartTournament ==> r.0 is TournamentStarted && r.1@.len() == 0,
            operation is StartTournament ==> (r.0 matches
                TraditionalLeaguesResponse::TournamentStarted { success, .. } ==> !success
                ==> spec_same_league_state(*final(self), *old(self))),
            operation matches TraditionalLeaguesOperation::StartTournament { tournament_id, .. }
                ==> (r.0 matches TraditionalLeaguesResponse::TournamentStarted { success, .. }
                ==> (success <==> ({
                let ti = spec_find_tournament(old(self).tournaments@, tournament_id@);
                &&& ti >= 0
                &&& old(self).tournaments@[ti].start_prices is None
                &&& !(old(self).tournaments@[ti].status is Completed)
                &&& !(old(self).tournaments@[ti].status is Cancelled)
            }))),
            operation matches TraditionalLeaguesOperation::StartTournament {
                tournament_id,
                start_prices,
            } ==> (r.0 matches TraditionalLeaguesResponse::TournamentStarted {
                success,
                timestamp,
            } ==> success ==> timestamp == now && spec_league_start_effect(
                *old(self),
                *final(self),
                tournament_id@,
                start_prices@,
                now,
            )),
            operation is EndTournament ==> r.0 is TournamentEnded,
            operation matches TraditionalLeaguesOperation::EndTournament { tournament_id, .. }
                ==> (r.0 matches TraditionalLeaguesResponse::TournamentEnded { success, .. } ==> (
            success <==> ({
                let ti = spec_find_tournament(old(self).tournaments@, tournament_id@);
                &&& ti >= 0
                &&& old(self).tournaments@[ti].status is InProgress
                &&& old(self).tournaments@[ti].start_prices is Some
                &&& 1 <= spec_round_submissions(
                    old(self).participants@,
                    old(self).portfolios@,
                    old(self).tournaments@[ti].id@,
                    old(self).tournaments@[ti].current_round,
                ).len() <= 0xffff_fffe
            }))),
            operation matches TraditionalLeaguesOperation::EndTournament {
                tournament_id,
                end_prices,
            } ==> (r.0 matches TraditionalLeaguesResponse::TournamentEnded { success, winners }
                ==> (!success ==> spec_same_league_state(*final(self), *old(self))) && (success
                ==> spec_settled_outcome(
                *old(self),
                *final(self),
                spec_find_tournament(old(self).tournaments@, tournament_id@),
                end_prices@,
                now,
                winners@,
                r.1@,
            ))),
            operation is AdvanceRound ==> r.0 is RoundAdvanced && r.1@.len() == 0,
            operation is CompleteTournament ==> r.0 is TournamentCompleted,
            operation matches TraditionalLeaguesOperation::CompleteTournament { tournament_id }
                ==> (r.0 matches TraditionalLeaguesResponse::TournamentCompleted { winners }
                ==> winners@.len() == 0 ==> spec_same_league_state(*final(self), *old(self))),
            operation matches TraditionalLeaguesOperation::CompleteTournament { tournament_id }
                ==> (r.0 matches TraditionalLeaguesResponse::TournamentCompleted { winners } ==> (
            winners@.len() > 0 <==> ({
                let ti = spec_find_tournament(old(self).tournaments@, tournament_id@);
                &&& ti >= 0
                &&& (old(self).tournaments@[ti].started_at matches Some(st) && now >= st
                    + TOURNAMENT_DURATION_MICROS)
                &&& spec_league_settleable(*old(self), ti)
            }))),
            operation is CheckExpiredTournaments ==> r.0 is ExpiredTournamentsChecked,
            operation is CheckExpiredTournaments ==> (r.0 matches
                TraditionalLeaguesResponse::ExpiredTournamentsChecked { completed_tournaments }
                ==> forall|k: int|
                0 <= k < completed_tournaments@.len() ==> spec_was_expired(
                    *old(self),
                    (#[trigger] completed_tournaments@[k])@,
                    now,
                )),
    {
        match operation {
            TraditionalLeaguesOperation::CreateTournament {
                name,
                entry_fee_usdc,
                max_participants,
                tournament_type,
                category,
            } => {
                (
                    self.create_tournament(
                        name,
                        entry_fee_usdc,
                        max_participants,
                        tournament_type,
                        category,
                        now,
                    ),
                    Vec::new(),
                )
            },
            TraditionalLeaguesOperation::RegisterForTournament {
                tournament_id,
                player_account,
            } => {
                (self.register_for_tournament(&tournament_id, player_account, now), Vec::new())
            },
            TraditionalLeaguesOperation::SubmitPortfolio { tournament_id, round, portfolio } => {
                (self.submit_portfolio(tournament_id, round, portfolio, signer), Vec::new())
            },
            TraditionalLeaguesOperation::StartTournament { tournament_id, start_prices } => {
                (self.start_tournament(&tournament_id, start_prices, now), Vec::new())
            },
            TraditionalLeaguesOperation::EndTournament { tournament_id, end_prices } => {
                self.end_tournament(&tournament_id, end_prices, now)
            },
            TraditionalLeaguesOperation::AdvanceRound { tournament_id } => {
                (self.advance_round(&tournament_id, now), Vec::new())
            },
            TraditionalLeaguesOperation::CompleteTournament { tournament_id } => {
                self.complete_tournament(&tournament_id, now)
            },
            TraditionalLeaguesOperation::CheckExpiredTournaments => {
                self.check_expired_tournaments(now)
            },
        }
    }

    /// Handles a creation request from the hub: creates the tournament,
    /// records which hub contest it backs, and replies with a confirmation
    /// carrying the new identifier. An invalid entry fee changes nothing and
    /// sends no reply.
    fn handle_creation_request(
        &mut self,
        origin: String,
        game_id: String,
        tournament_name: String,
        entry_fee_usdc: u64,
        max_participants: u32,
        now: u64,
    ) -> (r: Vec<Envelope<TraditionalLeaguesMessage>>)
        requires
            spec_league_wf(*old(self)),
        ensures
            spec_league_wf(*final(self)),
            !(100_000 <= entry_fee_usdc <= 100_000_000 && old(self).tournament_counter < u64::MAX)
                ==> spec_same_league_state(*final(self), *old(self)) && r@.len() == 0,
            100_000 <= entry_fee_usdc <= 100_000_000 && old(self).tournament_counter < u64::MAX
                ==> spec_creation_request_effect(
                *old(self),
                *final(self),
                game_id@,
                origin@,
                entry_fee_usdc,
                max_participants,
                r@,
            ),
    {
        let resp = self.create_tournament(
            tournament_name,
            entry_fee_usdc,
            max_participants,
            TournamentType::SingleElimination,
            String::from_str("ALL_CATEGORIES"),
            now,
        );
        let mut out: Vec<Envelope<TraditionalLeaguesMessage>> = Vec::new();
        if let TraditionalLeaguesResponse::TournamentCreated { tournament_id } = resp {
            proof {
                // A minted identifier is longer than the error sentinel, so
                // the two never collide.
                reveal_strlit("error");
                reveal_strlit("trad-league-");
                crate::text::lemma_dec_digits_len(old(self).tournament_counter as nat);
            }
            if !crate::text::str_eq(tournament_id.as_str(), "error") {
                let ghost links_before = self.game_links@;
                self.game_links.push(
                    GameLink {
                        tournament_id: tournament_id.clone(),
                        game_id: game_id.clone(),
                        origin: origin.clone(),
                    },
                );
                proof {
                    assert(self.game_links@.drop_last() =~= links_before);
                }
                out.push(
                    Envelope {
                        destination: origin,
                        payload: TraditionalLeaguesMessage::TournamentCreated {
                            game_id,
                            tournament_id,
                            tournament_info: String::from_str("tournament created"),
                        },
                    },
                );
                proof {
                    assert(out@.len() == 1);
                    assert(spec_creation_request_effect(
                        *old(self),
                        *self,
                        game_id@,
                        origin@,
                        entry_fee_usdc,
                        max_participants,
                        out@,
                    ));
                }
            } else {
                proof {
                    // Only the error sentinel can take this branch: a minted
                    // identifier is longer than it.
                    reveal_strlit("error");
                    reveal_strlit("trad-league-");
                    crate::text::lemma_dec_digits_len(old(self).tournament_counter as nat);
                    if 100_000 <= entry_fee_usdc && entry_fee_usdc <= 100_000_000 && old(
                        self,
                    ).tournament_counter < u64::MAX {
                        assert(tournament_id@ == spec_tournament_id_chars(
                            old(self).tournament_counter as nat,
                        ));
                        assert("trad-league-"@.len() == 12);
                        assert("error"@.len() == 5);
                        assert(spec_tournament_id_chars(
                            old(self).tournament_counter as nat,
                        ).len() >= 13);
                        assert(false);
                    }
                }
            }
        }
        out
    }

    /// Handles one inbound message from the hub. A creation request creates
    /// the tournament, records which hub contest it backs, and replies with
    /// a confirmation; registration and portfolio sync are best-effort;
    /// a status query is answered with an advisory update; anything
    /// unexpected is dropped. An inbound message referencing an unknown
    /// tournament never fails the instance.
    pub fn execute_message(&mut self, origin: String, message: CoinDraftsMessage, now: u64) -> (r:
        Vec<Envelope<TraditionalLeaguesMessage>>)
        requires
            spec_league_wf(*old(self)),
        ensures
            spec_league_wf(*final(self)),
            message matches CoinDraftsMessage::CreateTournament {
                game_id,
                entry_fee_usdc,
                max_participants,
                ..
            } ==> {
                let valid = 100_000 <= entry_fee_usdc <= 100_000_000 && old(
                    self,
                ).tournament_counter < u64::MAX;
                let minted = spec_tournament_id_chars(old(self).tournament_counter as nat);
                &&& (!valid ==> spec_same_league_state(*final(self), *old(self)) && r@.len() == 0)
                &&& (valid ==> {
                    &&& final(self).tournaments@.len() == old(self).tournaments@.len() + 1
                    &&& final(self).tournaments@.drop_last() == old(self).tournaments@
                    &&& final(self).tournaments@.last().id@ == minted
                    &&& final(self).tournaments@.last().status is Registration
                    &&& final(self).tournaments@.last().entry_fee_usdc == entry_fee_usdc
                    &&& final(self).tournaments@.last().max_participants == max_participants
                    &&& final(self).tournaments@.last().current_participants == 0
                    &&& final(self).tournament_counter == old(self).tournament_counter + 1
                    &&& final(self).participants@ == old(self).participants@
                    &&& final(self).portfolios@ == old(self).portfolios@
                    &&& final(self).results@ == old(self).results@
                    &&& final(self).game_links@.len() == old(self).game_links@.len() + 1
                    &&& final(self).game_links@.drop_last() == old(self).game_links@
                    &&& final(self).game_links@.last().tournament_id@ == minted
                    &&& final(self).game_links@.last().game_id@ == game_id@
                    &&& final(self).game_links@.last().origin@ == origin@
                    &&& r@.len() == 1
                    &&& r@[0].destination@ == origin@
                    &&& (r@[0].payload matches TraditionalLeaguesMessage::TournamentCreated {
                        game_id: g,
                        tournament_id: t,
                        ..
                    } && g@ == game_id@ && t@ == minted)
                })
            },
            message is GetTournamentStatus ==> spec_same_league_state(*final(self), *old(self)),
            message matches CoinDraftsMessage::GetTournamentStatus { tournament_id } ==> ({
                let ti = spec_find_tournament(old(self).tournaments@, tournament_id@);
                &&& (ti == -1 ==> r@.len() == 0)
                &&& (ti >= 0 ==> r@.len() == 1 && r@[0].destination@ == origin@ && (
                r@[0].payload matches TraditionalLeaguesMessage::TournamentStatusUpdate {
                    tournament_id: t,
                    status,
                    current_round,
                } && t@ == tournament_id@ && status@ == crate::league::spec_status_key(
                    old(self).tournaments@[ti].status,
                ) && current_round == old(self).tournaments@[ti].current_round))
            }),
            message is VerifyPlayer ==> spec_same_league_state(*final(self), *old(self))
                && r@.len() == 0,
    {
        match message {
            CoinDraftsMessage::CreateTournament {
                game_id,
                tournament_name,
                entry_fee_usdc,
                max_participants,
            } => {
                self.handle_creation_request(
                    origin,
                    game_id,
                    tournament_name,
                    entry_fee_usdc,
                    max_participants,
                    now,
                )
            },
            CoinDraftsMessage::RegisterPlayerForTournament {
                tournament_id,
                player_account,
                ..
            } => {
                let _ = self.register_for_tournament(&tournament_id, player_account, now);
                Vec::new()
            },
            CoinDraftsMessage::SyncPortfolio { tournament_id, player_account, portfolio, .. } => {
                let _ = self.submit_portfolio(tournament_id, 1, portfolio, player_account);
                Vec::new()
            },
            CoinDraftsMessage::GetTournamentStatus { tournament_id } => {
                let ti = match find_tournament_index(&self.tournaments, &tournament_id) {
                    Some(i) => i,
                    None => {
                        return Vec::new();
                    },
                };
                proof {
                    lemma_find_tournament_is_first(self.tournaments@, tournament_id@);
                }
                let status_key = self.tournaments[ti].status.key();
                let round = self.tournaments[ti].current_round;
                let mut out: Vec<Envelope<TraditionalLeaguesMessage>> = Vec::new();
                out.push(
                    Envelope {
                        destination: origin,
                        payload: TraditionalLeaguesMessage::TournamentStatusUpdate {
                            tournament_id,
                            status: String::from_str(status_key),
                            current_round: round,
                        },
                    },
                );
                out
            },
            CoinDraftsMessage::VerifyPlayer { .. } => {
                Vec::new()
            },
        }
    }
}


impl TraditionalLeaguesState {
    /// The participants of a tournament, in registration order.
    pub fn tournament_participants(&self, tournament_id: &String) -> (r: Vec<String>)
        ensures
            r@.len() <= self.participants@.len(),
            forall|k: int|
                0 <= k < r@.len() ==> spec_is_participant(
                    self.participants@,
                    tournament_id@,
                    (#[trigger] r@[k])@,
                ),
    {
        let mut out: Vec<String> = Vec::new();
        let mut i: usize = 0;
        while i < self.participants.len()
            invariant
                i <= self.participants@.len(),
                out@.len() <= i,
                forall|k: int|
                    0 <= k < out@.len() ==> spec_is_participant(
                        self.participants@,
                        tournament_id@,
                        (#[trigger] out@[k])@,
                    ),
            decreases self.participants@.len() - i,
        {
            if string_eq(&self.participants[i].tournament_id, tournament_id) {
                let ghost before = out@;
                out.push(self.participants[i].account.clone());
                proof {
                    assert forall|k: int|
                        0 <= k < out@.len() implies spec_is_participant(
                        self.participants@,
                        tournament_id@,
                        (#[trigger] out@[k])@,
                    ) by {
                        if k < out@.len() - 1 {
                            assert(out@[k] == before[k]);
                        } else {
                            assert(out@[k]@ == self.participants@[i as int].account@);
                        }
                    }
                }
            }
            i += 1;
        }
        out
    }

    /// The recorded winners of a tournament, best first; empty when the
    /// tournament has not settled.
    pub fn tournament_results(&self, tournament_id: &String) -> (r: Vec<String>)
        ensures
            forall|k: int|
                0 <= k < r@.len() ==> exists|i: int|
                    0 <= i < self.results@.len() && (#[trigger] r@[k])@
                        == self.results@[i].winners@[k]@ && self.results@[i].tournament_id@
                        == tournament_id@ && k < self.results@[i].winners@.len(),
    {
        let mut i: usize = 0;
        while i < self.results.len()
            invariant
                i <= self.results@.len(),
                forall|j: int|
                    0 <= j < i ==> (#[trigger] self.results@[j]).tournament_id@ != tournament_id@,
            decreases self.results@.len() - i,
        {
            if string_eq(&self.results[i].tournament_id, tournament_id) {
                let mut out: Vec<String> = Vec::new();
                let mut k: usize = 0;
                while k < self.results[i].winners.len()
                    invariant
                        i < self.results@.len(),
                        self.results@[i as int].tournament_id@ == tournament_id@,
                        k <= self.results@[i as int].winners@.len(),
                        out@.len() == k,
                        forall|m: int|
                            0 <= m < k ==> (#[trigger] out@[m])@
                                == self.results@[i as int].winners@[m]@,
                    decreases self.results@[i as int].winners@.len() - k,
                {
                    out.push(self.results[i].winners[k].clone());
                    k += 1;
                }
                return out;
            }
            i += 1;
        }
        Vec::new()
    }

    /// Computes the live leaderboard of a tournament from its snapshots: the
    /// current round's submissions ranked by score with ties in registration
    /// order, ranks assigned from 1 and the payout curve applied to the pool.
    /// The result is empty when the tournament is unknown or either snapshot
    /// is missing.
    pub fn tournament_leaderboard(&self, tournament_id: &String) -> (r: Vec<LeaderboardEntry>)
        requires
            spec_league_wf(*self),
        ensures
            ({
                let ti = spec_find_tournament(self.tournaments@, tournament_id@);
                ti == -1 ==> r@.len() == 0
            }),
            forall|k: int| 0 <= k < r@.len() ==> (#[trigger] r@[k]).rank == k + 1,
            forall|a: int, b: int|
                0 <= a < b < r@.len() ==> (#[trigger] r@[a]).total_return >= (
                #[trigger] r@[b]).total_return,
            forall|k: int|
                0 <= k < r@.len() ==> (#[trigger] r@[k]).winning_amount
                    == crate::league::spec_league_prize(
                    ({
                        let ti = spec_find_tournament(self.tournaments@, tournament_id@);
                        (self.tournaments@[ti].entry_fee_usdc
                            * self.tournaments@[ti].current_participants) as u64
                    }),
                    k + 1,
                ),
    {
        let ti = match find_tournament_index(&self.tournaments, tournament_id) {
            Some(i) => i,
            None => {
                return Vec::new();
            },
        };
        proof {
            lemma_find_tournament_is_first(self.tournaments@, tournament_id@);
        }
        let pd: Vec<PriceData>;
        {
            let starts = match &self.tournaments[ti].start_prices {
                Some(s) => s,
                None => {
                    return Vec::new();
                },
            };
            let ends = match &self.tournaments[ti].end_prices {
                Some(e) => e,
                None => {
                    return Vec::new();
                },
            };
            pd = build_price_data(starts, ends);
        }
        let tid = self.tournaments[ti].id.clone();
        let round = self.tournaments[ti].current_round;
        let subs = gather_round_submissions(&self.participants, &self.portfolios, &tid, round);
        if subs.len() > 0xffff_fffe {
            return Vec::new();
        }
        let fee = self.tournaments[ti].entry_fee_usdc;
        let parts = self.tournaments[ti].current_participants;
        proof {
            assert(fee * (parts as u64) <= 100_000_000 * 0xffff_ffffu64) by (nonlinear_arith)
                requires
                    fee <= 100_000_000,
                    parts <= 0xffff_ffffu64,
            ;
        }
        let pool = fee * (parts as u64);
        ScoringEngine::calculate_leaderboard(subs, &pd, pool)
    }
}


impl TraditionalLeaguesState {
    /// The tournament with an identifier, when the engine knows it.
    pub fn tournament(&self, tournament_id: &String) -> (r: Option<&Tournament>)
        ensures
            r matches Some(t) ==> spec_find_tournament(self.tournaments@, tournament_id@) >= 0
                && *t == self.tournaments@[spec_find_tournament(self.tournaments@, tournament_id@)],
            r is None ==> spec_find_tournament(self.tournaments@, tournament_id@) == -1,
    {
        match find_tournament_index(&self.tournaments, tournament_id) {
            Some(i) => {
                proof {
                    lemma_find_tournament_is_first(self.tournaments@, tournament_id@);
                }
                Some(&self.tournaments[i])
            },
            None => None,
        }
    }

    /// The indexes of the tournaments in a status, in creation order.
    pub fn tournaments_by_status(&self, status: TournamentStatus) -> (r: Vec<usize>)
        ensures
            forall|k: int|
                0 <= k < r@.len() ==> (#[trigger] r@[k]) < self.tournaments@.len()
                    && self.tournaments@[r@[k] as int].status == status,
    {
        let mut out: Vec<usize> = Vec::new();
        let mut i: usize = 0;
        while i < self.tournaments.len()
            invariant
                i <= self.tournaments@.len(),
                forall|k: int|
                    0 <= k < out@.len() ==> (#[trigger] out@[k]) < self.tournaments@.len()
                        && self.tournaments@[out@[k] as int].status == status,
            decreases self.tournaments@.len() - i,
        {
            if self.tournaments[i].status == status {
                out.push(i);
            }
            i += 1;
        }
        out
    }

    /// The indexes of the tournaments still accepting registrations or in
    /// progress, in creation order.
    pub fn active_tournaments(&self) -> (r: Vec<usize>)
        ensures
            forall|k: int|
                0 <= k < r@.len() ==> (#[trigger] r@[k]) < self.tournaments@.len() && (
                self.tournaments@[r@[k] as int].status is Registration
                    || self.tournaments@[r@[k] as int].status is InProgress),
    {
        let mut out: Vec<usize> = Vec::new();
        let mut i: usize = 0;
        while i < self.tournaments.len()
            invariant
                i <= self.tournaments@.len(),
                forall|k: int|
                    0 <= k < out@.len() ==> (#[trigger] out@[k]) < self.tournaments@.len() && (
                    self.tournaments@[out@[k] as int].status is Registration
                        || self.tournaments@[out@[k] as int].status is InProgress),
            decreases self.tournaments@.len() - i,
        {
            if matches!(self.tournaments[i].status, TournamentStatus::Registration) || matches!(
                self.tournaments[i].status,
                TournamentStatus::InProgress,
            ) {
                out.push(i);
            }
            i += 1;
        }
        out
    }

    /// A player's portfolio for a tournament round, when one is stored.
    pub fn player_portfolio(&self, tournament_id: &String, round: u32, player_account: &String)
        -> (r: Option<&TournamentPortfolio>)
        ensures
            r is Some <==> spec_find_round_portfolio(
                self.portfolios@,
                tournament_id@,
                round,
                player_account@,
            ) >= 0,
    {
        match find_round_portfolio(&self.portfolios, tournament_id, round, player_account) {
            Some(i) => {
                proof {
                    lemma_find_round_portfolio_is_first(
                        self.portfolios@,
                        tournament_id@,
                        round,
                        player_account@,
                    );
                }
                Some(&self.portfolios[i].portfolio)
            },
            None => None,
        }
    }
}

} // verus!
