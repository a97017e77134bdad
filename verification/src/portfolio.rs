//! Portfolios: weighted sets of asset holdings submitted for a contest.
//!
//! An allocation-based portfolio is valid exactly when its allocation
//! percentages sum to 100 and it holds between one and ten assets; invalid
//! submissions are rejected before storage, never stored.

use vstd::prelude::*;
use vstd::string::*;

verus! {

/// One cryptocurrency holding in a portfolio.
pub struct CryptoHolding {
    /// Asset symbol, e.g. "BTC".
    pub symbol: String,
    /// Allocation percentage (1 to 100).
    pub allocation_percent: u8,
}

impl CryptoHolding {
    /// Returns a copy of this holding.
    pub fn duplicate(&self) -> (r: Self)
        ensures
            r == *self,
    {
        CryptoHolding { symbol: self.symbol.clone(), allocation_percent: self.allocation_percent }
    }
}

/// Validation status of a stored portfolio.
#[derive(Debug, Clone, Copy, PartialEq, Eq, Structural)]
pub enum PortfolioStatus {
    Valid,
    Invalid,
    Pending,
}

/// A portfolio submission for one contest by one account.
pub struct Portfolio {
    /// Contest this portfolio belongs to.
    pub game_id: String,
    /// Owning account.
    pub player_account: String,
    /// Asset holdings with allocation percentages.
    pub holdings: Vec<CryptoHolding>,
    /// Submission timestamp in microseconds.
    pub submitted_at: u64,
    /// Validation status.
    pub status: PortfolioStatus,
}

/// The sum of allocation percentages across a sequence of holdings.
pub open spec fn spec_alloc_sum(holdings: Seq<CryptoHolding>) -> int
    decreases holdings.len(),
{
    if holdings.len() == 0 {
        0
    } else {
        spec_alloc_sum(holdings.drop_last()) + holdings.last().allocation_percent
    }
}

/// Whether a sequence of holdings forms a valid allocation-based portfolio:
/// allocations sum to exactly 100 and the count is between one and ten.
pub open spec fn spec_portfolio_valid(holdings: Seq<CryptoHolding>) -> bool {
    &&& spec_alloc_sum(holdings) == 100
    &&& 1 <= holdings.len() <= 10
}

impl Portfolio {
    /// Builds a new portfolio submission awaiting validation.
    pub fn new(game_id: String, player_account: String, holdings: Vec<CryptoHolding>, timestamp: u64) -> (r: Self)
        ensures
            r.game_id == game_id,
            r.player_account == player_account,
            r.holdings == holdings,
            r.submitted_at == timestamp,
            r.status is Pending,
    {
        Portfolio { game_id, player_account, holdings, submitted_at: timestamp, status: PortfolioStatus::Pending }
    }

    /// Validates this portfolio: succeeds exactly when the allocations sum to
    /// 100 percent and the holding count is between one and ten.
    pub fn validate(&self) -> (r: Result<(), Vec<String>>)
        ensures
            r is Ok <==> spec_portfolio_valid(self.holdings@),
            r matches Err(errors) ==> errors@.len() >= 1,
    {
        let mut errors: Vec<String> = Vec::new();

        let total = alloc_sum(&self.holdings);
        if total != 100 {
            errors.push(String::from_str("total allocation must equal 100 percent"));
        }
        if self.holdings.len() == 0 {
            errors.push(String::from_str("portfolio must contain at least one holding"));
        }
        if self.holdings.len() > 10 {
            errors.push(String::from_str("portfolio cannot contain more than 10 holdings"));
        }

        if errors.len() == 0 {
            Ok(())
        } else {
            Err(errors)
        }
    }

    /// Returns a copy of this portfolio.
    pub fn duplicate(&self) -> (r: Self)
        ensures
            r.game_id == self.game_id,
            r.player_account == self.player_account,
            r.holdings@ == self.holdings@,
            r.submitted_at == self.submitted_at,
            r.status == self.status,
    {
        let mut holdings: Vec<CryptoHolding> = Vec::new();
        let mut i: usize = 0;
        while i < self.holdings.len()
            invariant
                i <= self.holdings@.len(),
                holdings@ =~= self.holdings@.take(i as int),
            decreases self.holdings@.len() - i,
        {
            holdings.push(self.holdings[i].duplicate());
            proof {
                assert(holdings@ =~= self.holdings@.take(i + 1));
            }
            i += 1;
        }
        proof {
            assert(self.holdings@.take(self.holdings@.len() as int) =~= self.holdings@);
        }
        Portfolio {
            game_id: self.game_id.clone(),
            player_account: self.player_account.clone(),
            holdings,
            submitted_at: self.submitted_at,
            status: self.status,
        }
    }
}

/// Sums allocation percentages.
pub fn alloc_sum(holdings: &Vec<CryptoHolding>) -> (r: u128)
    ensures
        r == spec_alloc_sum(holdings@),
{
    let mut sum: u128 = 0;
    let mut i: usize = 0;
    while i < holdings.len()
        invariant
            i <= holdings@.len(),
            sum == spec_alloc_sum(holdings@.take(i as int)),
            sum <= i * 255,
        decreases holdings@.len() - i,
    {
        proof {
            assert(holdings@.take(i + 1).drop_last() =~= holdings@.take(i as int));
            assert(holdings@.take(i + 1).last() == holdings@[i as int]);
            assert((i + 1) * 255 == i * 255 + 255) by (nonlinear_arith);
            assert(i * 255 <= usize::MAX * 255) by (nonlinear_arith)
                requires i <= usize::MAX;
        }
        sum = sum + holdings[i].allocation_percent as u128;
        i += 1;
    }
    proof {
        assert(holdings@.take(holdings@.len() as int) =~= holdings@);
    }
    sum
}

} // verus!
