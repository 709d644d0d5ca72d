//! The longest-valid-chain rule: what the peers' reports do to the local
//! chain.

use crate::block::{blocks_view, BlockView};
use crate::chain::chain_is_valid;
use crate::error::LedgerError;
use crate::ledger::FullChain;
use vstd::prelude::*;
use vstd::string::StringExecFns;

verus! {

/// The mathematical value of a [`FullChain`].
pub struct FullChainView {
    pub chain: Seq<BlockView>,
    pub length: usize,
}

impl View for FullChain {
    type V = FullChainView;

    open spec fn view(&self) -> FullChainView {
        FullChainView { chain: blocks_view(self.chain@), length: self.length }
    }
}

/// What the request for a peer's chain came to.
#[derive(Debug)]
pub enum PeerReport {
    /// The peer sent its chain and the length that it claims for it.
    Chain(FullChain),
    /// The peer did not answer.
    Unreachable,
    /// The peer answered with something that is not a chain.
    Invalid,
}

/// The mathematical value of a [`PeerReport`].
pub enum PeerReportView {
    Chain(FullChainView),
    Unreachable,
    Invalid,
}

impl View for PeerReport {
    type V = PeerReportView;

    open spec fn view(&self) -> PeerReportView {
        match self {
            PeerReport::Chain(report) => PeerReportView::Chain(report@),
            PeerReport::Unreachable => PeerReportView::Unreachable,
            PeerReport::Invalid => PeerReportView::Invalid,
        }
    }
}

/// The views of a sequence of reports, in the same order.
pub open spec fn reports_view(reports: Seq<PeerReport>) -> Seq<PeerReportView> {
    reports.map_values(|report: PeerReport| report@)
}

/// Where a peer serves its chain: `http://`, the peer's address, `/chain`.
pub open spec fn chain_url(address: Seq<char>) -> Seq<char> {
    "http://"@ + address + "/chain"@
}

/// Writes the URL at which the peer at `address` serves its chain.
pub fn peer_chain_url(address: &str) -> (url: String)
    ensures
        url@ == chain_url(address@),
{
    let mut url = "http://".to_owned();
    url.append(address);
    url.append("/chain");
    url
}

/// A reported chain is adopted when the length that the peer claims exceeds
/// the length of the local chain and the reported chain is valid.
pub open spec fn adopts(local: Seq<BlockView>, report: FullChainView) -> bool {
    report.length > local.len() && chain_is_valid(report.chain)
}

/// The local chain after one report: the reported chain where it is adopted,
/// the local chain as it was where it is not.
pub open spec fn after_report(local: Seq<BlockView>, report: FullChainView) -> Seq<BlockView> {
    if adopts(local, report) {
        report.chain
    } else {
        local
    }
}

/// Where a pass over the peers' reports ends.
pub struct Resolution {
    /// The local chain after the pass.
    pub chain: Seq<BlockView>,
    /// Whether the local chain was replaced, or the failure that ended the
    /// pass.
    pub outcome: Result<bool, LedgerError>,
}

/// Adds what happened before to the outcome of the rest of a pass.
pub open spec fn and_before(replaced: bool, rest: Result<bool, LedgerError>) -> Result<
    bool,
    LedgerError,
> {
    match rest {
        Ok(later) => Ok(replaced || later),
        Err(failure) => Err(failure),
    }
}

/// One pass over the reports, in their order: each reported chain is held
/// against the local chain as the reports before it left it, and the first
/// report of a failure ends the pass with what was adopted until then.
pub open spec fn resolution(local: Seq<BlockView>, reports: Seq<PeerReportView>) -> Resolution
    decreases reports.len(),
{
    if reports.len() == 0 {
        Resolution { chain: local, outcome: Ok(false) }
    } else {
        match reports[0] {
            PeerReportView::Unreachable => Resolution {
                chain: local,
                outcome: Err(LedgerError::PeerUnreachable),
            },
            PeerReportView::Invalid => Resolution {
                chain: local,
                outcome: Err(LedgerError::PeerResponseInvalid),
            },
            PeerReportView::Chain(report) => {
                let rest = resolution(after_report(local, report), reports.drop_first());
                Resolution {
                    chain: rest.chain,
                    outcome: and_before(adopts(local, report), rest.outcome),
                }
            },
        }
    }
}

/// A report does not overstate its chain when the length that it claims is
/// at most the number of blocks that it holds.
pub open spec fn claims_no_more(report: PeerReportView) -> bool {
    match report {
        PeerReportView::Chain(report) => report.length <= report.chain.len(),
        _ => true,
    }
}

/// A pass over reports that do not overstate their chains never leaves the
/// local chain shorter than it was.
pub proof fn lemma_resolution_never_shortens(local: Seq<BlockView>, reports: Seq<PeerReportView>)
    requires
        forall|i: int| 0 <= i < reports.len() ==> claims_no_more(#[trigger] reports[i]),
    ensures
        resolution(local, reports).chain.len() >= local.len(),
    decreases reports.len(),
{
    if reports.len() > 0 {
        match reports[0] {
            PeerReportView::Chain(report) => {
                let rest = reports.drop_first();
                assert(claims_no_more(reports[0]));
                assert forall|i: int| 0 <= i < rest.len() implies claims_no_more(
                    #[trigger] rest[i],
                ) by {
                    assert(rest[i] == reports[i + 1]);
                }
                lemma_resolution_never_shortens(after_report(local, report), rest);
            },
            _ => {},
        }
    }
}

/// A pass leaves a chain with a block where the local chain had one.
pub proof fn lemma_resolution_keeps_a_block(local: Seq<BlockView>, reports: Seq<PeerReportView>)
    requires
        local.len() > 0,
    ensures
        resolution(local, reports).chain.len() > 0,
    decreases reports.len(),
{
    if reports.len() > 0 {
        match reports[0] {
            PeerReportView::Chain(report) => {
                lemma_resolution_keeps_a_block(after_report(local, report), reports.drop_first());
            },
            _ => {},
        }
    }
}

} // verus!
