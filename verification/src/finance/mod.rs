//! Money on the node: identifiers, the ledger, holds, pools, payouts, and the market.
pub mod ids;
pub mod ledger;
pub mod journal;
pub mod journal_laws;
pub mod budget;
pub mod settlement;
pub mod settlement_laws;
pub mod balances;
pub mod moves;
pub mod holds;
pub mod pools;
pub mod pool_laws;
pub mod pool_run_laws;
pub mod pool_runs;
pub mod accounts;
pub mod payout_laws;
pub mod payouts;
pub mod market;
pub mod market_laws;
pub mod quotes;
pub mod reconcile;
pub mod scan;
pub mod facts;
pub mod laws;
pub mod publish_laws;
pub mod quote_laws;
pub mod hold_budget_laws;
pub mod hold_duty_laws;
pub mod hold_laws;
pub mod fault_laws;
pub mod mismatch_laws;
pub mod reconcile_laws;
pub mod audit_laws;
pub mod earning_laws;
