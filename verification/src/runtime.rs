pub mod ledger;
pub mod ledger_laws;
pub mod start;
pub mod start_laws;
