//! What can be relied on across operations. Each law is a proof function that
//! states it over the steps and outcomes of the operations' contracts.

pub mod access;
pub mod allowances;
pub mod exact;
pub mod helpers;
pub mod issuance;
pub mod kyc;
pub mod methods;
pub mod publication;
pub mod readings;
pub mod records;
pub mod recovery;
pub mod settlement;
pub mod silence;
pub mod transfers;
pub mod verdicts;
