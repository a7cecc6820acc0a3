//! ChronoPay time token ledger with professional identity authorization.

pub mod contract;
pub mod errors;
pub mod events;
pub mod history;
pub mod laws;
pub mod schedule;
pub mod table;
pub mod types;

pub use types::{ChronoPayError, ProfessionalMetadata, TimeTokenStatus, TokenEntry};
