//! The values that the ChronoPay ledger stores and reports.

use vstd::prelude::*;

verus! {

/// Errors that a ChronoPay entry point answers a refused request with.
#[derive(Clone, Copy, Debug, PartialEq, Eq, Structural)]
pub enum ChronoPayError {
    /// The caller is not authorized to perform this operation.
    Unauthorized,
    /// The professional is not authorized to create time slots.
    ProfessionalNotAuthorized,
    /// The professional is already authorized.
    AlreadyAuthorized,
    /// The professional is not found in the registry.
    ProfessionalNotFound,
    /// Invalid input parameters provided.
    InvalidInput,
    /// Admin operation failed (no admin has been set).
    AdminError,
}

impl ChronoPayError {
    /// The numeric contract-error code of this error.
    pub open spec fn spec_code(self) -> u32 {
        match self {
            ChronoPayError::Unauthorized => 1,
            ChronoPayError::ProfessionalNotAuthorized => 2,
            ChronoPayError::AlreadyAuthorized => 3,
            ChronoPayError::ProfessionalNotFound => 4,
            ChronoPayError::InvalidInput => 5,
            ChronoPayError::AdminError => 6,
        }
    }

    /// The numeric contract-error code of this error (1 to 6, in declaration order).
    pub fn code(&self) -> (c: u32)
        ensures
            c == self.spec_code(),
    {
        match self {
            ChronoPayError::Unauthorized => 1,
            ChronoPayError::ProfessionalNotAuthorized => 2,
            ChronoPayError::AlreadyAuthorized => 3,
            ChronoPayError::ProfessionalNotFound => 4,
            ChronoPayError::InvalidInput => 5,
            ChronoPayError::AdminError => 6,
        }
    }
}

/// Status of a time token.
#[derive(Clone, Copy, Debug, PartialEq, Eq, Structural)]
pub enum TimeTokenStatus {
    Available,
    Sold,
    Redeemed,
}

/// Metadata stored for each professional.
#[derive(Debug, PartialEq, Eq)]
pub struct ProfessionalMetadata {
    /// Display name of the professional.
    pub name: String,
    /// Verification timestamp.
    pub verified_at: u64,
    /// Professional category/specialization.
    pub category: String,
}

impl Clone for ProfessionalMetadata {
    fn clone(&self) -> (res: Self)
        ensures
            res == *self,
    {
        ProfessionalMetadata {
            name: self.name.clone(),
            verified_at: self.verified_at,
            category: self.category.clone(),
        }
    }
}

/// What the ledger holds of a time token: its owner, if one was recorded,
/// and its status.
#[derive(Debug, PartialEq, Eq)]
pub struct TokenEntry {
    /// Owner of the token (its minter, then its last buyer).
    pub owner: Option<String>,
    /// Status of the token.
    pub status: TimeTokenStatus,
}

impl Clone for TokenEntry {
    fn clone(&self) -> (res: Self)
        ensures
            res == *self,
    {
        let owner = match &self.owner {
            Some(o) => Some(o.clone()),
            None => None,
        };
        TokenEntry { owner, status: self.status }
    }
}

} // verus!
