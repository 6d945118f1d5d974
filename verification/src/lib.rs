//! Optimistic aggregation of validator votes, with the wire messages of the
//! remote executor service.

pub mod gas_limits;
pub mod lru_cache;
pub mod optimistic_validator_verifier;
pub mod remote_executor;
pub mod validator_verifier;

pub use gas_limits::{gas_limit_variants_from, get_gas_limit_variants};
pub use optimistic_validator_verifier::{
    NextStep, OptimisticValidatorVerifier, VerificationResult, RECENT_AGGREGATED_BLOCKS,
};
pub use remote_executor::{Empty, NetworkMessage};
pub use validator_verifier::{ValidatorVerifier, VerifyError};
