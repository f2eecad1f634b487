//! What a contract usually imports.

pub use crate::codec::Storable;
pub use crate::context::{context, try_context, Context};
pub use crate::crypto;
pub use crate::error::{ContractError, ContractResult};
pub use crate::events::{emit, log};
pub use crate::ffi::host::MockRuntime;
pub use crate::security::safe_math;
pub use crate::security::validation;
pub use crate::security::{AccessControl, ReentrancyGuard};
pub use crate::storage::{storage, Storage, StorageMap, Vector};
