//! A small password library: a credential value (`Passkey`) that can be held
//! in the clear, as an irreversible SHA-512 digest, or encrypted under a
//! passphrase-seeded keystream cipher, together with an in-memory store
//! (`PassManager`) that indexes credentials by site metadata and merges
//! duplicates on insertion.

pub mod codec;
pub mod passkey;
pub mod store;

pub use passkey::Passkey;
pub use store::Data;
pub use store::LoadPasswordsError;
pub use store::PassManager;
pub use store::Password;
