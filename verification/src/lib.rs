//! A registry of kitties: who owns which, which descend from which, and the
//! reserve that each owner has put up for every kitty held.

pub mod dna;
pub mod escrow;
pub mod laws;
pub mod memory;
pub mod module;
pub mod random;
pub mod relation;
pub mod runtime;
pub mod storage;
pub mod types;

pub use dna::combine;
pub use dna::combine_dna;
pub use dna::Kitty;
pub use memory::MemoryRuntime;
pub use module::Module;
pub use relation::Relation;
pub use runtime::Host;
pub use runtime::Trait;
pub use storage::Storage;
pub use types::AccountId;
pub use types::Balance;
pub use types::Error;
pub use types::Event;
pub use types::InsufficientFunds;
pub use types::KittyIndex;
