//! Containers for secret bytes: wiped when released, compared in constant time,
//! and handed out only through counted read and write guards.

pub mod buffer;
pub mod bytes;
pub mod cmpkey;
pub mod mem;
pub mod order;
pub mod prot;
pub mod region;
pub mod seckey;
pub mod state;
pub mod tempkey;

pub use buffer::Bytes;
pub use bytes::SecBytes;
pub use cmpkey::CmpKey;
pub use mem::zero;
pub use prot::{after_toggle, Access, Borrows, Outcome, Prot};
pub use region::Region;
pub use seckey::SecKey;
pub use state::StoreState;
pub use tempkey::{NeedsDrop, TempKey};
