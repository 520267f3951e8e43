//! Verified core of an indexing node for the ergvein mobile wallet: the
//! storage layout of compact block filters, the coin records kept for filter
//! construction, the wire framing of protocol messages, and the decisions of
//! the client handshake and of the filter service.

pub mod codec;
pub mod coin;
pub mod explorer;
pub mod fee;
pub mod height;
pub mod inputs;
pub mod logic;
pub mod protocol;
pub mod store;
pub mod sync;
