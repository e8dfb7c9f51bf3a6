//! Naive reference counting for arrays: a generic counted-handle layer over
//! any array representation, and its two concrete instantiations, one over
//! the fat representation and one over the thin representation.

pub mod fparc;
pub mod generic;
pub mod laws;
pub mod tparc;

pub use fparc::FpArcArray;
pub use fparc::FpStore;
pub use generic::ArcStruct;
pub use generic::RcArray;
pub use generic::RcStore;
pub use tparc::TpArcArray;
pub use tparc::TpStore;
