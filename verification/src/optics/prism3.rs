//! The prism traits and the prism made of two functions, reachable under
//! this path too; they are those of [`prism2`](crate::optics::prism2).
pub use crate::optics::prism2::{Prism, PrismImpl, PrismModify, PrismPreview, PrismReview, PrismSet, PrismTryModify};
