//! Optics: lenses, which focus on a part of a whole that is always there,
//! and prisms, which focus on a part that may be there.
pub mod lens;
pub mod prism2;
pub mod prism3;
