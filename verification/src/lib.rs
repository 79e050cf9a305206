//! Routed ropes, unilateral total-length constraints routed over ordered
//! pulley wheels and stored in a generational arena; and analytic profiles,
//! closed contours of lines and arcs with exact contacts against other shapes.
pub mod arena;
pub mod binding;
pub mod body;
pub mod contact;
pub mod laws;
pub mod profile;
pub mod profile_box;
pub mod profile_contact;
pub mod profile_interior;
pub mod profile_pair;
pub mod rope;
pub mod route;
pub mod scalar;
pub mod segment_pair;
pub mod set;
