//! State and geometry layout of a ribbon trail that follows a moving object:
//! points with unique ids and lifetimes, the three-sample anchor window, the
//! committed point store, Chaikin corner cutting and the triangle-strip layout.

pub mod laws;
pub mod point;
pub mod smoother;
pub mod strip;
pub mod trail;
