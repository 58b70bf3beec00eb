//! Positions of seals on pages.
pub mod side;
