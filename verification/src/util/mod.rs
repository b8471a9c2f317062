pub mod image;
pub mod polysolver;
pub mod scalar;
pub mod stability;
