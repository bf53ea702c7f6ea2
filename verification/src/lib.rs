pub mod ops;
pub mod compose;
pub mod kernels;
pub mod partition;
pub mod validate;

pub use kernels::dot_product_simd;
