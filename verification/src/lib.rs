//! Small verified numeric utilities: scalar arithmetic, integer series
//! summation, fixed-length integer vector algebra, complex numbers with
//! integer components, and small matrix determinants.

pub mod complex;
pub mod matrix;
pub mod scalar;
pub mod series;
pub mod vector;

pub use scalar::abs;
pub use scalar::plus;
pub use scalar::times;
pub use series::fold_times;
pub use series::iter_sum;
pub use series::iter_sum_2;
pub use vector::cross;
pub use vector::dot;
pub use vector::multiply;
pub use vector::multiply_scalar;
pub use vector::vec_length;
