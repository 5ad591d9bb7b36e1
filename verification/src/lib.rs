//! Numeric micro-kernels: wrapping summation of 32-bit integer buffers and
//! population counting over byte buffers. Each kernel family offers a scalar
//! baseline and a lane-parallel variant with the same contract; the sum family
//! adds a dispatcher that picks a strategy from a caller preference and a
//! runtime processor-capability probe.

pub mod popcount;
pub mod sum;

pub use popcount::bit_count_u8_avx2;
pub use popcount::bit_count_u8_scalar;
pub use popcount::bit_count_u8_slice_avx2;
pub use popcount::bit_count_u8_slice_scalar;
pub use popcount::bit_count_u8_slice_table;
pub use popcount::OversizedInput;
pub use popcount::BIT_COUNT_AVX2_LEN_LIMIT;
pub use sum::sum;
pub use sum::sum_avx2;
pub use sum::sum_scalar;
