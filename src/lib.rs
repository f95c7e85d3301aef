//! Host-side logic of a GPU number-theoretic transform over the BLS12-381
//! scalar field: field elements as plain limbs, the twiddle tables that the
//! device kernels read, and the stage schedules of the two transform paths.

pub mod field;
pub mod twiddle;
pub mod schedule;
