//! A lottery-number draw engine: given a pool size `N` and an amount `K`, it
//! returns `min(K, N)` distinct values drawn without replacement from
//! `[1, N]`, in the order a shuffle of the pool left them.
//!
//! The generator is process-wide state owned by the caller; a draw borrows it
//! exclusively (`&mut`) for exactly one shuffle, so concurrent callers must
//! serialize their draws — the surrounding server does so with a lock around
//! the generator.

pub mod lotto;
pub mod rng;
