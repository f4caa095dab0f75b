//! Estimates how long a scripted, multi-phase boss encounter takes to defeat
//! under randomized combat outcomes, by running many independent simulated
//! trials and aggregating mean, best-case and success-rate statistics.

pub mod damage_log;
pub mod rng;
pub mod simulator;
pub mod zulrah;
