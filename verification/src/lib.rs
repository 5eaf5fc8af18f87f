//! Path-prefix reverse-proxy core: route matching, round-robin upstream
//! selection and the retry state machine that drives one proxied request.

pub mod balancer;
pub mod error;
pub mod outcome;
pub mod plan;
pub mod status;
pub mod table;
pub mod target;
pub mod text;
pub mod upstream;
