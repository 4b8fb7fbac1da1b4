//! The edge agent: profiles, the capability plans made from them, and the
//! checks that stand between a plan and a router.
pub mod canary;
pub mod capabilities;
pub mod check;
pub mod drift;
pub mod executor;
pub mod freebsd;
pub mod gcp;
pub mod journal;
pub mod masque;
pub mod planner;
pub mod probes;
pub mod profiles;
pub mod rollback;
pub mod secrets;
pub mod substrate;
pub mod tribunal;
pub mod uci;
pub mod watchdog;
