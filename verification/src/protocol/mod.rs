//! The Kerberos protocol exchanges.

pub mod ap;
pub mod as_exchange;
pub mod credential;
pub mod draws;
pub mod fast;
pub mod fast_laws;
pub mod kdc_laws;
pub mod kdc_rep;
pub mod preauth;
pub mod tgs_exchange;
pub mod validate;

pub use credential::{Credential, CredentialV, TicketTimes, TicketTimesV};
