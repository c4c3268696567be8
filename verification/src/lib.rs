//! A Kerberos 5 client library with machine-checked contracts.
#![allow(unused_imports)]
#![allow(clippy::all)]

pub mod asn1;
pub mod bytes;
pub mod ccache;
pub mod client;
pub mod crypto;
pub mod der;
pub mod error;
pub mod gssapi;
pub mod keytab;
pub mod laws;
pub mod locate;
pub mod order;
pub mod profile;
pub mod protocol;
pub mod text;
pub mod time;
pub mod transport;
pub mod types;

pub use error::Krb5Error;
