//! The random values of one step of an exchange.
use vstd::prelude::*;

use crate::crypto::primitives::random_word;
use crate::protocol::ap::{Entropy, EntropyV};

verus! {

/// Random values for one request: a nonce, and octets for the authenticator,
/// for the preauthentication data and for FAST encryption.
#[derive(Debug)]
pub struct Draws {
    /// The nonce, of which 31 bits are used.
    pub nonce: u32,
    /// For the subkey and the authenticator of an AP request.
    pub auth: Entropy,
    /// For preauthentication data.
    pub pa: Entropy,
    /// For FAST encryption.
    pub fast: Entropy,
}

/// Model of [`Draws`].
pub struct DrawsV {
    pub nonce: u32,
    pub auth: EntropyV,
    pub pa: EntropyV,
    pub fast: EntropyV,
}

impl DrawsV {
    /// Enough octets of each kind.
    pub open spec fn ok(self) -> bool {
        self.auth.ok() && self.pa.ok() && self.fast.ok()
    }

    /// The nonce of a request: 31 bits, which a KDC that reads signed numbers
    /// takes, and never 0.
    pub open spec fn request_nonce(self) -> u32 {
        let n = self.nonce % 0x8000_0000;
        if n == 0 { 1u32 } else { n }
    }
}

impl View for Draws {
    type V = DrawsV;

    open spec fn view(&self) -> DrawsV {
        DrawsV { nonce: self.nonce, auth: self.auth@, pa: self.pa@, fast: self.fast@ }
    }
}

impl Draws {
    /// Fresh random values.
    pub fn draw() -> (r: Draws)
        ensures
            r@.ok(),
    {
        Draws { nonce: random_word(), auth: Entropy::draw(), pa: Entropy::draw(), fast: Entropy::draw() }
    }

    /// The nonce of a request.
    pub fn request_nonce(&self) -> (r: u32)
        ensures
            r == self@.request_nonce(),
            0 < r < 0x8000_0000,
    {
        let n: u32 = self.nonce % 0x8000_0000;
        if n == 0 { 1 } else { n }
    }
}

} // verus!
