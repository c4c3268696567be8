//! Principal names and flag sets.
use vstd::prelude::*;
use vstd::utf8::encode_utf8;

use crate::asn1::{general_ok, FlagBits, GeneralString};
use crate::bytes::same;
use crate::der::list_view;
use crate::types::common::{HostAddress, PrincipalName, PrincipalNameV};

verus! {

/// Flags of a ticket.
pub struct TicketFlags;

impl TicketFlags {
    /// The ticket may be forwarded.
    pub const FORWARDABLE: u32 = 0x4000_0000;
    /// The ticket was forwarded.
    pub const FORWARDED: u32 = 0x2000_0000;
    /// The ticket may be proxied.
    pub const PROXIABLE: u32 = 0x1000_0000;
    /// The ticket is a proxy.
    pub const PROXY: u32 = 0x0800_0000;
    /// The ticket may be postdated.
    pub const MAY_POSTDATE: u32 = 0x0400_0000;
    /// The ticket was postdated.
    pub const POSTDATED: u32 = 0x0200_0000;
    /// The ticket is invalid.
    pub const INVALID: u32 = 0x0100_0000;
    /// The ticket may be renewed.
    pub const RENEWABLE: u32 = 0x0080_0000;
    /// The ticket was issued by an AS exchange.
    pub const INITIAL: u32 = 0x0040_0000;
    /// The client was authenticated before the ticket was issued.
    pub const PRE_AUTHENT: u32 = 0x0020_0000;
    /// The client was authenticated by hardware.
    pub const HW_AUTHENT: u32 = 0x0010_0000;
    /// The KDC checked the transited realms.
    pub const TRANSITED_POLICY_CHECKED: u32 = 0x0008_0000;
    /// The service may be delegated to.
    pub const OK_AS_DELEGATE: u32 = 0x0004_0000;
    /// The reply holds encrypted padata.
    pub const ENC_PA_REP: u32 = 0x0001_0000;
    /// All of the flags above.
    pub const ALL: u32 = 0x7FFD_0000;
}

/// Options of a KDC request.
pub struct KdcOptions;

impl KdcOptions {
    /// Ask for a forwardable ticket.
    pub const FORWARDABLE: u32 = 0x4000_0000;
    /// Ask for a renewable ticket.
    pub const RENEWABLE: u32 = 0x0080_0000;
    /// Ask for a canonical name.
    pub const CANONICALIZE: u32 = 0x0001_0000;
}

/// Options of an AP request.
pub struct ApOptions;

impl ApOptions {
    /// The ticket is under the server's session key.
    pub const USE_SESSION_KEY: u32 = 0x4000_0000;
    /// Mutual authentication is asked for.
    pub const MUTUAL_REQUIRED: u32 = 0x2000_0000;
}

/// Whether all bits of `f` are set in `bits`.
pub open spec fn has_flags(bits: u32, f: u32) -> bool {
    bits & f == f
}

impl FlagBits {
    /// The flag set of the given bits.
    pub fn new(bits: u32) -> (r: FlagBits)
        ensures
            r@ == bits,
    {
        FlagBits { bits }
    }

    /// Whether all bits of `f` are set.
    pub fn contains(&self, f: u32) -> (r: bool)
        ensures
            r == has_flags(self@, f),
    {
        self.bits & f == f
    }
}

/// Name type of an ordinary principal.
pub const NT_PRINCIPAL: i32 = 1;
/// Name type of a service and an instance.
pub const NT_SRV_INST: i32 = 2;
/// Name type of a service on a host.
pub const NT_SRV_HST: i32 = 3;

/// The name of the given type and components.
pub open spec fn name_of(name_type: i32, parts: Seq<Seq<u8>>) -> PrincipalNameV {
    PrincipalNameV { name_type, name_string: parts }
}

fn component(s: &str) -> (r: GeneralString)
    requires
        general_ok(encode_utf8(s@)),
    ensures
        r@ == encode_utf8(s@),
{
    match GeneralString::from_bytes(s.as_bytes()) {
        Some(g) => g,
        None => {
            assert(false);
            vstd::pervasive::unreached()
        },
    }
}

impl PrincipalName {
    /// The name of one component.
    pub fn new_principal(name: &str) -> (r: PrincipalName)
        requires
            general_ok(encode_utf8(name@)),
        ensures
            r@ == name_of(NT_PRINCIPAL, seq![encode_utf8(name@)]),
    {
        let mut v: Vec<GeneralString> = Vec::new();
        v.push(component(name));
        assert(list_view(v@) =~= seq![encode_utf8(name@)]);
        PrincipalName { name_type: NT_PRINCIPAL, name_string: v }
    }

    /// The name of a service and an instance.
    pub fn new_srv_inst(service: &str, instance: &str) -> (r: PrincipalName)
        requires
            general_ok(encode_utf8(service@)),
            general_ok(encode_utf8(instance@)),
        ensures
            r@ == name_of(NT_SRV_INST, seq![encode_utf8(service@), encode_utf8(instance@)]),
    {
        let mut v: Vec<GeneralString> = Vec::new();
        v.push(component(service));
        v.push(component(instance));
        assert(list_view(v@) =~= seq![encode_utf8(service@), encode_utf8(instance@)]);
        PrincipalName { name_type: NT_SRV_INST, name_string: v }
    }

    /// The name of a service on a host.
    pub fn new_srv_hst(service: &str, host: &str) -> (r: PrincipalName)
        requires
            general_ok(encode_utf8(service@)),
            general_ok(encode_utf8(host@)),
        ensures
            r@ == name_of(NT_SRV_HST, seq![encode_utf8(service@), encode_utf8(host@)]),
    {
        let mut v: Vec<GeneralString> = Vec::new();
        v.push(component(service));
        v.push(component(host));
        assert(list_view(v@) =~= seq![encode_utf8(service@), encode_utf8(host@)]);
        PrincipalName { name_type: NT_SRV_HST, name_string: v }
    }

    /// The name without type and components.
    pub fn empty() -> (r: PrincipalName)
        ensures
            r@ == name_of(0, Seq::empty()),
    {
        let v: Vec<GeneralString> = Vec::new();
        assert(list_view(v@) =~= Seq::empty());
        PrincipalName { name_type: 0, name_string: v }
    }

    /// Whether two names have the same components.
    pub fn same_components(&self, other: &PrincipalName) -> (r: bool)
        ensures
            r == (self@.name_string == other@.name_string),
    {
        if self.name_string.len() != other.name_string.len() {
            assert(self@.name_string.len() != other@.name_string.len());
            return false;
        }
        let mut i: usize = 0;
        while i < self.name_string.len()
            invariant
                self.name_string@.len() == other.name_string@.len(),
                i <= self.name_string@.len(),
                forall|j: int| 0 <= j < i ==> (#[trigger] self.name_string@[j])@ == other.name_string@[j]@,
            decreases self.name_string@.len() - i,
        {
            if !self.name_string[i].same(&other.name_string[i]) {
                assert(self@.name_string[i as int] != other@.name_string[i as int]);
                return false;
            }
            i = i + 1;
        }
        assert(self@.name_string =~= other@.name_string);
        true
    }

    /// Whether two names have the same type and components.
    pub fn same(&self, other: &PrincipalName) -> (r: bool)
        ensures
            r == (self@ == other@),
    {
        self.name_type == other.name_type && self.same_components(other)
    }
}

impl HostAddress {
    /// Whether two addresses are the same.
    pub fn same(&self, other: &HostAddress) -> (r: bool)
        ensures
            r == (self@ == other@),
    {
        self.addr_type == other.addr_type && same(&self.address, &other.address)
    }
}

} // verus!
