//! Kerberos credential caches: FILE (versions 1 to 4) and MEMORY formats.
use vstd::prelude::*;

use crate::asn1::{dup_list, Asn1, Dup, FlagBits};
use crate::bytes::copy;
use crate::der::{list_view, opt_view};
use crate::protocol::credential::{Credential, CredentialV, TicketTimes, TicketTimesV};
use crate::time::{KerberosTime, TimeV};
use crate::types::{AuthorizationDataElement, AuthorizationDataElementV, EncryptionKey, EncryptionKeyV, HostAddress, HostAddressV, PrincipalName, PrincipalNameV, Ticket, TicketFlags};

pub mod config;
pub mod file;
pub mod laws;
pub mod marshal;
pub mod memory;
pub mod retrieve;

pub use config::{config_cred, config_matches, config_principal, is_config_principal, unparse_name};
pub use file::FileCcache;
pub use memory::MemoryCcache;
pub use retrieve::{creds_match_request, retrieve_in};

verus! {

/// The realm used for cache config entries.
pub const CONFIG_REALM: &'static str = "X-CACHECONF:";

/// The realm a removed config entry is rewritten to.
pub const REMOVED_CONFIG_REALM: &'static str = "X-RMED-CONF:";

/// First component of every config entry server principal.
pub const CONFIG_PRINC: &'static str = "krb5_ccache_conf_data";

/// A credential as stored in a cache.
#[derive(Debug, Clone)]
pub struct CcCredential {
    /// Client principal.
    pub client: PrincipalName,
    /// Client realm.
    pub crealm: String,
    /// Server principal.
    pub server: PrincipalName,
    /// Server realm.
    pub srealm: String,
    /// Session key (etype 0 and an empty key when there is none).
    pub keyblock: EncryptionKey,
    /// Time of initial authentication (unix seconds).
    pub authtime: u32,
    /// Start of validity; 0 = none.
    pub starttime: u32,
    /// Expiration time.
    pub endtime: u32,
    /// Renew-till; 0 = none.
    pub renew_till: u32,
    /// Ticket is encrypted in the session key (user-to-user).
    pub is_skey: bool,
    /// Ticket flags: the first 32 bits of the BIT STRING, first bit highest.
    pub ticket_flags: u32,
    /// Client addresses.
    pub addresses: Vec<HostAddress>,
    /// Authorization data.
    pub authdata: Vec<AuthorizationDataElement>,
    /// DER-encoded Ticket.
    pub ticket: Vec<u8>,
    /// Second ticket (user-to-user TGT).
    pub second_ticket: Vec<u8>,
}

/// Model of [`CcCredential`].
#[verifier::ext_equal]
pub struct CcCredentialV {
    pub client: PrincipalNameV,
    pub crealm: Seq<char>,
    pub server: PrincipalNameV,
    pub srealm: Seq<char>,
    pub keyblock: EncryptionKeyV,
    pub authtime: u32,
    pub starttime: u32,
    pub endtime: u32,
    pub renew_till: u32,
    pub is_skey: bool,
    pub ticket_flags: u32,
    pub addresses: Seq<HostAddressV>,
    pub authdata: Seq<AuthorizationDataElementV>,
    pub ticket: Seq<u8>,
    pub second_ticket: Seq<u8>,
}

impl View for CcCredential {
    type V = CcCredentialV;

    open spec fn view(&self) -> CcCredentialV {
        CcCredentialV {
            client: self.client@,
            crealm: self.crealm@,
            server: self.server@,
            srealm: self.srealm@,
            keyblock: self.keyblock@,
            authtime: self.authtime,
            starttime: self.starttime,
            endtime: self.endtime,
            renew_till: self.renew_till,
            is_skey: self.is_skey,
            ticket_flags: self.ticket_flags,
            addresses: list_view(self.addresses@),
            authdata: list_view(self.authdata@),
            ticket: self.ticket@,
            second_ticket: self.second_ticket@,
        }
    }
}

impl Dup for CcCredential {
    fn dup(&self) -> (r: Self) {
        CcCredential {
            client: self.client.dup(),
            crealm: self.crealm.clone(),
            server: self.server.dup(),
            srealm: self.srealm.clone(),
            keyblock: self.keyblock.dup(),
            authtime: self.authtime,
            starttime: self.starttime,
            endtime: self.endtime,
            renew_till: self.renew_till,
            is_skey: self.is_skey,
            ticket_flags: self.ticket_flags,
            addresses: dup_list(&self.addresses),
            authdata: dup_list(&self.authdata),
            ticket: copy(&self.ticket),
            second_ticket: copy(&self.second_ticket),
        }
    }
}

/// The 32-bit form of a time: the largest number stands for what does not
/// fit.
pub open spec fn short_time(t: TimeV) -> u32 {
    if 0 <= t.secs <= u32::MAX { t.secs as u32 } else { u32::MAX }
}

/// The 32-bit form of a time that may be absent.
pub open spec fn short_opt_time(t: Option<TimeV>) -> u32 {
    match t {
        Some(t) => short_time(t),
        None => 0,
    }
}

/// The time of a 32-bit form.
pub open spec fn long_time(u: u32) -> TimeV {
    TimeV { secs: u as i64, nanos: 0 }
}

/// The time of a 32-bit form in which zero stands for no time.
pub open spec fn long_opt_time(u: u32) -> Option<TimeV> {
    if u == 0 { None } else { Some(long_time(u)) }
}

/// A list, or the empty list in place of none.
pub open spec fn or_empty<T>(o: Option<Seq<T>>) -> Seq<T> {
    match o {
        Some(s) => s,
        None => Seq::empty(),
    }
}

/// A list, or none in place of the empty list.
pub open spec fn unless_empty<T>(s: Seq<T>) -> Option<Seq<T>> {
    if s.len() == 0 { None } else { Some(s) }
}

/// A credential in the form that a cache stores.
pub open spec fn cached_form(c: CredentialV) -> CcCredentialV {
    CcCredentialV {
        client: c.client,
        crealm: c.crealm,
        server: c.server,
        srealm: c.srealm,
        keyblock: c.session_key,
        authtime: short_time(c.times.authtime),
        starttime: short_opt_time(c.times.starttime),
        endtime: short_time(c.times.endtime),
        renew_till: short_opt_time(c.times.renew_till),
        is_skey: false,
        ticket_flags: c.flags,
        addresses: or_empty(c.addresses),
        authdata: or_empty(c.authdata),
        ticket: Ticket::der(c.ticket),
        second_ticket: Seq::empty(),
    }
}

/// The credential of a cached form. The ticket must decode; flags without a
/// name are dropped.
pub open spec fn credential_form(c: CcCredentialV) -> Result<CredentialV, CcError> {
    match Ticket::parse(c.ticket) {
        None => Err(CcError::Format),
        Some(ticket) => Ok(
            CredentialV {
                client: c.client,
                crealm: c.crealm,
                server: c.server,
                srealm: c.srealm,
                session_key: c.keyblock,
                times: TicketTimesV {
                    authtime: long_time(c.authtime),
                    starttime: long_opt_time(c.starttime),
                    endtime: long_time(c.endtime),
                    renew_till: long_opt_time(c.renew_till),
                },
                ticket,
                flags: c.ticket_flags & TicketFlags::ALL,
                addresses: unless_empty(c.addresses),
                authdata: unless_empty(c.authdata),
            },
        ),
    }
}

/// Whether a time is a whole second that 32 bits hold.
pub open spec fn fits_short(t: TimeV) -> bool {
    0 <= t.secs <= u32::MAX && t.nanos == 0
}

/// Whether a time, if there is one, is a whole second other than zero that
/// 32 bits hold.
pub open spec fn fits_short_opt(t: Option<TimeV>) -> bool {
    t matches Some(t) ==> fits_short(t) && t.secs != 0
}

/// Whether the cached form keeps all there is to a credential.
pub open spec fn cachable(c: CredentialV) -> bool {
    &&& fits_short(c.times.authtime)
    &&& fits_short_opt(c.times.starttime)
    &&& fits_short(c.times.endtime)
    &&& fits_short_opt(c.times.renew_till)
    &&& c.flags & TicketFlags::ALL == c.flags
    &&& c.addresses matches Some(a) ==> a.len() > 0
    &&& c.authdata matches Some(a) ==> a.len() > 0
}

fn to_short(t: &KerberosTime) -> (r: u32)
    ensures
        r == short_time(t@),
{
    let s: i64 = t.timestamp();
    if s >= 0 && s <= 0xffff_ffff { s as u32 } else { u32::MAX }
}

fn to_short_opt(t: &Option<KerberosTime>) -> (r: u32)
    ensures
        r == short_opt_time(opt_view(*t)),
{
    match t {
        Some(t) => to_short(t),
        None => 0,
    }
}

fn to_long(u: u32) -> (r: KerberosTime)
    ensures
        r@ == long_time(u),
{
    KerberosTime::from_secs(u as i64)
}

fn to_long_opt(u: u32) -> (r: Option<KerberosTime>)
    ensures
        opt_view(r) == long_opt_time(u),
{
    if u == 0 { None } else { Some(to_long(u)) }
}

fn list_or_empty<T: Dup>(o: &Option<Vec<T>>) -> (r: Vec<T>)
    ensures
        list_view(r@) == or_empty(crate::asn1::opt_list_view(*o)),
{
    match o {
        Some(v) => dup_list(v),
        None => {
            let none: Vec<T> = Vec::new();
            assert(list_view(none@) =~= Seq::empty());
            none
        },
    }
}

fn list_unless_empty<T: Dup>(v: &Vec<T>) -> (r: Option<Vec<T>>)
    ensures
        crate::asn1::opt_list_view(r) == unless_empty(list_view(v@)),
{
    if v.len() == 0 { None } else { Some(dup_list(v)) }
}

impl CcCredential {
    /// The form of a credential that a cache stores. Where that form keeps
    /// all there is to it, the credential comes back from it.
    pub fn from_credential(c: &Credential) -> (r: CcCredential)
        ensures
            r@ == cached_form(c@),
            cachable(c@) ==> credential_form(r@) == Ok::<CredentialV, CcError>(c@),
    {
        let r = CcCredential {
            client: c.client.dup(),
            crealm: c.crealm.clone(),
            server: c.server.dup(),
            srealm: c.srealm.clone(),
            keyblock: c.session_key.dup(),
            authtime: to_short(&c.times.authtime),
            starttime: to_short_opt(&c.times.starttime),
            endtime: to_short(&c.times.endtime),
            renew_till: to_short_opt(&c.times.renew_till),
            is_skey: false,
            ticket_flags: c.flags.bits,
            addresses: list_or_empty(&c.addresses),
            authdata: list_or_empty(&c.authdata),
            ticket: c.ticket.encode(),
            second_ticket: Vec::new(),
        };
        assert(r@ =~= cached_form(c@));
        r
    }

    /// The credential of this cached form.
    pub fn to_credential(&self) -> (r: Result<Credential, CcError>)
        ensures
            cc_outcome(r) == credential_form(self@),
    {
        let ticket = match <Ticket as Asn1>::decode(&self.ticket) {
            Some(t) => t,
            None => return Err(CcError::Format),
        };
        Ok(Credential {
            client: self.client.dup(),
            crealm: self.crealm.clone(),
            server: self.server.dup(),
            srealm: self.srealm.clone(),
            session_key: self.keyblock.dup(),
            times: TicketTimes {
                authtime: to_long(self.authtime),
                starttime: to_long_opt(self.starttime),
                endtime: to_long(self.endtime),
                renew_till: to_long_opt(self.renew_till),
            },
            ticket,
            flags: FlagBits::new(self.ticket_flags & TicketFlags::ALL),
            addresses: list_unless_empty(&self.addresses),
            authdata: list_unless_empty(&self.authdata),
        })
    }
}

/// Credential cache errors (KRB5_CC_*).
#[derive(Debug, Clone, Copy, PartialEq, Eq, Structural)]
pub enum CcError {
    /// Malformed data (KRB5_CC_FORMAT).
    Format,
    /// Unknown file version (KRB5_CCACHE_BADVNO).
    BadVno,
    /// Iteration reached the end (KRB5_CC_END).
    End,
    /// No matching credential (KRB5_CC_NOTFOUND).
    NotFound,
    /// Match found but with an unsupported enctype (KRB5_CC_NOT_KTYPE).
    NotKtype,
    /// I/O error.
    Io,
}

impl CcError {
    /// The message text of this error.
    pub open spec fn text(self) -> Seq<char> {
        match self {
            CcError::Format => "ccache format error"@,
            CcError::BadVno => "bad ccache version"@,
            CcError::End => "end of ccache"@,
            CcError::NotFound => "credential not found"@,
            CcError::NotKtype => "no credential with a supported enctype"@,
            CcError::Io => "ccache I/O error"@,
        }
    }

    /// The message text of this error.
    pub fn message(&self) -> (r: String)
        ensures
            r@ == self.text(),
    {
        let s = match self {
            CcError::Format => "ccache format error",
            CcError::BadVno => "bad ccache version",
            CcError::End => "end of ccache",
            CcError::NotFound => "credential not found",
            CcError::NotKtype => "no credential with a supported enctype",
            CcError::Io => "ccache I/O error",
        };
        s.to_string()
    }
}

/// What a cache operation returned, by its views.
pub open spec fn cc_outcome<T: View>(r: Result<T, CcError>) -> Result<T::V, CcError> {
    match r {
        Ok(x) => Ok(x@),
        Err(e) => Err(e),
    }
}

/// What listing a cache returned, by its views.
pub open spec fn cc_list(r: Result<Vec<CcCredential>, CcError>) -> Result<Seq<CcCredentialV>, CcError> {
    match r {
        Ok(v) => Ok(list_view(v@)),
        Err(e) => Err(e),
    }
}

/// What a search that may find nothing returned, by its views.
pub open spec fn cc_opt(r: Result<Option<Vec<u8>>, CcError>) -> Result<Option<Seq<u8>>, CcError> {
    match r {
        Ok(v) => Ok(opt_view(v)),
        Err(e) => Err(e),
    }
}

/// Match flags controlling credential retrieval (KRB5_TC_*).
pub struct MatchFlags;

impl MatchFlags {
    /// Expiration must be no later than requested.
    pub const TIMES: u32 = 1;
    /// Match is_skey exactly.
    pub const IS_SKEY: u32 = 2;
    /// Requested flag bits must be set.
    pub const FLAGS: u32 = 4;
    /// All four times must match exactly.
    pub const TIMES_EXACT: u32 = 8;
    /// All flag bits must match exactly.
    pub const FLAGS_EXACT: u32 = 0x10;
    /// Authorization data must match.
    pub const AUTHDATA: u32 = 0x20;
    /// Server comparison ignores realm.
    pub const SRV_NAMEONLY: u32 = 0x40;
    /// Second ticket must match.
    pub const SECOND_TKT: u32 = 0x80;
    /// Session key enctype must match.
    pub const KTYPE: u32 = 0x100;
    /// Restrict to the given list of supported enctypes.
    pub const SUPPORTED_KTYPES: u32 = 0x200;
}

/// A credential match request.
#[derive(Debug)]
pub struct MatchCred {
    /// Client principal + realm (None = any).
    pub client: Option<(PrincipalName, String)>,
    /// Server principal + realm (None = any).
    pub server: Option<(PrincipalName, String)>,
    /// Required session key enctype (with KTYPE).
    pub etype: i32,
    /// Required authtime (TIMES_EXACT).
    pub authtime: u32,
    /// Required starttime (TIMES_EXACT).
    pub starttime: u32,
    /// Maximum endtime (TIMES) / exact endtime (TIMES_EXACT).
    pub endtime: u32,
    /// Maximum renew_till (TIMES) / exact renew_till (TIMES_EXACT).
    pub renew_till: u32,
    /// Required is_skey value (with IS_SKEY).
    pub is_skey: bool,
    /// Required ticket flags (FLAGS/FLAGS_EXACT).
    pub ticket_flags: u32,
    /// Required authdata (AUTHDATA); None = empty list.
    pub authdata: Option<Vec<AuthorizationDataElement>>,
    /// Required second ticket (SECOND_TKT); None = empty.
    pub second_ticket: Option<Vec<u8>>,
}

/// Model of [`MatchCred`].
pub struct MatchCredV {
    pub client: Option<(PrincipalNameV, Seq<char>)>,
    pub server: Option<(PrincipalNameV, Seq<char>)>,
    pub etype: i32,
    pub authtime: u32,
    pub starttime: u32,
    pub endtime: u32,
    pub renew_till: u32,
    pub is_skey: bool,
    pub ticket_flags: u32,
    pub authdata: Option<Seq<AuthorizationDataElementV>>,
    pub second_ticket: Option<Seq<u8>>,
}

impl View for MatchCred {
    type V = MatchCredV;

    open spec fn view(&self) -> MatchCredV {
        MatchCredV {
            client: opt_view(self.client),
            server: opt_view(self.server),
            etype: self.etype,
            authtime: self.authtime,
            starttime: self.starttime,
            endtime: self.endtime,
            renew_till: self.renew_till,
            is_skey: self.is_skey,
            ticket_flags: self.ticket_flags,
            authdata: crate::asn1::opt_list_view(self.authdata),
            second_ticket: opt_view(self.second_ticket),
        }
    }
}

/// The request that asks for nothing in particular.
pub open spec fn match_any() -> MatchCredV {
    MatchCredV {
        client: None,
        server: None,
        etype: 0,
        authtime: 0,
        starttime: 0,
        endtime: 0,
        renew_till: 0,
        is_skey: false,
        ticket_flags: 0,
        authdata: None,
        second_ticket: None,
    }
}

impl Default for MatchCred {
    fn default() -> (r: Self)
        ensures
            r@ == match_any(),
    {
        MatchCred {
            client: None,
            server: None,
            etype: 0,
            authtime: 0,
            starttime: 0,
            endtime: 0,
            renew_till: 0,
            is_skey: false,
            ticket_flags: 0,
            authdata: None,
            second_ticket: None,
        }
    }
}

/// A credential cache. Reading a cache may change what it remembers of its
/// contents, so that every operation takes it by `&mut`.
pub trait Ccache: View + Sized {
    /// The cache after its contents are read.
    spec fn seen(v: Self::V) -> Self::V;

    /// The cache after it is initialized.
    spec fn initialized(v: Self::V, client: PrincipalNameV, realm: Seq<char>) -> Self::V;

    /// The default principal of a cache.
    spec fn owner(v: Self::V) -> Result<(PrincipalNameV, Seq<char>), CcError>;

    /// The credentials of a cache.
    spec fn listed(v: Self::V) -> Result<Seq<CcCredentialV>, CcError>;

    /// The cache after a credential is stored, and what storing it returns.
    spec fn stored(v: Self::V, cred: CcCredentialV) -> (Self::V, Result<(), CcError>);

    /// The cache after the first credential that fits a request is removed,
    /// and what removing it returns.
    spec fn removed(v: Self::V, flags: u32, m: MatchCredV) -> (Self::V, Result<(), CcError>);

    /// Initialize the cache, discarding contents.
    fn initialize(&mut self, client: &PrincipalName, realm: &str) -> (r: Result<(), CcError>)
        ensures
            r is Ok,
            final(self)@ == Self::initialized(old(self)@, client@, realm@),
    ;

    /// The cache's default principal.
    fn principal(&mut self) -> (r: Result<(PrincipalName, String), CcError>)
        ensures
            final(self)@ == Self::seen(old(self)@),
            cc_outcome(r) == Self::owner(old(self)@),
    ;

    /// Store a credential.
    fn store(&mut self, cred: &CcCredential) -> (r: Result<(), CcError>)
        ensures
            (final(self)@, r) == Self::stored(old(self)@, cred@),
    ;

    /// All credentials, skipping entries removed in place.
    fn creds(&mut self) -> (r: Result<Vec<CcCredential>, CcError>)
        ensures
            final(self)@ == Self::seen(old(self)@),
            cc_list(r) == Self::listed(old(self)@),
    ;

    /// Remove the first credential matching `m` under `flags`.
    fn remove_cred(&mut self, flags: u32, m: &MatchCred) -> (r: Result<(), CcError>)
        ensures
            (final(self)@, r) == Self::removed(old(self)@, flags, m@),
    ;

    /// Retrieve a credential. With `ktypes`, the earliest-listed supported
    /// enctype wins; a match with no listed enctype yields
    /// [`CcError::NotKtype`].
    fn retrieve(&mut self, flags: u32, m: &MatchCred, ktypes: Option<&[i32]>) -> (r: Result<CcCredential, CcError>)
        ensures
            final(self)@ == Self::seen(old(self)@),
            cc_outcome(r) == (match Self::listed(old(self)@) {
                Ok(cs) => retrieve::retrieve_spec(cs, flags, m@, opt_view(ktypes)),
                Err(e) => Err(e),
            }),
    {
        match self.creds() {
            Ok(cs) => retrieve_in(&cs, flags, m, ktypes),
            Err(e) => Err(e),
        }
    }

    /// Store a config value: an entry there may be is removed, then the new
    /// one stored. `data` of None only removes the entry.
    fn set_config(&mut self, principal: Option<(&PrincipalName, &str)>, key: &str, data: Option<&[u8]>) -> (r: Result<
        (),
        CcError,
    >)
        ensures
            ({
                let target = config::config_principal_spec(opt_view(principal), key@);
                let v1 = Self::removed(old(self)@, 0, config::config_request_spec(target)).0;
                (final(self)@, r) == (match data {
                    None => (v1, Ok(())),
                    Some(d) => match Self::owner(v1) {
                        Err(e) => (Self::seen(v1), Err(e)),
                        Ok((client, realm)) => Self::stored(
                            Self::seen(v1),
                            config::config_cred_spec(client, realm, opt_view(principal), key@, d@),
                        ),
                    },
                })
            }),
    {
        let target = config_principal(principal, key);
        let m = config::config_request(target);
        let _ = self.remove_cred(0, &m);
        match data {
            None => Ok(()),
            Some(data) => match self.principal() {
                Err(e) => Err(e),
                Ok((client, realm)) => {
                    let cred = config_cred(&client, &realm, principal, key, data);
                    self.store(&cred)
                },
            },
        }
    }

    /// Fetch a config value, or None if absent.
    fn get_config(&mut self, principal: Option<(&PrincipalName, &str)>, key: &str) -> (r: Result<Option<Vec<u8>>, CcError>)
        ensures
            final(self)@ == Self::seen(old(self)@),
            cc_opt(r) == (match Self::listed(old(self)@) {
                Ok(cs) => Ok(config::find_config(cs, opt_view(principal), key@)),
                Err(e) => Err(e),
            }),
    {
        match self.creds() {
            Ok(cs) => Ok(config::config_in(&cs, principal, key)),
            Err(e) => Err(e),
        }
    }
}

} // verus!
