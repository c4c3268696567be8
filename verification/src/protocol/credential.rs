//! Credentials: a ticket with what its holder knows of it.
use vstd::prelude::*;

use crate::asn1::{dup_opt_list, opt_list_view, Dup, FlagBits};
use crate::der::opt_view;
use crate::time::{KerberosTime, TimeV};
use crate::types::{AuthorizationDataElement, AuthorizationDataElementV, EncryptionKey, EncryptionKeyV, HostAddress, HostAddressV, PrincipalName, PrincipalNameV, Ticket, TicketV};

verus! {

/// The times of a ticket.
#[derive(Debug, Clone, Copy)]
pub struct TicketTimes {
    /// Time of initial authentication.
    pub authtime: KerberosTime,
    /// Start of validity.
    pub starttime: Option<KerberosTime>,
    /// End of validity.
    pub endtime: KerberosTime,
    /// Renewable till.
    pub renew_till: Option<KerberosTime>,
}

/// Model of [`TicketTimes`].
pub struct TicketTimesV {
    pub authtime: TimeV,
    pub starttime: Option<TimeV>,
    pub endtime: TimeV,
    pub renew_till: Option<TimeV>,
}

impl View for TicketTimes {
    type V = TicketTimesV;

    open spec fn view(&self) -> TicketTimesV {
        TicketTimesV {
            authtime: self.authtime@,
            starttime: opt_view(self.starttime),
            endtime: self.endtime@,
            renew_till: opt_view(self.renew_till),
        }
    }
}

/// A client's credential for a service.
#[derive(Debug, Clone)]
pub struct Credential {
    /// Client name.
    pub client: PrincipalName,
    /// Client realm.
    pub crealm: String,
    /// Service name.
    pub server: PrincipalName,
    /// Service realm.
    pub srealm: String,
    /// Session key.
    pub session_key: EncryptionKey,
    /// Ticket times.
    pub times: TicketTimes,
    /// The ticket.
    pub ticket: Ticket,
    /// Ticket flags.
    pub flags: FlagBits,
    /// Addresses the ticket is good from.
    pub addresses: Option<Vec<HostAddress>>,
    /// Authorization data to send along.
    pub authdata: Option<Vec<AuthorizationDataElement>>,
}

/// Model of [`Credential`].
pub struct CredentialV {
    pub client: PrincipalNameV,
    pub crealm: Seq<char>,
    pub server: PrincipalNameV,
    pub srealm: Seq<char>,
    pub session_key: EncryptionKeyV,
    pub times: TicketTimesV,
    pub ticket: TicketV,
    pub flags: u32,
    pub addresses: Option<Seq<HostAddressV>>,
    pub authdata: Option<Seq<AuthorizationDataElementV>>,
}

impl View for Credential {
    type V = CredentialV;

    open spec fn view(&self) -> CredentialV {
        CredentialV {
            client: self.client@,
            crealm: self.crealm@,
            server: self.server@,
            srealm: self.srealm@,
            session_key: self.session_key@,
            times: self.times@,
            ticket: self.ticket@,
            flags: self.flags@,
            addresses: opt_list_view(self.addresses),
            authdata: opt_list_view(self.authdata),
        }
    }
}

impl Dup for Credential {
    fn dup(&self) -> (r: Self) {
        Credential {
            client: self.client.dup(),
            crealm: self.crealm.clone(),
            server: self.server.dup(),
            srealm: self.srealm.clone(),
            session_key: self.session_key.dup(),
            times: self.times,
            ticket: self.ticket.dup(),
            flags: self.flags,
            addresses: dup_opt_list(&self.addresses),
            authdata: dup_opt_list(&self.authdata),
        }
    }
}

} // verus!
