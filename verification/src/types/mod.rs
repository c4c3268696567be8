//! The Kerberos data types the library works on, each with its model and its
//! DER form.

pub mod ap;
pub mod common;
pub mod fast;
pub mod kdc;
pub mod laws;
pub mod names;

pub use ap::{ApRep, ApReq, Authenticator, EncApRepPart, EncKrbCredPart, EncKrbPrivPart, EncTicketPart, KrbCred, KrbCredInfo, KrbPriv, KrbSafe, KrbSafeBody, TransitedEncoding};
pub use ap::{ApRepV, ApReqV, AuthenticatorV, EncApRepPartV, EncKrbCredPartV, EncKrbPrivPartV, EncTicketPartV, KrbCredInfoV, KrbCredV, KrbPrivV, KrbSafeBodyV, KrbSafeV, TransitedEncodingV};
pub use common::{AuthorizationDataElement, Checksum, EncryptedData, EncryptionKey, HostAddress, KrbErrorMsg, PaData, PrincipalName, Ticket};
pub use common::{AuthorizationDataElementV, ChecksumV, EncryptedDataV, EncryptionKeyV, HostAddressV, KrbErrorMsgV, PaDataV, PrincipalNameV, TicketV};
pub use fast::{KrbFastArmor, KrbFastArmoredRep, KrbFastArmoredReq, KrbFastFinished, KrbFastReq, KrbFastResponse, PaFxFastReply, PaFxFastRequest};
pub use fast::{KrbFastArmorV, KrbFastArmoredRepV, KrbFastArmoredReqV, KrbFastFinishedV, KrbFastReqV, KrbFastResponseV};
pub use kdc::{AsRep, AsReq, EncAsRepPart, EncKdcRepPart, EncTgsRepPart, EtypeInfo2Entry, KdcRep, KdcReq, KdcReqBody, LastReqEntry, PaEncTsEnc, PaPacOptions, PaPacRequest, TgsRep, TgsReq};
pub use kdc::{EncKdcRepPartV, EtypeInfo2EntryV, KdcRepV, KdcReqBodyV, KdcReqV, LastReqEntryV, PaEncTsEncV, PaPacOptionsV, PaPacRequestV};
pub use names::{ApOptions, KdcOptions, TicketFlags};
