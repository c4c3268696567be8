//! What holds of requests and replies in armor.
use vstd::prelude::*;

use crate::asn1::{list_parse, Asn1};
use crate::crypto::profile::{cksum_spec, cksum_type, dec_spec, text, verify_spec};
use crate::crypto::{fx_cf2_spec, CryptoError};
use crate::error::Krb5ErrorV;
use crate::protocol::ap::laws::sealed_as;
use crate::protocol::ap::req_rep::mk_req_spec;
use crate::protocol::ap::{fresh_context, seal_spec, ApReqOptions, EntropyV};
use crate::protocol::credential::CredentialV;
use crate::protocol::fast::{armor_ap_spec, armored_req, fresh_fast, inner_req, prep_spec, process_error_spec, process_response_spec, reply_key_spec, tgs_armor_spec, upgrade_spec, without_tgs, FastMsgType, FastResponseOutV, FastStateV};
use crate::protocol::preauth::find_pa;
use crate::time::Moment;
use crate::types::{AsReq, EncryptionKeyV, KdcReqV, KrbErrorMsg, KrbErrorMsgV, KrbFastArmoredReqV, KrbFastReq, KrbFastReqV, KrbFastResponse, KrbFastResponseV, PaData, PaDataV, PaFxFastReply, PaFxFastRequest, TgsReq, Ticket, TicketV};

verus! {

/// The armor key of a request with an armor ticket is the subkey and the
/// session key of the AP request that carries the ticket, combined by their
/// names; the armor is that AP request, of type 1.
pub proof fn law_armored_by_ticket(v: FastStateV, tgt: CredentialV, now: Moment, env: EntropyV)
    requires
        armor_ap_spec(v, tgt, now, env).1 is Ok,
    ensures
        ({
            let w = armor_ap_spec(v, tgt, now, env).0;
            let (c, r) = mk_req_spec(
                fresh_context(),
                ApReqOptions {
                    mutual_required: false,
                    use_session_key: false,
                    use_subkey: true,
                    etype_negotiation: false,
                    cbt: false,
                },
                None,
                tgt,
                now,
                env,
            );
            &&& r is Ok
            &&& c.send_subkey is Some
            &&& w.armor_key is Some
            &&& fx_cf2_spec(c.send_subkey->0, text("subkeyarmor"@), tgt.session_key, text("ticketarmor"@)) == Ok::<
                EncryptionKeyV,
                CryptoError,
            >(w.armor_key->0)
            &&& w.armor is Some
            &&& w.armor->0.armor_type == 1
            &&& w.armor->0.armor_value == r->Ok_0
            &&& w.armor_avail == v.armor_avail
        }),
{
}

/// The armor key of a TGS request is the subkey and the session key of its own
/// AP request, combined by their names, and there is no other armor.
pub proof fn law_armored_by_request(v: FastStateV, subkey: EncryptionKeyV, session: EncryptionKeyV)
    requires
        tgs_armor_spec(v, subkey, session).1 is Ok,
    ensures
        ({
            let w = tgs_armor_spec(v, subkey, session).0;
            &&& w.armor is None
            &&& w.armor_key is Some
            &&& fx_cf2_spec(subkey, text("subkeyarmor"@), session, text("ticketarmor"@)) == Ok::<EncryptionKeyV, CryptoError>(
                w.armor_key->0,
            )
        }),
{
}

/// A key that strengthens another one is combined with it by their names;
/// without one the key stays as it is.
pub proof fn law_strengthened(by: Option<EncryptionKeyV>, key: EncryptionKeyV)
    ensures
        by is None ==> reply_key_spec(by, key) == Ok::<EncryptionKeyV, Krb5ErrorV>(key),
        by is Some && reply_key_spec(by, key) is Ok ==> fx_cf2_spec(by->0, text("strengthenkey"@), key, text("replykey"@)) == Ok::<
            EncryptionKeyV,
            CryptoError,
        >(reply_key_spec(by, key)->Ok_0),
        by is Some && fx_cf2_spec(by->0, text("strengthenkey"@), key, text("replykey"@)) is Ok ==> reply_key_spec(by, key) is Ok,
{
}

/// Without armor a request goes out as it is. In armor it keeps its body, and
/// its data are of type 136: the armor, a checksum under the armor key with
/// usage 50 of what is covered, and under the armor key with usage 51 the
/// request's own data and body. A TGS request shows its AP request first.
pub proof fn law_request_armored(v: FastStateV, req: KdcReqV, covered: Seq<u8>, kind: FastMsgType, env: EntropyV)
    requires
        prep_spec(v, req, covered, kind, env).1 is Ok,
    ensures
        ({
            let (w, r) = prep_spec(v, req, covered, kind, env);
            let key = v.armor_key->0;
            let ps = if req.padata is Some { req.padata->0 } else { Seq::empty() };
            let tgs = find_pa(ps, 1);
            &&& v.armor_key is None ==> w == v && r->Ok_0 == sent_as(req, kind)
            &&& v.armor_key is Some ==> w == (FastStateV { nonce: req.req_body.nonce, ..v }) && exists|
                outer: KdcReqV,
                a: KrbFastArmoredReqV,
                inner: KrbFastReqV,
            |
                {
                    let at: int = if kind == FastMsgType::Tgs && tgs is Some { 1 } else { 0 };
                    &&& r->Ok_0 == #[trigger] sent_as(outer, kind)
                    &&& outer.pvno == req.pvno
                    &&& outer.msg_type == req.msg_type
                    &&& outer.req_body == req.req_body
                    &&& outer.padata is Some
                    &&& outer.padata->0.len() > at
                    &&& at == 1 ==> outer.padata->0[0] == tgs->0
                    &&& at == 0 ==> outer.padata->0.len() == 1
                    &&& outer.padata->0[at].padata_type == 136
                    &&& outer.padata->0[at].padata_value == #[trigger] <PaFxFastRequest as Asn1>::der(a)
                    &&& a.armor == v.armor
                    &&& a.req_checksum.cksumtype == cksum_type(key.keytype)
                    &&& cksum_spec(key.keytype, key.keyvalue, 50, covered) == Ok::<Seq<u8>, CryptoError>(a.req_checksum.checksum)
                    &&& sealed_as(a.enc_fast_req, key, 51, env.confounder, #[trigger] <KrbFastReq as Asn1>::der(inner))
                    &&& inner.req_body == req.req_body
                    &&& forall|pa: PaDataV| #[trigger] inner.padata.contains(pa) <==> ps.contains(pa) && pa.padata_type != 1
                    &&& inner.fast_options.len() == 0
                }
        }),
{
    if v.armor_key is Some {
        let key = v.armor_key->0;
        let ps = if req.padata is Some { req.padata->0 } else { Seq::empty() };
        let outer = armored_req(v.armor, key, req, covered, kind, env)->Ok_0;
        let inner = inner_req(req);
        let sum = cksum_spec(key.keytype, key.keyvalue, 50, covered)->Ok_0;
        let sealed = seal_spec(key, 51, env.confounder, <KrbFastReq as Asn1>::der(inner))->Ok_0;
        let a = KrbFastArmoredReqV {
            armor: v.armor,
            req_checksum: crate::types::ChecksumV { cksumtype: cksum_type(key.keytype), checksum: sum },
            enc_fast_req: sealed,
        };
        assert(prep_spec(v, req, covered, kind, env).1->Ok_0 == sent_as(outer, kind));
        let at: int = if kind == FastMsgType::Tgs && find_pa(ps, 1) is Some { 1 } else { 0 };
        assert(outer.padata->0[at].padata_value == <PaFxFastRequest as Asn1>::der(a));
        assert forall|pa: PaDataV| #[trigger] inner.padata.contains(pa) <==> ps.contains(pa) && pa.padata_type != 1 by {
            lemma_without_tgs(ps, pa);
        }
    }
}

/// A request as it goes out: an AS-REQ or a TGS-REQ.
pub open spec fn sent_as(req: KdcReqV, kind: FastMsgType) -> Seq<u8> {
    if kind == FastMsgType::As { <AsReq as Asn1>::der(req) } else { <TgsReq as Asn1>::der(req) }
}

proof fn lemma_without_tgs(ps: Seq<PaDataV>, pa: PaDataV)
    ensures
        without_tgs(ps).contains(pa) <==> ps.contains(pa) && pa.padata_type != 1,
    decreases ps.len(),
{
    if ps.len() > 0 {
        let rest = ps.drop_first();
        lemma_without_tgs(rest, pa);
        assert(ps =~= seq![ps[0]] + rest);
        assert(ps.contains(pa) <==> ps[0] == pa || rest.contains(pa)) by {
            if ps.contains(pa) {
                let i = choose|i: int| 0 <= i < ps.len() && ps[i] == pa;
                if i > 0 {
                    assert(rest[i - 1] == pa);
                }
            }
            if rest.contains(pa) {
                let i = choose|i: int| 0 <= i < rest.len() && rest[i] == pa;
                assert(ps[i + 1] == pa);
            }
        }
        let w = without_tgs(rest);
        if ps[0].padata_type != 1 {
            let all = seq![ps[0]] + w;
            assert(all.contains(pa) <==> ps[0] == pa || w.contains(pa)) by {
                if all.contains(pa) {
                    let i = choose|i: int| 0 <= i < all.len() && all[i] == pa;
                    if i > 0 {
                        assert(w[i - 1] == pa);
                    }
                }
                if w.contains(pa) {
                    let i = choose|i: int| 0 <= i < w.len() && w[i] == pa;
                    assert(all[i + 1] == pa);
                }
                assert(all[0] == ps[0]);
            }
        }
    }
}

/// The data that there are.
pub open spec fn data_in(ps: Option<Seq<PaDataV>>) -> Seq<PaDataV> {
    match ps {
        Some(ps) => ps,
        None => Seq::empty(),
    }
}

/// The octets that there are.
pub open spec fn octets_in(s: Option<Seq<u8>>) -> Seq<u8> {
    match s {
        Some(s) => s,
        None => Seq::empty(),
    }
}

/// Whether data hold a FAST response: they open under the armor key with usage
/// 52 to a response with the nonce of the request.
pub open spec fn holds_response(v: FastStateV, pa: PaDataV, resp: KrbFastResponseV) -> bool {
    let key = v.armor_key->0;
    <PaFxFastReply as Asn1>::parse(pa.padata_value) matches Some(a) && (dec_spec(key.keytype, key.keyvalue, 52, a.enc_fast_rep.cipher) matches Ok(
        plain,
    ) && <KrbFastResponse as Asn1>::parse(plain) == Some(resp)) && resp.nonce == v.nonce
}

/// What a reply in armor says: its data of type 136 hold a response that is
/// finished with a checksum of the very ticket under the armor key with usage
/// 53; the client is that of the finish, and the strengthen key and the data
/// those of the response. Without armor there is nothing; in armor a reply
/// without such data is refused.
pub proof fn law_reply_armored(v: FastStateV, ps: Option<Seq<PaDataV>>, ticket: TicketV)
    ensures
        ({
            let r = process_response_spec(v, ps, ticket);
            let all = data_in(ps);
            let key = v.armor_key->0;
            &&& v.armor_key is None ==> r == Ok::<Option<FastResponseOutV>, Krb5ErrorV>(None)
            &&& v.armor_key is Some && find_pa(all, 136) is None ==> r == Err::<Option<FastResponseOutV>, Krb5ErrorV>(
                Krb5ErrorV::FastRequired,
            )
            &&& v.armor_key is Some && r is Ok ==> r->Ok_0 is Some && exists|resp: KrbFastResponseV|
                {
                    let o = r->Ok_0->0;
                    &&& #[trigger] holds_response(v, find_pa(all, 136)->0, resp)
                    &&& resp.finished is Some
                    &&& resp.finished->0.ticket_checksum.cksumtype == cksum_type(key.keytype)
                    &&& verify_spec(
                        key.keytype,
                        key.keyvalue,
                        53,
                        <Ticket as Asn1>::der(ticket),
                        resp.finished->0.ticket_checksum.checksum,
                    ) is Ok
                    &&& o.client == resp.finished->0.cname
                    &&& o.strengthen_key == resp.strengthen_key
                    &&& o.padata == resp.padata
                }
        }),
{
    let r = process_response_spec(v, ps, ticket);
    let all = data_in(ps);
    if v.armor_key is Some && r is Ok {
        let pa = find_pa(all, 136)->0;
        let resp = crate::protocol::fast::fast_response_spec(v, pa, v.armor_key->0)->Ok_0;
        assert(holds_response(v, pa, resp));
    }
}

/// What an error says. Without armor it is the error itself with the data in
/// it, and it can be answered where there are any octets of data. In armor the
/// error inside, of type 137, counts, with the data of the response, and it
/// can be answered where there is other data and a cookie of type 133; an
/// error without a response cannot be.
pub proof fn law_error_armored(v: FastStateV, err: KrbErrorMsgV)
    requires
        process_error_spec(v, err) is Ok,
    ensures
        ({
            let fe = process_error_spec(v, err)->Ok_0;
            let data = octets_in(err.e_data);
            let ps = list_parse::<PaData>(data)->0;
            &&& v.armor_key is None ==> fe.err == err && fe.padata == list_parse::<PaData>(data) && (fe.retry <==> data.len() > 0)
            &&& v.armor_key is Some && fe.padata is None ==> fe.err == err && !fe.retry
            &&& v.armor_key is Some && fe.padata is Some ==> exists|resp: KrbFastResponseV|
                {
                    &&& list_parse::<PaData>(data) is Some
                    &&& find_pa(ps, 136) is Some
                    &&& #[trigger] holds_response(v, find_pa(ps, 136)->0, resp)
                    &&& fe.padata == Some(resp.padata)
                    &&& find_pa(resp.padata, 137) is Some
                    &&& <KrbErrorMsg as Asn1>::parse(find_pa(resp.padata, 137)->0.padata_value) == Some(fe.err)
                    &&& fe.retry <==> resp.padata.len() > 1 && find_pa(resp.padata, 133) is Some
                }
        }),
{
    let fe = process_error_spec(v, err)->Ok_0;
    if v.armor_key is Some && fe.padata is Some {
        let data = octets_in(err.e_data);
        let ps = list_parse::<PaData>(data)->0;
        let pa = find_pa(ps, 136)->0;
        let resp = crate::protocol::fast::fast_response_spec(v, pa, v.armor_key->0)->Ok_0;
        assert(holds_response(v, pa, resp));
    }
}

/// A client goes over to armor exactly when it has some that it does not use
/// yet and the KDC offers FAST, with data of type 136.
pub proof fn law_upgrade(v: FastStateV, ps: Seq<PaDataV>)
    ensures
        upgrade_spec(v, ps) <==> v.armor_key is None && v.armor_avail && find_pa(ps, 136) is Some,
        !fresh_fast().armor_avail,
        fresh_fast().armor_key is None,
        fresh_fast().armor is None,
{
}

} // verus!
