//! AS exchange: configuration and replies of the KDC.
use krb5_rs::asn1::{encode_list, Asn1, GeneralString};
use krb5_rs::protocol::as_exchange::{AsExchange, AsExchangeConfig, StepResult, MAX_PREAUTH_LOOPS};
use krb5_rs::protocol::preauth::{ErrorCode, PaDataType};
use krb5_rs::time::{split_nanos, Duration, KerberosTime, Moment};
use krb5_rs::types::{AsReq, EtypeInfo2Entry, KdcOptions, KrbErrorMsg, PaData, PrincipalName};
use krb5_rs::Krb5Error;

fn now_kerberos() -> KerberosTime {
    split_nanos(Moment::now().total_nanos()).0
}

#[test]
fn as_exchange_test_config_defaults() {
    let config = AsExchangeConfig::new(PrincipalName::new_principal("user"), "EXAMPLE.COM");
    assert_eq!(config.realm, "EXAMPLE.COM");
    assert_eq!(config.etypes, vec![18, 17, 20, 19]);
    assert!(config.kdc_options.contains(KdcOptions::FORWARDABLE));
    assert!(config.kdc_options.contains(KdcOptions::RENEWABLE));
    assert!(config.kdc_options.contains(KdcOptions::CANONICALIZE));
    assert!(config.request_pac);
    assert_eq!(config.tkt_lifetime, Duration::from_secs(36000));
    assert_eq!(config.renew_lifetime, Duration::from_secs(604800));
}

#[test]
fn as_exchange_test_config_no_pac() {
    let config = AsExchangeConfig::new_no_pac(PrincipalName::new_principal("user"), "EXAMPLE.COM");
    assert!(!config.request_pac);
}

#[test]
fn as_exchange_test_exchange_initial_step_produces_as_req() {
    let config = AsExchangeConfig::new(PrincipalName::new_principal("testuser"), "EXAMPLE.COM");
    let mut exchange = AsExchange::new(config, "password");

    let result = exchange.step(&[]).expect("initial step should succeed");
    match result {
        StepResult::SendToKdc { data, realm } => {
            assert_eq!(realm, "EXAMPLE.COM");
            // Should be a valid AS-REQ
            let as_req = AsReq::decode(&data).expect("should decode as AS-REQ");
            assert_eq!(as_req.0.pvno, 5);
            assert_eq!(as_req.0.msg_type, 10);
            assert_eq!(
                as_req.0.req_body.realm.as_bytes(),
                GeneralString::from_bytes(b"EXAMPLE.COM").expect("realm").as_bytes()
            );
            // Should have PA-PAC-REQUEST in padata
            let padata = as_req.0.padata.expect("should have padata");
            assert!(padata.iter().any(|pa| pa.padata_type == PaDataType::PAC_REQUEST));
            // Nonce should be set
            assert_ne!(as_req.0.req_body.nonce, 0);
            // Etypes should match config
            assert_eq!(as_req.0.req_body.etype, vec![18, 17, 20, 19]);
        }
        StepResult::Complete | StepResult::RetryTcp { .. } => {
            panic!("should not be complete or retry on first step")
        }
    }
}

#[test]
fn as_exchange_test_exchange_preauth_required_produces_enc_timestamp() {
    let config = AsExchangeConfig::new(PrincipalName::new_principal("testuser"), "EXAMPLE.COM");
    let mut exchange = AsExchange::new(config, "password");

    // Initial step
    let _result = exchange.step(&[]).expect("initial step");

    // Build a PREAUTH_REQUIRED error response
    let error_reply = build_preauth_required_error();
    let result = exchange.step(&error_reply).expect("should handle PREAUTH_REQUIRED");

    match result {
        StepResult::SendToKdc { data, realm } => {
            assert_eq!(realm, "EXAMPLE.COM");
            // Should be an AS-REQ with PA-ENC-TIMESTAMP
            let as_req = AsReq::decode(&data).expect("should decode as AS-REQ");
            let padata = as_req.0.padata.expect("should have padata");
            assert!(padata.iter().any(|pa| pa.padata_type == PaDataType::ENC_TIMESTAMP));
        }
        StepResult::Complete | StepResult::RetryTcp { .. } => {
            panic!("should not be complete or retry after preauth required")
        }
    }
}

#[test]
fn as_exchange_test_exchange_loop_count_exceeded() {
    let config = AsExchangeConfig::new(PrincipalName::new_principal("testuser"), "EXAMPLE.COM");
    let mut exchange = AsExchange::new(config, "password");
    // Set initial step so we're in AwaitReply
    let _result = exchange.step(&[]).expect("initial step");
    exchange.loop_count = MAX_PREAUTH_LOOPS;

    let error_reply = build_preauth_required_error();
    let result = exchange.step(&error_reply);
    assert!(matches!(result, Err(Krb5Error::PreauthLoopExceeded(_))));
}

#[test]
fn sixteen_demands_are_answered() {
    let config = AsExchangeConfig::new(PrincipalName::new_principal("testuser"), "EXAMPLE.COM");
    let mut exchange = AsExchange::new(config, "password");
    exchange.step(&[]).expect("initial step");
    let demand = build_preauth_required_error();
    for round in 1..=16 {
        match exchange.step(&demand).expect("answered") {
            StepResult::SendToKdc { data, realm } => {
                assert_eq!(realm, "EXAMPLE.COM");
                let req = AsReq::decode(&data).expect("AS-REQ");
                assert_ne!(req.0.req_body.nonce, 0);
                let padata = req.0.padata.expect("padata");
                assert!(padata.iter().any(|pa| pa.padata_type == PaDataType::ENC_TIMESTAMP), "round {round}");
            }
            other => panic!("round {round}: {other:?}"),
        }
    }
    assert!(matches!(exchange.step(&demand), Err(Krb5Error::PreauthLoopExceeded(16))));
    assert!(matches!(exchange.step(&demand), Err(Krb5Error::PreauthLoopExceeded(16))));
}

#[test]
fn cookies_are_echoed() {
    let config = AsExchangeConfig::new(PrincipalName::new_principal("testuser"), "EXAMPLE.COM");
    let mut exchange = AsExchange::new(config, "password");
    exchange.step(&[]).expect("initial step");
    let mut cookie_for = |demand: Vec<u8>| match exchange.step(&demand).expect("answered") {
        StepResult::SendToKdc { data, .. } => AsReq::decode(&data)
            .expect("AS-REQ")
            .0
            .padata
            .expect("padata")
            .into_iter()
            .find(|pa| pa.padata_type == PaDataType::FX_COOKIE)
            .map(|pa| pa.padata_value),
        other => panic!("unexpected {other:?}"),
    };
    let cookie = PaData { padata_type: PaDataType::FX_COOKIE, padata_value: b"a cookie".to_vec() };
    assert_eq!(cookie_for(demand_with(vec![cookie])), Some(b"a cookie".to_vec()));
    assert_eq!(cookie_for(build_preauth_required_error()), None);
}

#[test]
fn as_exchange_test_exchange_empty_reply_rejected() {
    let config = AsExchangeConfig::new(PrincipalName::new_principal("testuser"), "EXAMPLE.COM");
    let mut exchange = AsExchange::new(config, "password");
    let _result = exchange.step(&[]).expect("initial step");

    let result = exchange.step(&[]);
    assert!(matches!(result, Err(Krb5Error::ReplyValidation(_))));
}

#[test]
fn as_exchange_test_exchange_response_too_big_returns_retry_tcp() {
    let config = AsExchangeConfig::new(PrincipalName::new_principal("testuser"), "EXAMPLE.COM");
    let mut exchange = AsExchange::new(config, "password");
    let initial = exchange.step(&[]).expect("initial step");

    // Capture the original request bytes
    let original_data = match &initial {
        StepResult::SendToKdc { data, .. } => data.clone(),
        _ => panic!("expected SendToKdc"),
    };

    let error_reply = build_krb_error(ErrorCode::RESPONSE_TOO_BIG, None);
    let result = exchange.step(&error_reply).expect("should return RetryTcp");
    match result {
        StepResult::RetryTcp { data, realm } => {
            assert_eq!(realm, "EXAMPLE.COM");
            // RetryTcp should re-emit the exact same request bytes
            assert_eq!(data, original_data);
        }
        other => panic!("expected RetryTcp, got: {other:?}"),
    }
}

#[test]
fn as_exchange_test_exchange_wrong_realm_redirects() {
    let config = AsExchangeConfig::new(PrincipalName::new_principal("testuser"), "EXAMPLE.COM");
    let mut exchange = AsExchange::new(config, "password");
    let _result = exchange.step(&[]).expect("initial step");

    let error_reply = build_krb_error(ErrorCode::WRONG_REALM, Some("OTHER.REALM"));
    let result = exchange.step(&error_reply).expect("should redirect");
    match result {
        StepResult::SendToKdc { realm, data } => {
            assert_eq!(realm, "OTHER.REALM");
            // Verify the new AS-REQ targets the new realm
            let as_req = AsReq::decode(&data).expect("decode AS-REQ");
            assert_eq!(
                as_req.0.req_body.realm.as_bytes(),
                GeneralString::from_bytes(b"OTHER.REALM").expect("realm").as_bytes()
            );
        }
        StepResult::Complete | StepResult::RetryTcp { .. } => {
            panic!("should redirect, not complete or retry")
        }
    }
    assert_eq!(exchange.config.realm, "OTHER.REALM");
}

#[test]
fn as_exchange_test_exchange_wrong_realm_same_realm_propagates() {
    let config = AsExchangeConfig::new(PrincipalName::new_principal("testuser"), "EXAMPLE.COM");
    let mut exchange = AsExchange::new(config, "password");
    let _result = exchange.step(&[]).expect("initial step");

    // WRONG_REALM but crealm == current realm: the error is propagated
    let error_reply = build_krb_error(ErrorCode::WRONG_REALM, Some("EXAMPLE.COM"));
    let result = exchange.step(&error_reply);
    assert!(matches!(result, Err(Krb5Error::KdcError(_))));
}

#[test]
fn as_exchange_test_exchange_kdc_error_propagated() {
    let config = AsExchangeConfig::new(PrincipalName::new_principal("testuser"), "EXAMPLE.COM");
    let mut exchange = AsExchange::new(config, "password");
    let _result = exchange.step(&[]).expect("initial step");

    // C_PRINCIPAL_UNKNOWN (6)
    let error_reply = build_krb_error(6, None);
    let result = exchange.step(&error_reply);
    match result {
        Err(Krb5Error::KdcError(err)) => {
            assert_eq!(err.error_code, 6);
        }
        other => panic!("expected KdcError, got: {other:?}"),
    }
}

/// Helper: build a DER-encoded KRB-ERROR. `server_realm` sets the mandatory
/// `realm` field (used for WRONG_REALM redirect target).
fn build_krb_error(error_code: i32, server_realm: Option<&str>) -> Vec<u8> {
    let realm_str = server_realm.unwrap_or("EXAMPLE.COM");
    let krb_error = KrbErrorMsg {
        pvno: 5,
        msg_type: 30,
        ctime: None,
        cusec: None,
        stime: now_kerberos(),
        susec: 0,
        error_code,
        crealm: None,
        cname: None,
        realm: GeneralString::from_bytes(realm_str.as_bytes()).expect("realm"),
        sname: PrincipalName::new_srv_inst("krbtgt", realm_str),
        e_text: None,
        e_data: None,
    };
    krb_error.encode()
}

/// Helper: build a DER-encoded KRB-ERROR with PREAUTH_REQUIRED and
/// PA-ETYPE-INFO2.
fn build_preauth_required_error() -> Vec<u8> {
    demand_with(Vec::new())
}

fn demand_with(extra: Vec<PaData>) -> Vec<u8> {
    let entries = vec![EtypeInfo2Entry {
        etype: 18,
        salt: Some(GeneralString::from_bytes(b"EXAMPLE.COMtestuser").expect("salt")),
        s2kparams: None,
    }];

    let mut method_data = vec![
        PaData {
            padata_type: PaDataType::ETYPE_INFO2,
            padata_value: encode_list(&entries),
        },
        // A real KDC offers PA-ENC-TIMESTAMP in METHOD-DATA; the client only
        // answers a real preauth type it was offered.
        PaData {
            padata_type: PaDataType::ENC_TIMESTAMP,
            padata_value: Vec::new(),
        },
    ];
    method_data.extend(extra);

    let krb_error = KrbErrorMsg {
        pvno: 5,
        msg_type: 30,
        ctime: None,
        cusec: None,
        stime: now_kerberos(),
        susec: 0,
        error_code: ErrorCode::PREAUTH_REQUIRED,
        crealm: None,
        cname: None,
        realm: GeneralString::from_bytes(b"EXAMPLE.COM").expect("realm"),
        sname: PrincipalName::new_srv_inst("krbtgt", "EXAMPLE.COM"),
        e_text: None,
        e_data: Some(encode_list(&method_data)),
    };
    krb_error.encode()
}
