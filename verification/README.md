# krb5-rs

A Kerberos 5 client library in Rust, verified with Verus: the functions in
`src/` have contracts, and the contracts are proved. Only what rests on chance
or on the machine promises nothing of its value: the random octets, and which
byte order is the machine's own.

## Layout

- `src/bytes.rs`, `src/order.rs`, `src/text.rs`, `src/time.rs`: octets, text
  and times.
- `src/der.rs`, `src/asn1.rs`, `src/types/`: the DER codec and the protocol's
  data types. What is encoded reads back.
- `src/crypto/`: the four AES encryption types, checksums, key derivation,
  PRF, PRF+ and KRB-FX-CF2.
- `src/protocol/`: AP, SAFE, PRIV and CRED messages (`ap`), FAST, and the AS
  and TGS exchanges as step-by-step state machines.
- `src/gssapi/`: the Kerberos mechanism and SPNEGO.
- `src/keytab/`, `src/ccache/`: keytabs and credential caches, in memory and
  as the contents of files.
- `src/profile/`: krb5.conf profiles.
- `src/locate/`, `src/transport/`, `src/client/`: finding KDCs, the rules for
  sending to them, and the retry with primary KDCs.
- `tests/`: tests against the compiled library.
- `app/`: what touches files, the network and DNS. It does what the library's
  state machines ask for and hands the results back.

## How contracts are written

Each type has a model (a type whose name ends in `V`, or a sequence), reached
with `@`. A function's contract says what it returns, and what it changes, as a
spec function of the models. Functions that need the clock or random octets
come in two forms: one takes them as arguments and has an exact contract; the
other draws them and says that the exact contract holds for what was drawn.

Public proof functions named `law_...` state what holds across calls: what one
operation gives back of another, what every step keeps, and what is refused.

## What is not proved

Calls into other crates stand behind functions marked
`#[verifier::external_body]`; the comment above each says what is taken for
granted. They are the block cipher, hashes, HMAC and PBKDF2, the constant-time
comparison, random numbers, the clock, the DER form of GeneralizedTime, and a
few functions of the standard library on text and byte order.
