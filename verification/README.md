# opaque_ke

The login-step key exchanges of OPAQUE over NIST P-256 with SHA-256, verified
with Verus:

- `key_exchange::tripledh`: Triple Diffie-Hellman (three shared secrets, MACs
  over the transcript);
- `key_exchange::sigma_i`: SIGMA-I with ECDSA signatures over the transcript
  and MACs over the identities;
- `key_exchange::shared`: the first message, the transcript preamble and the
  HKDF key schedule that both use;
- `key_exchange::group`: P-256 keys, key derivation and Diffie-Hellman.

Every step is stated by spec functions over byte sequences; the hash, MAC, KDF,
curve and signature primitives come from the `sha2`, `hmac`, `hkdf`, `p256`,
`ecdsa` and `voprf` crates behind small trusted wrappers. HMAC, HKDF and the
validity of scalars and signatures are stated over SHA-256 and big-endian
values; SHA-256, point arithmetic, key derivation and ECDSA results are
named. The laws are proof functions in the protocol modules. Every key exchange
message, server state (`Ke2State`), pre-hash and signature that has a byte
encoding reads back from its bytes; `serialize` exports this, with the field
lengths, for the values a caller holds. The client state (`Ke1State`) and the
builders have no byte encoding. Honest logins succeed with equal
session keys: this is proved under two facts about the outside primitives,
taken as hypotheses of the lemmas, since no trusted item states them:
Diffie-Hellman agrees (each party's private key with the other's public key
gives the same secret), and, for SIGMA-I, a produced ECDSA signature verifies
under the signer's public key. ECDSA signing reports `SignatureError` where
the `ecdsa` crate's signing refuses (a zero `r` or `s`).

`app/` holds serde-enabled copies of the states and messages.
