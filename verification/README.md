# aliyun-dypns (verified core)

Client library for the Aliyun phone-number verification service (sending and
checking SMS verification codes), with its logic verified by Verus.

Layout:

- `src/` — the verified library:
  - `types.rs` — request and reply models, template parameters and their JSON form;
  - `params.rs` — the ordered parameter map and its canonical listing;
  - `percent.rs`, `codec.rs`, `text.rs` — percent-encoding, Base64, HMAC-SHA1,
    JSON string literals, decimal rendering and string helpers;
  - `signature.rs` — the signing rules (string to sign, signature, signed parameters);
  - `client.rs` — request checks, business parameters, request URLs and the
    judgement of the service's replies;
  - `error.rs` — the error type and the mapping of the service's error codes.
- `app/` — the asynchronous HTTP client (`SmsClient`), JSON reading of the
  replies, and the error type with its `Display` messages.
- `tests/` — tests of the library on concrete values.
