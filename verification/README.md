# x3x

Verified core of the x3x file-encryption and key tools.

- `src/` is the library, verified with Verus:
  - `algorithm`: the eight algorithms, their identifiers, key, tag and nonce
    lengths, key filenames and command names, and the `E`/`D` operation.
  - `format`: the 64-byte container header (key-file version 1, password
    version 2), its parser, and the record layout: record count and lengths,
    per-record associated data and nonces, with their laws (round trips,
    distinct nonces, records that partition the plaintext).
  - `container`: the exact container length, header creation with a random
    nonce seed, header acceptance, key-length and name checks.
  - `filename`: the portable single-filename rule.
  - `password`: the recorded Argon2id cost and its bounds, and the root key.
  - `key_tools`: key sizes, the deterministic key maker's salt, root key and
    SHAKE256 key stream, and the block-by-block producers of deterministic
    and random keys with their whole-key laws.
  - `otp`: the one-time-pad transform and the block-by-block pass over a
    file with its whole-file law.
  - `outside`: the trusted items that call `sha2`, `sha3`, `argon2`,
    `getrandom` and `zeroize`.
- `app/` holds the file-system side: opening, checking and replacing files
  around the library's checks and transforms.
- `tests/` exercises the library on concrete values.
