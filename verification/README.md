# CipherPay

A payment service for shielded Zcash. Merchants register a viewing key, never a
spending key. The service derives an address for each invoice, watches the
mempool and the chain, and tells the merchant what was paid.

## Layout

- `src/` is the library. Its functions are verified with Verus, except for those
  that call into other crates: of them Verus takes the contract as given.
- `tests/` runs the library on concrete values.
- `app/` is the program around it: HTTP, the database, the block explorer, mail,
  and the amounts that are floating-point numbers.
- `extras/schema.sql` holds the tables. `DATABASE_SCHEMA` names another file.

## The library

| Part | What it holds |
| --- | --- |
| `text`, `hexadecimal`, `base64url`, `json`, `clock`, `ids` | values and notations |
| `crypto`, `zcash` | secrets at rest, and the calls into the Zcash crates |
| `addresses`, `scanner` | addresses, trial decryption, and the detection of payments |
| `invoices` | invoices, their states, their matching, and the payments for them |
| `billing` | fees, cycles, settlement, and suspension |
| `sessions`, `session_ledger` | prepaid sessions, charges, and consumed payments |
| `merchants`, `accounts`, `api_keys` | accounts, and who gets in |
| `catalog`, `products`, `prices`, `events`, `sales`, `luma`, `payment_links` | what is sold |
| `api` | what requests have to hold, and how they are answered |
| `config`, `db`, `maintenance`, `email`, `qr`, `validation` | the rest of the service |

Amounts are zatoshis throughout. Where a request carries a floating-point
amount, the program hands the library what it needs to know of it: whether it is
positive, whether it is within the maximum, and how many zatoshis it makes.

What the library takes from other crates stands behind functions marked
`external_body`. Each of them says in its comment what it calls and what is
relied on.
