# ikigai-encrypt

Public-key encryption as two endpoints over the [age](https://age-encryption.org)
format, verified with Verus.

- `urn:encrypt:encrypt` is open. It seals the text in `in` (or piped as
  `content`) to the recipients that the resource named by `to` lists, one
  `age1...` key to a line. Any one of them opens the result.
- `urn:encrypt:decrypt` asks for the capability `urn:cap:decrypt`. It opens the
  armored text in `in` (or `content`) with the identity that the resource named
  by `key` holds.

Keys are never passed by value and never made here. A call runs in two steps
around the read of its key resource: `invoke` checks what the caller gave and
names the resource, the host reads it, `resume` does the rest with the bytes.

A ciphertext is never cacheable, since every sealing uses fresh keys. A
plaintext is cacheable as far as the endpoint can tell; the host makes it as
live as the key resource that it was opened with.

## Layout

- `src/encrypt.rs`, `src/decrypt.rs`: the endpoints.
- `src/invocation.rs`: arguments, capabilities, and what happens before a key
  is read.
- `src/text.rs`: white space, lines, and lists of keys.
- `src/repr.rs`, `src/describe.rs`, `src/error.rs`: what is served, declared and
  reported.
- `src/age_format.rs`: the calls into the `age` crate, with what is taken to be
  true of them.
- `src/laws.rs`: what holds of the endpoints as a whole.
- `app/lib.rs`: the endpoints on an ikigai kernel.

## What is trusted

Parsing keys, sealing and opening are the `age` crate's work; deciding what is
an IRI and what a capability allows is `ikigai-core`'s. Each such call stands in
one function whose doc comment says what is assumed of it. A key that is a point
of low order cannot be sealed to: `Encrypt::resume` gives no outcome for it.
