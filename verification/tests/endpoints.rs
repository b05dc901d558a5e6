//! The endpoints, called through a kernel that serves the keys as resources.

use std::sync::Arc;

use age::secrecy::ExposeSecret;
use age::x25519::Identity;
use futures::executor::block_on;
use ikigai_core::{
    ArgRef, ArgSpec, AsyncFnEndpoint, Capability, Description, EndpointSpace, Error, Exact,
    FnEndpoint, Invocation, Iri, Kernel, ReprType, Representation, Request, Result, Verb,
};
use ikigai_encrypt::{describe, error, invocation, repr, Decrypt, Encrypt, CAP_DECRYPT};

/// The kernel's call, as the library takes it.
fn call(inv: &Invocation<'_>) -> invocation::Invocation {
    let mut arguments = invocation::Arguments::new();
    for (name, arg) in &inv.request.args {
        let arg = match arg {
            ArgRef::Inline(bytes) => invocation::Arg::Inline(bytes.clone()),
            ArgRef::Reference(iri) => invocation::Arg::Reference(iri.to_string()),
            ArgRef::Content(id) => invocation::Arg::Reference(id.to_string()),
        };
        arguments = arguments.with_arg(name, arg);
    }
    let capability = match inv.capability.scopes() {
        None => invocation::Capability::Root,
        Some(held) => invocation::Capability::Scoped(held.iter().cloned().collect()),
    };
    invocation::Invocation {
        arguments,
        capability,
    }
}

/// The library's error, as the kernel takes it.
fn failure(error: error::Error) -> Error {
    match error {
        error::Error::MissingArgument(name) => Error::MissingArgument(name),
        error::Error::InvalidArgument { name, detail } => Error::InvalidArgument { name, detail },
        error::Error::Endpoint(message) => Error::Endpoint(message),
        error::Error::Denied(message) => Error::Denied(message),
    }
}

/// The library's answer, as the kernel takes it.
fn representation(served: repr::Representation) -> Representation {
    let mut repr_type = ReprType::new(served.repr_type.media_type);
    for (name, value) in served.repr_type.params {
        repr_type = repr_type.with_param(name, value);
    }
    let repr = Representation::new(repr_type, served.bytes);
    match served.expiry {
        repr::Expiry::Always => repr,
        repr::Expiry::Never => repr.cacheable(),
    }
}

/// The library's description, as the kernel takes it.
fn description(described: describe::Description) -> Description {
    let mut description = Description::new(described.id)
        .title(described.title)
        .summary(described.summary);
    for verb in described.verbs {
        description = description.verb(match verb {
            describe::Verb::Source => Verb::Source,
            describe::Verb::Meta => Verb::Meta,
        });
    }
    for scope in described.requires {
        description = description.requires(scope);
    }
    for input in described.inputs {
        let spec = ArgSpec::new(input.name)
            .summary(input.summary)
            .class(input.class);
        description = description.input(if input.required { spec } else { spec.optional() });
    }
    for output in described.outputs {
        description = description.output(output);
    }
    description
}

/// Reads the key resource through the kernel.
async fn read_key(inv: &Invocation<'_>, pending: &invocation::Pending) -> Result<Vec<u8>> {
    let iri = Iri::parse(pending.key.clone()).expect("a pending call names an IRI");
    let repr = inv.issue(Request::new(Verb::Source, iri)).await?;
    Ok(repr.bytes)
}

/// The two endpoints of the library, mounted for a kernel.
fn space() -> EndpointSpace {
    let mut space = EndpointSpace::new();
    for binding in ikigai_encrypt::space() {
        let at = Exact::new(binding.iri);
        space = match binding.endpoint {
            ikigai_encrypt::Endpoint::Encrypt => {
                let endpoint = AsyncFnEndpoint::new(Encrypt.name(), |inv| {
                    Box::pin(async move {
                        let pending = Encrypt.invoke(&call(inv)).map_err(failure)?;
                        let key = read_key(inv, &pending).await?;
                        Encrypt
                            .resume(&pending, key)
                            .expect("no recipient of low order")
                            .map(representation)
                            .map_err(failure)
                    })
                });
                space.bind(at, endpoint.with_description(description(Encrypt.describe())))
            }
            ikigai_encrypt::Endpoint::Decrypt => {
                let endpoint = AsyncFnEndpoint::new(Decrypt.name(), |inv| {
                    Box::pin(async move {
                        let pending = Decrypt.invoke(&call(inv)).map_err(failure)?;
                        let key = read_key(inv, &pending).await?;
                        Decrypt
                            .resume(&pending, key)
                            .map(representation)
                            .map_err(failure)
                    })
                });
                space.bind(at, endpoint.with_description(description(Decrypt.describe())))
            }
        };
    }
    space
}

/// A kernel that serves a generated age keypair as two resources (pub at `urn:key:pub`,
/// identity at `urn:key:id`) plus the encrypt/decrypt endpoints — so the round-trip runs
/// through the real kernel, keys resolved as resources exactly as in production.
fn kernel_with_key() -> (Kernel, String, String) {
    let id = Identity::generate();
    let recipient = id.to_public().to_string(); // age1…
    let secret = id.to_string().expose_secret().to_string(); // AGE-SECRET-KEY-1…
    let (rc, sc) = (recipient.clone(), secret.clone());
    let pub_ep = FnEndpoint::new("k-pub", move |_inv: &Invocation<'_>| {
        Ok(Representation::new(
            ReprType::new("text/plain"),
            rc.clone().into_bytes(),
        ))
    });
    let id_ep = FnEndpoint::new("k-id", move |_inv: &Invocation<'_>| {
        Ok(Representation::new(
            ReprType::new("text/plain"),
            sc.clone().into_bytes(),
        ))
    });
    let space = space()
        .bind(Exact::new("urn:key:pub"), pub_ep)
        .bind(Exact::new("urn:key:id"), id_ep);
    (Kernel::new(Arc::new(space)), recipient, secret)
}

fn decrypt_cap() -> Capability {
    Capability::scoped(["urn:cap:decrypt"])
}

fn encrypt(k: &Kernel, plaintext: &str, cap: &Capability) -> Result<Vec<u8>> {
    let req = Request::new(Verb::Source, Iri::parse("urn:encrypt:encrypt").unwrap())
        .with_arg("in", ArgRef::Inline(plaintext.as_bytes().to_vec()))
        .with_arg("to", ArgRef::Inline(b"urn:key:pub".to_vec()));
    block_on(k.issue(req, cap)).map(|r| r.bytes)
}

fn decrypt(k: &Kernel, ciphertext: &[u8], key: &str, cap: &Capability) -> Result<Vec<u8>> {
    let req = Request::new(Verb::Source, Iri::parse("urn:encrypt:decrypt").unwrap())
        .with_arg("in", ArgRef::Inline(ciphertext.to_vec()))
        .with_arg("key", ArgRef::Inline(key.as_bytes().to_vec()));
    block_on(k.issue(req, cap)).map(|r| r.bytes)
}

#[test]
fn round_trips_through_the_kernel() {
    let (k, _r, _s) = kernel_with_key();
    let ct = encrypt(
        &k,
        "attack at dawn",
        &Capability::scoped(Vec::<String>::new()),
    )
    .unwrap();
    // Ciphertext is armored age, not the plaintext.
    let ct_str = String::from_utf8(ct.clone()).unwrap();
    assert!(
        ct_str.contains("BEGIN AGE ENCRYPTED FILE"),
        "expected armored age, got: {ct_str}"
    );
    assert!(!ct_str.contains("attack at dawn"));
    // Decrypt with the identity recovers the plaintext.
    let pt = decrypt(&k, &ct, "urn:key:id", &decrypt_cap()).unwrap();
    assert_eq!(String::from_utf8(pt).unwrap(), "attack at dawn");
}

#[test]
fn encrypt_is_open_no_cap_needed() {
    // Encryption to a public key needs no capability (the dropper case).
    let (k, _r, _s) = kernel_with_key();
    assert!(encrypt(&k, "hi", &Capability::scoped(Vec::<String>::new())).is_ok());
}

#[test]
fn decrypt_without_cap_is_denied() {
    let (k, _r, _s) = kernel_with_key();
    let ct = encrypt(&k, "secret", &Capability::scoped(Vec::<String>::new())).unwrap();
    let err = decrypt(
        &k,
        &ct,
        "urn:key:id",
        &Capability::scoped(Vec::<String>::new()),
    )
    .unwrap_err();
    assert!(matches!(err, Error::Denied(_)));
    assert!(!err.is_transient());
}

#[test]
fn a_wrong_identity_cannot_decrypt() {
    let (k, _r, _s) = kernel_with_key();
    let ct = encrypt(&k, "secret", &Capability::scoped(Vec::<String>::new())).unwrap();
    // A different identity string.
    let other = Identity::generate().to_string().expose_secret().to_string();
    assert!(
        decrypt(&k, &ct, &other, &decrypt_cap()).is_err(),
        "wrong key must not decrypt"
    );
}

#[test]
fn tampered_ciphertext_fails() {
    let (k, _r, _s) = kernel_with_key();
    let mut ct = encrypt(&k, "secret", &Capability::scoped(Vec::<String>::new())).unwrap();
    // Flip a byte in the armored body (skip the header).
    if let Some(b) = ct.get_mut(120) {
        *b ^= 0x01;
    }
    assert!(decrypt(&k, &ct, "urn:key:id", &decrypt_cap()).is_err());
}

#[test]
fn describe_declares_the_cap_and_argspec() {
    let d = Decrypt.describe();
    assert_eq!(d.requires, vec![CAP_DECRYPT.to_string()]);
    assert!(d.inputs.iter().any(|a| a.name == "key"));
    let e = Encrypt.describe();
    assert!(e.requires.is_empty(), "encrypt is open");
    assert!(e.inputs.iter().any(|a| a.name == "to"));
}
