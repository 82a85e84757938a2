//! The HTTP transport of a client: a handle of the HTTP crate, together
//! with the settings that were frozen into it when it was built.

use crate::error::ConfigError;
use crate::headers::{header_extras, header_fields, no_fields, FIELD_LIMIT};
use reqwest::header::HeaderMap;
use reqwest::Client as Handle;
use vstd::prelude::*;

verus! {

#[verifier::external_type_specification]
#[verifier::external_body]
pub struct ExHandle(Handle);

#[verifier::external_type_specification]
#[verifier::external_body]
pub struct ExTransportError(reqwest::Error);

/// The default headers of a handle, which it sends with every request: for
/// each header name among them, in lower case, the bytes of the first value
/// stored under that name.
pub uninterp spec fn handle_fields(handle: Handle) -> Map<Seq<char>, Seq<u8>>;

/// The time after which a handle gives up on a request, in whole seconds,
/// where it was made with one.
pub uninterp spec fn handle_timeout(handle: Handle) -> Option<u64>;

/// Whether a handle was made to accept invalid certificates.
pub uninterp spec fn handle_lenient(handle: Handle) -> bool;

/// The headers that the client builder of the HTTP client crate starts
/// with: it accepts any content.
pub open spec fn builder_fields() -> Map<Seq<char>, Seq<u8>> {
    no_fields().insert("accept"@, vstd::utf8::encode_utf8("*/*"@))
}

/// The default headers of a handle that was built with `fields`: those the
/// builder starts with, and over them `fields`.
pub open spec fn sent_fields(fields: Map<Seq<char>, Seq<u8>>) -> Map<Seq<char>, Seq<u8>> {
    builder_fields().union_prefer_right(fields)
}

/// A header set that says what is accepted reaches the handle as it is:
/// it replaces what the builder starts with.
pub proof fn lemma_sent_as_given(fields: Map<Seq<char>, Seq<u8>>)
    requires
        fields.dom().contains("accept"@),
    ensures
        sent_fields(fields) == fields,
{
    assert(sent_fields(fields) =~= fields);
}

/// The client builder of the HTTP client crate, from `Client::builder` to
/// `ClientBuilder::build`, with a copy of `headers` as `default_headers`,
/// the certificate policy as `danger_accept_invalid_certs` and the seconds
/// as `timeout`. Whether it succeeds depends on the machine: it fails where
/// no TLS backend can be set up. A handle that it gives holds the
/// builder's own headers with those of `headers` inserted over them, the
/// timeout and the certificate policy. The builder inserts the values of
/// `headers` one by one into a map of its own: the last value of a name
/// stays, so `headers` has to hold one value for each name, and the
/// insertion panics where that map refuses to grow, so `headers` has to be
/// below the limit.
#[verifier::external_body]
fn build_handle(headers: &HeaderMap, timeout_seconds: u64, accept_invalid_certs: bool) -> (built:
    Result<Handle, reqwest::Error>)
    requires
        header_fields(*headers).dom().finite(),
        header_fields(*headers).dom().len() < FIELD_LIMIT,
        header_extras(*headers) == 0,
    ensures
        built matches Ok(handle) ==> handle_fields(handle) == sent_fields(header_fields(*headers)),
        built matches Ok(handle) ==> handle_timeout(handle) == Some(timeout_seconds),
        built matches Ok(handle) ==> handle_lenient(handle) == accept_invalid_certs,
{
    Handle::builder()
        .default_headers(headers.clone())
        .danger_accept_invalid_certs(accept_invalid_certs)
        .timeout(std::time::Duration::from_secs(timeout_seconds))
        .build()
}

/// `Clone` of the HTTP client crate's client: the copy is a second handle
/// on the same client, with the same headers, timeout and certificate
/// policy.
#[verifier::external_body]
fn clone_handle(handle: &Handle) -> (copy: Handle)
    ensures
        handle_fields(copy) == handle_fields(*handle),
        handle_timeout(copy) == handle_timeout(*handle),
        handle_lenient(copy) == handle_lenient(*handle),
{
    handle.clone()
}

/// A transport that is ready for use. Its settings cannot be changed: a
/// client that wants others builds a new one.
#[derive(Debug)]
pub struct Transport {
    handle: Handle,
    timeout_seconds: u64,
    accept_invalid_certs: bool,
}

impl Transport {
    /// The settings on record are those that the handle was made with.
    #[verifier::type_invariant]
    spec fn record_is_true(self) -> bool {
        &&& handle_timeout(self.handle) == Some(self.timeout_seconds)
        &&& handle_lenient(self.handle) == self.accept_invalid_certs
    }

    /// The request timeout, in seconds, that the transport was built with.
    pub closed spec fn timeout(&self) -> u64 {
        self.timeout_seconds
    }

    /// Whether the transport was built to accept invalid certificates.
    pub closed spec fn lenient(&self) -> bool {
        self.accept_invalid_certs
    }

    /// The headers that the transport sends with every request.
    pub closed spec fn fields(&self) -> Map<Seq<char>, Seq<u8>> {
        handle_fields(self.handle)
    }

    /// The handle that the transport holds: the one that building it gave.
    pub closed spec fn sender(&self) -> Handle {
        self.handle
    }

    /// Builds a transport that sends `headers`, and nothing else, with
    /// every request, gives up on a request after `timeout_seconds`, and
    /// checks certificates unless `accept_invalid_certs` is set. The
    /// headers have to say what is accepted, or the builder would say it
    /// for them.
    pub(crate) fn build(headers: &HeaderMap, timeout_seconds: u64, accept_invalid_certs: bool) -> (built:
        Result<Transport, ConfigError>)
        requires
            header_fields(*headers).dom().finite(),
            header_fields(*headers).dom().len() < FIELD_LIMIT,
            header_extras(*headers) == 0,
            header_fields(*headers).dom().contains("accept"@),
        ensures
            built matches Ok(transport) ==> transport.timeout() == timeout_seconds
                && transport.lenient() == accept_invalid_certs && transport.fields()
                == header_fields(*headers),
            built matches Err(error) ==> error == ConfigError::TransportUnavailable,
    {
        proof {
            lemma_sent_as_given(header_fields(*headers));
        }
        match build_handle(headers, timeout_seconds, accept_invalid_certs) {
            Ok(handle) => Ok(Transport { handle, timeout_seconds, accept_invalid_certs }),
            Err(_) => Err(ConfigError::TransportUnavailable),
        }
    }

    /// The handle through which requests are sent: the one that the
    /// transport holds, the same at every call. It carries the headers, the
    /// timeout and the certificate policy of the transport.
    pub fn handle(&self) -> (handle: &Handle)
        ensures
            *handle == self.sender(),
            handle_fields(*handle) == self.fields(),
            handle_timeout(*handle) == Some(self.timeout()),
            handle_lenient(*handle) == self.lenient(),
    {
        proof {
            use_type_invariant(self);
        }
        &self.handle
    }

    /// The request timeout, in seconds.
    pub fn timeout_seconds(&self) -> (seconds: u64)
        ensures
            seconds == self.timeout(),
    {
        self.timeout_seconds
    }

    /// Whether invalid certificates are accepted.
    pub fn accepts_invalid_certs(&self) -> (accepted: bool)
        ensures
            accepted == self.lenient(),
    {
        self.accept_invalid_certs
    }
}

impl Clone for Transport {
    /// A second transport on the same handle, with the same settings.
    fn clone(&self) -> (copy: Transport)
        ensures
            copy.timeout() == self.timeout(),
            copy.lenient() == self.lenient(),
            copy.fields() == self.fields(),
    {
        proof {
            use_type_invariant(self);
        }
        Transport {
            handle: clone_handle(&self.handle),
            timeout_seconds: self.timeout_seconds,
            accept_invalid_certs: self.accept_invalid_certs,
        }
    }
}

} // verus!
