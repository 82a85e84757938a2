//! The client in its fixed form: base URL and bearer token are given at
//! construction.

use crate::error::ConfigError;
use crate::headers::{
    authorization_text, carried_fields, derive_headers, derived_fields, header_extras,
    header_fields, is_header_text, lemma_derived_fields_are_few, lemma_owed_fields, no_fields,
    HeaderSet,
};
use crate::outcome::{bodies_of, partition, FetchOutcome};
use crate::transport::Transport;
use reqwest::header::HeaderMap;
use vstd::prelude::*;

verus! {

/// The request timeout that this client is built with where the caller
/// has none of their own, in seconds.
pub const TIMEOUT_SECONDS: u64 = 9;

/// Whether this client accepts invalid certificates where the caller does
/// not say.
pub const ACCEPT_INVALID_CERTS: bool = true;

/// REST client configuration for HTTP GET requests, made from a base URL
/// and a bearer token.
#[derive(Debug)]
pub struct Client {
    base_url: String,
    bearer: String,
    headers: HeaderSet,
    client: Option<Transport>,
}

impl Client {
    /// The base URL.
    pub closed spec fn base(&self) -> Seq<char> {
        self.base_url@
    }

    /// The bearer token.
    pub closed spec fn token(&self) -> Seq<char> {
        self.bearer@
    }

    /// The header set, as the header map holds it.
    pub closed spec fn fields(&self) -> Map<Seq<char>, Seq<u8>> {
        self.headers.fields()
    }

    /// The transport, if one was built.
    pub closed spec fn built(&self) -> Option<Transport> {
        self.client
    }

    /// A configuration with the given base URL and bearer token, no header
    /// and no transport.
    pub fn new(base_url: String, bearer: String) -> (client: Client)
        ensures
            client.base() == base_url@,
            client.token() == bearer@,
            client.fields() == no_fields(),
            client.built() is None,
    {
        Client { base_url, bearer, headers: HeaderSet::empty(), client: None }
    }

    /// Derives the header set from the bearer token. Fails with
    /// `InvalidToken` where the token cannot be carried in a header value;
    /// the configuration is then unchanged. A transport built earlier is
    /// not affected.
    pub fn set_headers(&mut self) -> (derived: Result<(), ConfigError>)
        ensures
            final(self).token() == old(self).token(),
            final(self).base() == old(self).base(),
            final(self).built() == old(self).built(),
            is_header_text(authorization_text(old(self).token())) ==> derived is Ok
                && final(self).fields() == derived_fields(old(self).token()),
            !is_header_text(authorization_text(old(self).token())) ==> (derived matches Err(
                ConfigError::InvalidToken,
            )) && final(self).fields() == old(self).fields(),
    {
        match HeaderSet::derive(self.bearer.as_str()) {
            Ok(headers) => {
                self.headers = headers;
                Ok(())
            },
            Err(error) => Err(error),
        }
    }

    /// Builds the transport, with the given timeout in seconds and
    /// certificate policy, and keeps it in place of any earlier one.
    ///
    /// The transport sends the header set as it stands with every request.
    /// Where no header set was derived yet, it sends the set derived from
    /// the token: `accept` and `authorization`. That set is not kept: the
    /// header set of the client stays empty until `set_headers` derives it.
    ///
    /// Fails with `InvalidToken` exactly where no header set was derived
    /// and the token cannot be carried in a header value, and with
    /// `TransportUnavailable` where the transport cannot be built. The
    /// earlier transport is then kept.
    pub fn set_client(&mut self, time_out: u64, accept_invalid_cert: bool) -> (built: Result<
        (),
        ConfigError,
    >)
        ensures
            final(self).token() == old(self).token(),
            final(self).base() == old(self).base(),
            final(self).fields() == old(self).fields(),
            built is Ok ==> (final(self).built() matches Some(transport) && transport.timeout()
                == time_out && transport.lenient() == accept_invalid_cert && transport.fields()
                == carried_fields(old(self).fields(), Some(old(self).token()))),
            built is Ok ==> (final(self).built() matches Some(transport)
                && transport.fields().dom().contains("accept"@) && transport.fields()["accept"@]
                == vstd::utf8::encode_utf8("application/json"@)
                && transport.fields().dom().contains("authorization"@)),
            built is Err ==> final(self).built() == old(self).built(),
            (built matches Err(ConfigError::InvalidToken)) <==> (old(self).fields() == no_fields()
                && !is_header_text(authorization_text(old(self).token()))),
            !(built matches Err(ConfigError::MissingToken)),
    {
        proof {
            lemma_derived_fields_are_few();
            lemma_owed_fields(Some(self.token()));
        }
        let built = if self.headers.is_derived() {
            proof {
                let token = choose|token: Seq<char>|
                    self.headers.fields() == #[trigger] derived_fields(token);
                lemma_owed_fields(Some(token));
            }
            Transport::build(self.headers.map(), time_out, accept_invalid_cert)
        } else {
            match derive_headers(self.bearer.as_str()) {
                Ok(headers) => Transport::build(&headers, time_out, accept_invalid_cert),
                Err(error) => Err(error),
            }
        };
        match built {
            Ok(transport) => {
                self.client = Some(transport);
                Ok(())
            },
            Err(error) => Err(error),
        }
    }

    /// The bodies among the outcomes that the fetcher funnelled back, in
    /// the order of arrival. Failures are passed over.
    pub fn api_call_vec(&self, outcomes: Vec<FetchOutcome>) -> (bodies: Vec<String>)
        ensures
            bodies.deep_view() == bodies_of(outcomes.deep_view()),
    {
        let (bodies, _) = partition(outcomes);
        bodies
    }

    /// The base URL.
    pub fn base_url(&self) -> (url: &String)
        ensures
            url@ == self.base(),
    {
        &self.base_url
    }

    /// The bearer token.
    pub fn bearer(&self) -> (token: &String)
        ensures
            token@ == self.token(),
    {
        &self.bearer
    }

    /// The header map, as it is handed to the transport.
    pub fn headers(&self) -> (headers: &HeaderMap)
        ensures
            header_fields(*headers) == self.fields(),
            header_extras(*headers) == 0,
    {
        self.headers.map()
    }

    /// The transport, if one was built.
    pub fn transport(&self) -> (transport: Option<&Transport>)
        ensures
            transport matches Some(found) ==> self.built() == Some(*found),
            transport is None ==> self.built() is None,
    {
        self.client.as_ref()
    }
}

impl Clone for Client {
    /// A client with the same base URL, token and header set, and with a
    /// transport of the same settings where this one has a transport.
    fn clone(&self) -> (copy: Client)
        ensures
            copy.base() == self.base(),
            copy.token() == self.token(),
            copy.fields() == self.fields(),
            self.built() is None ==> copy.built() is None,
            self.built() matches Some(transport) ==> (copy.built() matches Some(second)
                && second.timeout() == transport.timeout() && second.lenient()
                == transport.lenient() && second.fields() == transport.fields()),
    {
        Client {
            base_url: self.base_url.clone(),
            bearer: self.bearer.clone(),
            headers: self.headers.copy(),
            client: match &self.client {
                Some(transport) => Some(transport.clone()),
                None => None,
            },
        }
    }
}

} // verus!
