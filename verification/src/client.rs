//! The client configuration: an optional base URL, an optional bearer
//! token, the header set derived from the token, and the transport built
//! from the header set.

use crate::error::ConfigError;
use crate::headers::{
    authorization_text, can_be_owed, carried_fields, derived_fields, header_extras,
    header_fields, is_header_text, lemma_derived_fields_are_few, lemma_owed_fields, no_fields,
    owed_headers, token_text, HeaderSet,
};
use crate::transport::Transport;
use reqwest::header::HeaderMap;
use vstd::prelude::*;

verus! {

/// REST client configuration for HTTP GET requests.
///
/// Set the bearer token, derive the headers from it, then build the
/// transport. Each step reads what the one before it left; none reaches
/// back, so a transport once built keeps the headers it was built with.
/// A transport that is built before the headers were derived is built
/// with the headers that the client owes every request.
#[derive(Debug)]
pub struct Client {
    base_url: Option<String>,
    bearer: Option<String>,
    headers: HeaderSet,
    client: Option<Transport>,
}

impl Client {
    /// Once headers were derived there is a token.
    #[verifier::type_invariant]
    spec fn derived_from_a_token(self) -> bool {
        self.headers.fields() != no_fields() ==> self.bearer is Some
    }

    /// The base URL, if one was given.
    pub closed spec fn base(&self) -> Option<Seq<char>> {
        match self.base_url {
            Some(url) => Some(url@),
            None => None,
        }
    }

    /// The bearer token, if one was set.
    pub closed spec fn token(&self) -> Option<Seq<char>> {
        token_text(self.bearer)
    }

    /// The header set, as the header map holds it.
    pub closed spec fn fields(&self) -> Map<Seq<char>, Seq<u8>> {
        self.headers.fields()
    }

    /// The transport, if one was built.
    pub closed spec fn built(&self) -> Option<Transport> {
        self.client
    }

    /// An empty configuration: no base URL, no token, no header, no
    /// transport.
    pub fn new() -> (client: Client)
        ensures
            client.base() is None,
            client.token() is None,
            client.fields() == no_fields(),
            client.built() is None,
    {
        Client { base_url: None, bearer: None, headers: HeaderSet::empty(), client: None }
    }

    /// Records the bearer token. Headers and transport stay as they are.
    pub fn set_bearer(&mut self, bearer: String)
        ensures
            final(self).token() == Some(bearer@),
            final(self).base() == old(self).base(),
            final(self).fields() == old(self).fields(),
            final(self).built() == old(self).built(),
    {
        proof {
            use_type_invariant(&*self);
        }
        self.bearer = Some(bearer);
    }

    /// Derives the header set from the bearer token. Fails with
    /// `MissingToken` where none was set, and with `InvalidToken` where the
    /// token cannot be carried in a header value; the configuration is then
    /// unchanged. A transport built earlier is not affected.
    pub fn set_headers(&mut self) -> (derived: Result<(), ConfigError>)
        ensures
            final(self).token() == old(self).token(),
            final(self).base() == old(self).base(),
            final(self).built() == old(self).built(),
            old(self).token() is None ==> (derived matches Err(ConfigError::MissingToken))
                && final(self).fields() == old(self).fields(),
            old(self).token() matches Some(token) ==> (is_header_text(authorization_text(token))
                ==> derived is Ok && final(self).fields() == derived_fields(token)),
            old(self).token() matches Some(token) ==> (!is_header_text(authorization_text(token))
                ==> (derived matches Err(ConfigError::InvalidToken)) && final(self).fields()
                == old(self).fields()),
    {
        proof {
            use_type_invariant(&*self);
        }
        let derived = match &self.bearer {
            None => { return Err(ConfigError::MissingToken); },
            Some(token) => HeaderSet::derive(token.as_str()),
        };
        match derived {
            Ok(headers) => {
                self.headers = headers;
                Ok(())
            },
            Err(error) => Err(error),
        }
    }

    /// Builds the transport, with the given timeout in seconds and
    /// certificate policy, and keeps it in place of any earlier one.
    ///
    /// The transport sends the header set as it stands with every request.
    /// Where no header set was derived yet, it sends the set that the
    /// client owes: `accept`, and the `authorization` of the token where
    /// there is one. That set is not kept: the header set of the client
    /// stays empty until `set_headers` derives it.
    ///
    /// Fails with `InvalidToken` exactly where no header set was derived
    /// and the token cannot be carried in a header value, and with
    /// `TransportUnavailable` where the transport cannot be built. The
    /// earlier transport is then kept.
    pub fn set_client(&mut self, time_out: u64, accept_invalid_cert: bool) -> (built: Result<
        (),
        ConfigError,
    >)
        ensures
            final(self).token() == old(self).token(),
            final(self).base() == old(self).base(),
            final(self).fields() == old(self).fields(),
            built is Ok ==> (final(self).built() matches Some(transport) && transport.timeout()
                == time_out && transport.lenient() == accept_invalid_cert && transport.fields()
                == carried_fields(old(self).fields(), old(self).token())),
            built is Ok ==> (final(self).built() matches Some(transport)
                && transport.fields().dom().contains("accept"@) && transport.fields()["accept"@]
                == vstd::utf8::encode_utf8("application/json"@) && (
            transport.fields().dom().contains("authorization"@) <==> old(self).token() is Some)),
            built is Err ==> final(self).built() == old(self).built(),
            (built matches Err(ConfigError::InvalidToken)) <==> (old(self).fields() == no_fields()
                && !can_be_owed(old(self).token())),
            !(built matches Err(ConfigError::MissingToken)),
    {
        proof {
            use_type_invariant(&*self);
            lemma_derived_fields_are_few();
            lemma_owed_fields(self.token());
        }
        let built = if self.headers.is_derived() {
            proof {
                let token = choose|token: Seq<char>|
                    self.headers.fields() == #[trigger] derived_fields(token);
                lemma_owed_fields(Some(token));
            }
            Transport::build(self.headers.map(), time_out, accept_invalid_cert)
        } else {
            match owed_headers(&self.bearer) {
                Ok(headers) => Transport::build(&headers, time_out, accept_invalid_cert),
                Err(error) => Err(error),
            }
        };
        match built {
            Ok(transport) => {
                self.client = Some(transport);
                Ok(())
            },
            Err(error) => Err(error),
        }
    }

    /// The base URL, if one was given.
    pub fn base_url(&self) -> (url: Option<&String>)
        ensures
            url matches Some(found) ==> self.base() == Some(found@),
            url is None ==> self.base() is None,
    {
        self.base_url.as_ref()
    }

    /// The bearer token, if one was set.
    pub fn bearer(&self) -> (token: Option<&String>)
        ensures
            token matches Some(found) ==> self.token() == Some(found@),
            token is None ==> self.token() is None,
    {
        self.bearer.as_ref()
    }

    /// The header map, as it is handed to the transport.
    pub fn headers(&self) -> (headers: &HeaderMap)
        ensures
            header_fields(*headers) == self.fields(),
            header_extras(*headers) == 0,
    {
        self.headers.map()
    }

    /// The transport, if one was built.
    pub fn transport(&self) -> (transport: Option<&Transport>)
        ensures
            transport matches Some(found) ==> self.built() == Some(*found),
            transport is None ==> self.built() is None,
    {
        self.client.as_ref()
    }
}

impl Clone for Client {
    /// A client with the same base URL, token and header set, and with a
    /// transport of the same settings where this one has a transport.
    fn clone(&self) -> (copy: Client)
        ensures
            copy.base() == self.base(),
            copy.token() == self.token(),
            copy.fields() == self.fields(),
            self.built() is None ==> copy.built() is None,
            self.built() matches Some(transport) ==> (copy.built() matches Some(second)
                && second.timeout() == transport.timeout() && second.lenient()
                == transport.lenient() && second.fields() == transport.fields()),
    {
        proof {
            use_type_invariant(self);
        }
        Client {
            base_url: match &self.base_url {
                Some(url) => Some(url.clone()),
                None => None,
            },
            bearer: match &self.bearer {
                Some(token) => Some(token.clone()),
                None => None,
            },
            headers: self.headers.copy(),
            client: match &self.client {
                Some(transport) => Some(transport.clone()),
                None => None,
            },
        }
    }
}

} // verus!
