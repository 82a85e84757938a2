//! The header set that every request of a client carries, kept in the HTTP
//! crate's own header map.

use crate::error::ConfigError;
use reqwest::header::{HeaderMap, HeaderValue, InvalidHeaderValue};
use vstd::prelude::*;

verus! {

#[verifier::external_type_specification]
#[verifier::external_body]
#[verifier::reject_recursive_types(T)]
pub struct ExHeaderMap<T>(HeaderMap<T>);

#[verifier::external_type_specification]
#[verifier::external_body]
pub struct ExHeaderValue(HeaderValue);

#[verifier::external_type_specification]
#[verifier::external_body]
pub struct ExInvalidHeaderValue(InvalidHeaderValue);

/// What a header map holds: for each header name in it, in lower case, the
/// bytes of the first value stored under that name.
pub uninterp spec fn header_fields(map: HeaderMap<HeaderValue>) -> Map<Seq<char>, Seq<u8>>;

/// How many values a header map holds beyond the first of each name.
pub uninterp spec fn header_extras(map: HeaderMap<HeaderValue>) -> nat;

/// The contents of a header map that holds nothing.
pub open spec fn no_fields() -> Map<Seq<char>, Seq<u8>> {
    Map::empty()
}

/// A number of names below which a header map never refuses to grow: it
/// does so at 24576 names, and at 6554 where its hashes collided heavily.
pub const FIELD_LIMIT: usize = 1024;

/// Whether a header value may hold the byte `b`: the tab, and every byte
/// that is not a control character.
pub open spec fn is_value_byte(b: u8) -> bool {
    (b >= 32 && b != 127) || b == 9
}

/// Whether `text` can be a header value: every byte of its UTF-8 encoding
/// is one that a header value may hold.
pub open spec fn is_header_text(text: Seq<char>) -> bool {
    let bytes = vstd::utf8::encode_utf8(text);
    forall|i: int| 0 <= i < bytes.len() ==> is_value_byte(#[trigger] bytes[i])
}

/// Whether `name` is a header name made of lower-case letters and hyphens
/// only, of at most 64 characters. Such a name is stored as it is written.
pub open spec fn is_plain_field_name(name: Seq<char>) -> bool {
    &&& 0 < name.len() <= 64
    &&& forall|i: int|
        0 <= i < name.len() ==> ('a' <= #[trigger] name[i] <= 'z' || name[i] == '-')
}

/// `HeaderMap::new` of the HTTP crate: a map that holds no header.
#[verifier::external_body]
pub(crate) fn new_header_map() -> (fresh: HeaderMap)
    ensures
        header_fields(fresh) == no_fields(),
        header_extras(fresh) == 0,
{
    HeaderMap::new()
}

/// `Clone` of the HTTP crate's header map: the copy holds what the map
/// holds.
#[verifier::external_body]
fn clone_header_map(map: &HeaderMap) -> (copy: HeaderMap)
    ensures
        header_fields(copy) == header_fields(*map),
        header_extras(copy) == header_extras(*map),
{
    map.clone()
}

/// `HeaderValue::from_str` and `HeaderMap::insert` of the HTTP crate, with
/// the name given as a static string. The text becomes a header value
/// exactly where every byte of it is one that a header value may hold; the
/// map is left alone where it does not. Afterwards the bytes of the text
/// are the only value under `name`, and every other name keeps what it
/// had, so no value beyond the first of a name is added. The insertion
/// panics on an invalid name and on a map that refuses to grow, so the name
/// has to be a plain one and the map below the limit.
#[verifier::external_body]
fn insert_text(map: &mut HeaderMap, name: &'static str, text: &str) -> (made: Result<
    (),
    InvalidHeaderValue,
>)
    requires
        is_plain_field_name(name@),
        header_fields(*old(map)).dom().finite(),
        header_fields(*old(map)).dom().len() < FIELD_LIMIT,
    ensures
        made is Ok <==> is_header_text(text@),
        made is Ok ==> header_fields(*final(map)) == header_fields(*old(map)).insert(
            name@,
            vstd::utf8::encode_utf8(text@),
        ),
        made is Err ==> header_fields(*final(map)) == header_fields(*old(map)),
        made is Ok ==> header_extras(*final(map)) <= header_extras(*old(map)),
        made is Err ==> header_extras(*final(map)) == header_extras(*old(map)),
{
    let value = HeaderValue::from_str(text)?;
    let _ = map.insert(name, value);
    Ok(())
}

/// The text of the `Authorization` header for a bearer token.
pub open spec fn authorization_text(token: Seq<char>) -> Seq<char> {
    "Bearer "@ + token
}

/// The header set derived from a bearer token: the token under
/// `authorization`, and `application/json` under `accept`.
pub open spec fn derived_fields(token: Seq<char>) -> Map<Seq<char>, Seq<u8>> {
    no_fields().insert(
        "authorization"@,
        vstd::utf8::encode_utf8(authorization_text(token)),
    ).insert("accept"@, vstd::utf8::encode_utf8("application/json"@))
}

/// The header set of a client without a token: `application/json` under
/// `accept`.
pub open spec fn accept_fields() -> Map<Seq<char>, Seq<u8>> {
    no_fields().insert("accept"@, vstd::utf8::encode_utf8("application/json"@))
}

/// A token as text.
pub open spec fn token_text(token: Option<String>) -> Option<Seq<char>> {
    match token {
        Some(text) => Some(text@),
        None => None,
    }
}

/// The header set that a client owes every request: `accept`, and
/// `authorization` exactly where it has a token.
pub open spec fn owed_fields(token: Option<Seq<char>>) -> Map<Seq<char>, Seq<u8>> {
    match token {
        Some(text) => derived_fields(text),
        None => accept_fields(),
    }
}

/// Whether the header set that a client owes can be written: it can,
/// unless the client has a token that no header value can carry.
pub open spec fn can_be_owed(token: Option<Seq<char>>) -> bool {
    match token {
        Some(text) => is_header_text(authorization_text(text)),
        None => true,
    }
}

/// The header set that a transport is built with: the set of the client
/// where one was derived, and else the set that the client owes.
pub open spec fn carried_fields(
    fields: Map<Seq<char>, Seq<u8>>,
    token: Option<Seq<char>>,
) -> Map<Seq<char>, Seq<u8>> {
    if fields == no_fields() {
        owed_fields(token)
    } else {
        fields
    }
}

proof fn lemma_field_names()
    ensures
        is_plain_field_name("authorization"@),
        is_plain_field_name("accept"@),
        "authorization"@ != "accept"@,
{
    reveal_strlit("authorization");
    reveal_strlit("accept");
}

proof fn lemma_json_is_header_text()
    ensures
        is_header_text("application/json"@),
{
    reveal_strlit("application/json");
    let text = "application/json"@;
    assert(vstd::utf8::is_ascii_chars(text));
    vstd::utf8::is_ascii_chars_encode_utf8(text);
    let bytes = vstd::utf8::encode_utf8(text);
    assert forall|i: int| 0 <= i < bytes.len() implies is_value_byte(#[trigger] bytes[i]) by {
        assert(text[i] as u8 == bytes[i]);
    }
}

/// A derived header set holds two names, one for a client without a token
/// holds one, and an empty one none: all are far below the limit at which
/// a header map refuses to grow.
pub proof fn lemma_derived_fields_are_few()
    ensures
        no_fields().dom().finite(),
        no_fields().dom().len() == 0,
        accept_fields().dom().finite(),
        accept_fields().dom().len() == 1,
        forall|token: Seq<char>|
            (#[trigger] derived_fields(token)).dom().finite() && derived_fields(token).dom().len()
                == 2,
{
    lemma_field_names();
    assert(accept_fields().dom() =~= set!["accept"@]);
    assert forall|token: Seq<char>|
        (#[trigger] derived_fields(token)).dom().finite() && derived_fields(token).dom().len()
            == 2 by {
        let one = no_fields().insert(
            "authorization"@,
            vstd::utf8::encode_utf8(authorization_text(token)),
        );
        assert(one.dom() =~= set!["authorization"@]);
        assert(derived_fields(token).dom() =~= set!["authorization"@].insert("accept"@));
    }
}

/// What a header set that is owed holds: `application/json` under `accept`,
/// and an `authorization` exactly where there is a token. An empty set
/// holds neither.
pub proof fn lemma_owed_fields(token: Option<Seq<char>>)
    ensures
        owed_fields(token).dom().contains("accept"@),
        owed_fields(token)["accept"@] == vstd::utf8::encode_utf8("application/json"@),
        owed_fields(token).dom().contains("authorization"@) <==> token is Some,
        token matches Some(text) ==> owed_fields(token)["authorization"@]
            == vstd::utf8::encode_utf8(authorization_text(text)),
        owed_fields(token) != no_fields(),
{
    lemma_field_names();
    assert(!no_fields().dom().contains("accept"@));
}

/// Writes the header set of a client without a token.
pub fn accept_headers() -> (map: HeaderMap)
    ensures
        header_fields(map) == accept_fields(),
        header_extras(map) == 0,
{
    let mut map = new_header_map();
    proof {
        lemma_json_is_header_text();
        lemma_field_names();
    }
    match insert_text(&mut map, "accept", "application/json") {
        Ok(()) => {},
        // Not taken: the text is one that a header value may hold.
        Err(_) => {},
    }
    map
}

/// Writes the header set that a client with this token, or with none,
/// owes every request. Fails, with `InvalidToken`, exactly when there is a
/// token that cannot be carried in a header value.
pub fn owed_headers(token: &Option<String>) -> (owed: Result<HeaderMap, ConfigError>)
    ensures
        can_be_owed(token_text(*token)) ==> (owed matches Ok(map) && header_fields(map)
            == owed_fields(token_text(*token)) && header_extras(map) == 0),
        !can_be_owed(token_text(*token)) ==> (owed matches Err(ConfigError::InvalidToken)),
{
    match token {
        Some(text) => derive_headers(text.as_str()),
        None => Ok(accept_headers()),
    }
}

/// Derives the header set from a bearer token. Fails, with `InvalidToken`,
/// exactly when the token cannot be carried in a header value. The map
/// holds one value under each of its two names.
pub fn derive_headers(token: &str) -> (derived: Result<HeaderMap, ConfigError>)
    ensures
        is_header_text(authorization_text(token@)) ==> (derived matches Ok(map)
            && header_fields(map) == derived_fields(token@) && header_extras(map) == 0),
        !is_header_text(authorization_text(token@)) ==> (derived matches Err(
            ConfigError::InvalidToken,
        )),
{
    let mut text = String::from_str("Bearer ");
    text.append(token);
    let mut map = new_header_map();
    proof {
        lemma_json_is_header_text();
        lemma_field_names();
    }
    match insert_text(&mut map, "authorization", text.as_str()) {
        Ok(()) => {},
        Err(_) => { return Err(ConfigError::InvalidToken); },
    }
    match insert_text(&mut map, "accept", "application/json") {
        Ok(()) => {},
        // Not taken: the text is one that a header value may hold.
        Err(_) => { return Err(ConfigError::InvalidToken); },
    }
    Ok(map)
}

/// The header set of a client: a header map that is empty until a set is
/// derived, and then holds a derived set.
#[derive(Debug)]
pub(crate) struct HeaderSet {
    map: HeaderMap,
    derived: bool,
}

impl HeaderSet {
    /// The map holds one value under each name; it is empty until a set
    /// is derived, and then one that was derived from some token.
    #[verifier::type_invariant]
    spec fn is_empty_or_derived(self) -> bool {
        &&& header_extras(self.map) == 0
        &&& !self.derived ==> header_fields(self.map) == no_fields()
        &&& self.derived ==> exists|token: Seq<char>|
            header_fields(self.map) == #[trigger] derived_fields(token)
    }

    /// What the header map holds.
    pub(crate) closed spec fn fields(&self) -> Map<Seq<char>, Seq<u8>> {
        header_fields(self.map)
    }

    /// The empty header set.
    pub(crate) fn empty() -> (set: HeaderSet)
        ensures
            set.fields() == no_fields(),
    {
        HeaderSet { map: new_header_map(), derived: false }
    }

    /// The header set derived from a bearer token, where the token can be
    /// carried in a header value.
    pub(crate) fn derive(token: &str) -> (derived: Result<HeaderSet, ConfigError>)
        ensures
            is_header_text(authorization_text(token@)) ==> (derived matches Ok(set) && set.fields()
                == derived_fields(token@)),
            !is_header_text(authorization_text(token@)) ==> (derived matches Err(
                ConfigError::InvalidToken,
            )),
    {
        match derive_headers(token) {
            Ok(map) => Ok(HeaderSet { map, derived: true }),
            Err(error) => Err(error),
        }
    }

    /// Whether a set was derived.
    pub(crate) fn is_derived(&self) -> (derived: bool)
        ensures
            derived == (self.fields() != no_fields()),
            derived ==> exists|token: Seq<char>| self.fields() == #[trigger] derived_fields(token),
    {
        proof {
            use_type_invariant(self);
            lemma_owed_fields(None);
            if self.derived {
                let token = choose|token: Seq<char>|
                    header_fields(self.map) == #[trigger] derived_fields(token);
                lemma_owed_fields(Some(token));
            }
        }
        self.derived
    }

    /// A copy that holds the same header set.
    pub(crate) fn copy(&self) -> (copy: HeaderSet)
        ensures
            copy.fields() == self.fields(),
    {
        proof {
            use_type_invariant(self);
        }
        HeaderSet { map: clone_header_map(&self.map), derived: self.derived }
    }

    /// The header map.
    pub(crate) fn map(&self) -> (map: &HeaderMap)
        ensures
            header_fields(*map) == self.fields(),
            header_extras(*map) == 0,
    {
        proof {
            use_type_invariant(self);
        }
        &self.map
    }
}

} // verus!
