//! The decisions behind the HTTP routes: login, registration, availability
//! checks, and the offer/answer exchange posted to a room. The HTTP
//! transport and the SQL store are external collaborators; each route
//! function here takes what they reported and decides the status and the
//! state change.

use vstd::prelude::*;
use vstd::string::StringSliceAdditionalSpecFns;
use crate::games_api::{RegistryError, RoomRegistry, room_index_from};
use crate::password::{argon2_verifies, hash_is_correct, hash_password};
use crate::repository::AccountData;
use crate::signal::utf8_string;

verus! {

/// The double-quote byte stripped from posted offer bodies.
pub const QUOTE_BYTE: u8 = 34;

/// `s` with every double-quote byte among its first `n` bytes removed.
pub open spec fn stripped_upto(s: Seq<u8>, n: int) -> Seq<u8>
    decreases n,
{
    if n <= 0 {
        Seq::<u8>::empty()
    } else {
        stripped_upto(s, n - 1)
            + if s[n - 1] == QUOTE_BYTE { Seq::<u8>::empty() } else { seq![s[n - 1]] }
    }
}

/// `s` with every double-quote byte removed.
pub open spec fn stripped(s: Seq<u8>) -> Seq<u8> {
    stripped_upto(s, s.len() as int)
}

/// Every byte the stripping keeps comes from the input.
proof fn lemma_stripped_bytes_from(s: Seq<u8>, n: int)
    requires
        0 <= n <= s.len(),
    ensures
        forall|i: int| 0 <= i < stripped_upto(s, n).len() ==>
            exists|j: int| 0 <= j < n && s[j] == #[trigger] stripped_upto(s, n)[i],
    decreases n,
{
    if n > 0 {
        lemma_stripped_bytes_from(s, n - 1);
        let prev = stripped_upto(s, n - 1);
        let cur = stripped_upto(s, n);
        assert forall|i: int| 0 <= i < cur.len() implies
            exists|j: int| 0 <= j < n && s[j] == #[trigger] cur[i] by {
            if i < prev.len() {
                assert(cur[i] == prev[i]);
                let j = choose|j: int| 0 <= j < n - 1 && s[j] == prev[i];
                assert(s[j] == cur[i]);
            } else {
                assert(s[n - 1] != QUOTE_BYTE && cur[i] == s[n - 1]);
            }
        }
    }
}

/// Remove every double quote from a posted offer body, as text. A body
/// that is not ASCII is rejected as malformed.
pub fn strip_quotes(body: &str) -> (r: Option<String>)
    ensures
        body.is_ascii() ==> (r matches Some(t)
            && t@ == stripped(body.spec_bytes()).map_values(|b: u8| b as char)),
{
    let bytes = body.as_bytes();
    let n = bytes.len();
    let mut kept: Vec<u8> = Vec::new();
    let mut i: usize = 0;
    while i < n
        invariant
            n == bytes@.len(),
            i <= n,
            kept@ == stripped_upto(bytes@, i as int),
            forall|k: int| 0 <= k < kept@.len() ==>
                exists|j: int| 0 <= j < i && bytes@[j] == #[trigger] kept@[k],
        decreases n - i,
    {
        let b = bytes[i];
        if b != QUOTE_BYTE {
            kept.push(b);
        }
        proof {
            assert(kept@ =~= stripped_upto(bytes@, i as int + 1));
            lemma_stripped_bytes_from(bytes@, i as int + 1);
        }
        i += 1;
    }
    proof {
        if body.is_ascii() {
            assert forall|k: int| 0 <= k < kept@.len() implies kept@[k] < 128 by {
                let j = choose|j: int| 0 <= j < n && bytes@[j] == kept@[k];
            }
        }
    }
    match utf8_string(kept) {
        Some(t) => Some(t),
        None => None,
    }
}

/// What serde_json's string serialization yields: the text wrapped in
/// quotes with JSON escaping applied.
pub uninterp spec fn json_string_of(s: Seq<char>) -> Seq<char>;

/// Relies on serde_json::to_string for a string value: the JSON form is a
/// function of the text alone, and serializing a plain string never fails.
#[verifier::external_body]
fn json_quote(s: &str) -> (r: String)
    ensures
        r@ == json_string_of(s@),
{
    match serde_json::to_string(s) {
        Ok(t) => t,
        Err(_) => String::new(),
    }
}

/// Route a posted offer body to the room named `id`: strip its quotes and
/// queue it under the caller's ticket. An unknown room id is reported as
/// not found at once — the caller never blocks on it; a non-ASCII body is
/// rejected as malformed.
pub fn post_sdp_session(
    registry: &mut RoomRegistry,
    id: &String,
    body: &str,
    ticket: u64,
) -> (r: Result<(), RegistryError>)
    requires
        old(registry).wf(),
    ensures
        final(registry).wf(),
        r is Err ==> *final(registry) == *old(registry),
        body.is_ascii() ==> {
            &&& (r is Ok <==> room_index_from(old(registry).rooms_view(), id@, 0) >= 0)
            &&& (r matches Err(e) ==> e == RegistryError::RoomNotFound)
            &&& r is Ok ==> ({
                let ri = room_index_from(old(registry).rooms_view(), id@, 0);
                &&& final(registry).rooms_view().len() == old(registry).rooms_view().len()
                &&& final(registry).rooms_view()[ri].pending_offers@.len()
                    == old(registry).rooms_view()[ri].pending_offers@.len() + 1
                &&& ({
                    let queued = final(registry).rooms_view()[ri].pending_offers@.last();
                    queued.0@ == stripped(body.spec_bytes()).map_values(|b: u8| b as char)
                        && queued.1 == ticket
                })
            })
        },
{
    let offer = strip_quotes(body);
    match offer {
        Some(offer) => registry.route_offer(id, offer, ticket),
        None => Err(RegistryError::RoomNotFound),
    }
}

/// Build the HTTP answer for a completed or broken offer exchange: the
/// correlated answer as a JSON string with status 200, or status 500 when
/// the room closed before answering.
pub fn sdp_response(reply: Option<String>) -> (r: (u16, String))
    ensures
        r.0 == 200 <==> reply is Some,
        reply matches Some(answer) ==> r.1@ == json_string_of(answer@),
        reply is None ==> r.0 == 500,
{
    match reply {
        Some(description) => (200, json_quote(description.as_str())),
        None => (500, String::from_str("problem with channel")),
    }
}

/// The credentials a login request carries.
pub struct Credentials {
    pub email: String,
    pub password: String,
}

/// The fields a registration request carries.
pub struct CreateUser {
    pub email: String,
    pub name: String,
    pub password: String,
}

/// The login decision, from what the account store reported: 404 when the
/// email is unknown, 401 when the stored hash rejects the candidate, 200
/// when it accepts it.
pub fn login_decision(email_exists: bool, stored_hash: String, payload: Credentials) -> (r: u16)
    ensures
        !email_exists ==> r == 404,
        email_exists && argon2_verifies(stored_hash@, payload.password@) ==> r == 200,
        email_exists && !argon2_verifies(stored_hash@, payload.password@) ==> r == 401,
{
    if !email_exists {
        return 404;
    }
    if !hash_is_correct(stored_hash, payload.password) {
        return 401;
    }
    200
}

/// The registration decision, from what the account store reported:
/// forbidden when either availability check failed, otherwise the account
/// row to insert, with the password hashed for storage; a hashing failure
/// surfaces as an internal error.
pub fn create_user_decision(
    name_taken: bool,
    email_taken: bool,
    payload: CreateUser,
) -> (r: (u16, Option<AccountData>))
    ensures
        name_taken || email_taken ==> r.0 == 403 && r.1 is None,
        !name_taken && !email_taken ==> {
            ||| (r.0 == 201 && (r.1 matches Some(a)
                && a.name == payload.name && a.email == payload.email))
            ||| (r.0 == 500 && r.1 is None)
        },
{
    if name_taken || email_taken {
        return (403, None);
    }
    let CreateUser { email, name, password } = payload;
    match hash_password(password) {
        Some(password_hash) => (201, Some(AccountData { name, email, password_hash })),
        None => (500, None),
    }
}

/// The name-availability decision: 406 when the name is taken, 200 when it
/// is free.
pub fn is_name_available(name_exists: bool) -> (r: u16)
    ensures
        r == 406 <==> name_exists,
        r == 200 <==> !name_exists,
{
    if name_exists { 406 } else { 200 }
}

/// The email-availability decision: 406 when the email is taken, 200 when
/// it is free.
pub fn is_email_available(email_exists: bool) -> (r: u16)
    ensures
        r == 406 <==> email_exists,
        r == 200 <==> !email_exists,
{
    if email_exists { 406 } else { 200 }
}

} // verus!
