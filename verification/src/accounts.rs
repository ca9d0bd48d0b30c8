//! A small user store: names with SHA-512 password digests, kept as a
//! JSON array of objects.
//!
//! The digests come from the sha2 crate and the JSON work from the json
//! crate, both behind trusted declarations; the lookup and update rules
//! around them are verified.

use vstd::prelude::*;
use sha2::Digest;

verus! {

/// A stored login: a name and the upper-case hex digest of the
/// password.
pub struct User {
    pub username: String,
    pub hash: String,
}

/// The upper-case hexadecimal SHA-512 digest of the UTF-8 bytes of a
/// string: a function of the characters alone.
pub uninterp spec fn sha512_hex(s: Seq<char>) -> Seq<char>;

/// Relies on sha2's Sha512 (update, then finalize): the digest of the
/// UTF-8 bytes of `plain`, rendered as upper-case hex by `{:X}`.
#[verifier::external_body]
fn sha512(plain: &str) -> (r: String)
    ensures
        r@ == sha512_hex(plain@),
{
    let mut hasher = sha2::Sha512::new();
    hasher.update(plain.as_bytes());
    format!("{:X}", hasher.finalize())
}

/// Whether some stored user has exactly this name and this password.
pub fn check_login(users: &Vec<User>, username: &str, password: &str) -> (r: bool)
    ensures
        r == exists|i: int|
            0 <= i < users@.len() && (#[trigger] users@[i]).username@ == username@
                && users@[i].hash@ == sha512_hex(password@),
{
    let uname = String::from_str(username);
    let h = sha512(password);
    let mut i: usize = 0;
    while i < users.len()
        invariant
            i <= users@.len(),
            uname@ == username@,
            h@ == sha512_hex(password@),
            forall|k: int|
                0 <= k < i ==> !((#[trigger] users@[k]).username@ == username@ && users@[k].hash@
                    == sha512_hex(password@)),
        decreases users@.len() - i,
    {
        if users[i].username.eq(&uname) && users[i].hash.eq(&h) {
            return true;
        }
        i = i + 1;
    }
    false
}

/// Adds a user with the digest of the given password, unless the name
/// is already taken: `true` exactly when the store grew.
pub fn add_user(users: &mut Vec<User>, username: String, password: String) -> (r: bool)
    ensures
        r == !(exists|i: int|
            0 <= i < old(users)@.len() && (#[trigger] old(users)@[i]).username@ == username@),
        !r ==> final (users)@ == old(users)@,
        r ==> {
            &&& final (users)@.len() == old(users)@.len() + 1
            &&& final (users)@.drop_last() == old(users)@
            &&& final (users)@.last().username@ == username@
            &&& final (users)@.last().hash@ == sha512_hex(password@)
        },
{
    let mut i: usize = 0;
    while i < users.len()
        invariant
            i <= users@.len(),
            forall|k: int| 0 <= k < i ==> (#[trigger] users@[k]).username@ != username@,
        decreases users@.len() - i,
    {
        if users[i].username.eq(&username) {
            return false;
        }
        i = i + 1;
    }
    let hash = sha512(password.as_str());
    users.push(User { username, hash });
    proof {
        assert(users@.drop_last() =~= old(users)@);
    }
    true
}

#[verifier::external_type_specification]
#[verifier::external_body]
pub struct ExJsonValue(json::JsonValue);

/// Whether the json crate accepts a string as a JSON document: a
/// function of the characters alone.
pub uninterp spec fn json_document_ok(s: Seq<char>) -> bool;

/// Relies on json::parse: `Ok` exactly on well-formed JSON text, and
/// the parse depends on the text alone.
#[verifier::external_body]
fn json_parse(s: &str) -> (r: Option<json::JsonValue>)
    ensures
        r is Some <==> json_document_ok(s@),
{
    match json::parse(s) {
        Ok(v) => Some(v),
        Err(_) => None,
    }
}

/// Relies on the json crate's JsonValue enum: borrows the elements of
/// the Array variant, `None` for every other variant.
#[verifier::external_body]
fn json_as_array<'a>(v: &'a json::JsonValue) -> Option<&'a Vec<json::JsonValue>> {
    match v {
        json::JsonValue::Array(items) => Some(items),
        _ => None,
    }
}

/// Relies on JsonValue's Index<&str> and Display: the text of the named
/// member of an object (the text of Null when absent).
#[verifier::external_body]
fn json_member_text(v: &json::JsonValue, key: &str) -> String {
    v[key].to_string()
}

/// One user record per JSON value, from the text of its "username" and
/// "hash" members.
fn users_from_entries(entries: &Vec<json::JsonValue>) -> (r: Vec<User>)
    ensures
        r@.len() == entries@.len(),
{
    let mut users: Vec<User> = Vec::new();
    let mut i: usize = 0;
    while i < entries.len()
        invariant
            i <= entries@.len(),
            users@.len() == i,
        decreases entries@.len() - i,
    {
        users.push(
            User {
                username: json_member_text(&entries[i], "username"),
                hash: json_member_text(&entries[i], "hash"),
            },
        );
        i = i + 1;
    }
    users
}

/// Reads the user records out of a parsed user database: one user per
/// element of the top-level array; `None` when the document is not an
/// array.
pub fn parse_users(parsed: &json::JsonValue) -> Option<Vec<User>> {
    match json_as_array(parsed) {
        Some(items) => Some(users_from_entries(items)),
        None => None,
    }
}

/// Reads the user store from JSON text: `None` when the text is not
/// well-formed JSON or its top level is not an array.
pub fn load_users(text: &str) -> (r: Option<Vec<User>>)
    ensures
        !json_document_ok(text@) ==> r is None,
{
    match json_parse(text) {
        Some(v) => parse_users(&v),
        None => None,
    }
}

/// Relies on JsonValue construction (object::Object::new and insert,
/// From<&str>): the object {"username": ..., "hash": ...}.
#[verifier::external_body]
fn json_user_object(username: &str, hash: &str) -> json::JsonValue {
    let mut obj = json::object::Object::new();
    obj.insert("username", json::JsonValue::from(username));
    obj.insert("hash", json::JsonValue::from(hash));
    json::JsonValue::Object(obj)
}

/// Relies on JsonValue::dump: the compact JSON text of the array of the
/// given elements.
#[verifier::external_body]
fn json_array_dump(items: Vec<json::JsonValue>) -> String {
    json::JsonValue::Array(items).dump()
}

/// The JSON text of the user database: a single array holding one
/// object per user, in store order.
pub fn users_json_text(users: &[User]) -> String {
    let mut items: Vec<json::JsonValue> = Vec::new();
    let mut i: usize = 0;
    while i < users.len()
        invariant
            i <= users@.len(),
        decreases users@.len() - i,
    {
        items.push(json_user_object(users[i].username.as_str(), users[i].hash.as_str()));
        i = i + 1;
    }
    json_array_dump(items)
}

} // verus!
