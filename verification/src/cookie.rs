use crate::store::Toasts;
use vstd::prelude::*;

verus! {

/// The error of a failed percent-decoding, as `wasm_cookies` hands it on
/// from the `urlencoding` crate. Nothing is read from it.
#[verifier::external_type_specification]
#[verifier::external_body]
pub struct ExFromUrlEncodingError(wasm_cookies::FromUrlEncodingError);

/// Why no store could be made from the document's cookies.
#[derive(Debug, Clone, Copy, PartialEq, Eq, Structural)]
pub enum CookieError {
    /// The document has no cookie of the store's name.
    CookieNotPresent,
    /// The cookie is there, but what it holds cannot be decoded.
    InvalidCookie,
}

/// The name of the cookie under which the store persists.
pub open spec fn cookie_name_spec() -> Seq<char> {
    "sycamore_toasts"@
}

/// The name of the cookie under which the store persists.
pub fn cookie_name() -> (name: &'static str)
    ensures
        name@ == cookie_name_spec(),
{
    "sycamore_toasts"
}

/// What `wasm_cookies::cookies::get` finds under `name` in the cookie string
/// of a document: `None` where the string holds no cookie of that name,
/// `Some(None)` where the first such cookie has a value that cannot be
/// percent-decoded, and else `Some(Some(value))`, the decoded value.
pub uninterp spec fn cookie_value(cookie_string: Seq<char>, name: Seq<char>) -> Option<
    Option<Seq<char>>,
>;

/// The string that `wasm_cookies::cookies::set` gives for `name`, `value` and
/// the default options: assigned to the document's cookie string, it stores
/// `value` under `name`.
pub uninterp spec fn cookie_assignment(name: Seq<char>, value: Seq<char>) -> Seq<char>;

/// Looks `name` up in `cookie_string` with `wasm_cookies::cookies::get`. The
/// result depends on the two strings alone, and the contract gives it the
/// name `cookie_value`.
#[verifier::external_body]
fn find_cookie(cookie_string: &str, name: &str) -> (found: Option<
    Result<String, wasm_cookies::FromUrlEncodingError>,
>)
    ensures
        cookie_value(cookie_string@, name@) == match found {
            None => None,
            Some(Err(_)) => Some(None),
            Some(Ok(value)) => Some(Some(value@)),
        },
{
    wasm_cookies::cookies::get(cookie_string, name)
}

/// Builds, with `wasm_cookies::cookies::set` and the default options of
/// `wasm_cookies::CookieOptions`, the string that stores `value` under
/// `name`. The result depends on the two strings alone, and the contract
/// gives it the name `cookie_assignment`.
#[verifier::external_body]
fn assign_cookie(name: &str, value: &str) -> (assignment: String)
    ensures
        assignment@ == cookie_assignment(name@, value@),
{
    wasm_cookies::cookies::set(name, value, &wasm_cookies::CookieOptions::default())
}

/// The text that the store's cookie holds in `cookie_string`, the cookie
/// string of a document.
pub fn stored_text(cookie_string: &str) -> (text: Result<String, CookieError>)
    ensures
        match cookie_value(cookie_string@, cookie_name_spec()) {
            None => text == Err::<String, CookieError>(CookieError::CookieNotPresent),
            Some(None) => text == Err::<String, CookieError>(CookieError::InvalidCookie),
            Some(Some(value)) => text is Ok && text->Ok_0@ == value,
        },
{
    match find_cookie(cookie_string, cookie_name()) {
        None => Err(CookieError::CookieNotPresent),
        Some(Err(_)) => Err(CookieError::InvalidCookie),
        Some(Ok(value)) => Ok(value),
    }
}

/// The string that, assigned to the cookie string of a document, stores
/// `text` in the store's cookie.
pub fn cookie_for(text: &str) -> (assignment: String)
    ensures
        assignment@ == cookie_assignment(cookie_name_spec(), text@),
{
    assign_cookie(cookie_name(), text)
}

impl<T> Toasts<T> {
    /// The store for what a decoder made of the cookie's text: the decoded
    /// entries in their order, or `InvalidCookie` where it made nothing of
    /// the text.
    pub fn from_decoded(decoded: Option<Vec<(T, u8)>>) -> (store: Result<Self, CookieError>)
        ensures
            match decoded {
                Some(entries) => store is Ok && store->Ok_0@ == entries@,
                None => store is Err && store->Err_0 == CookieError::InvalidCookie,
            },
    {
        match decoded {
            Some(entries) => Ok(Toasts::from_entries(entries)),
            None => Err(CookieError::InvalidCookie),
        }
    }

    /// The store that persists in `cookie_string`, the cookie string of a
    /// document. `decode` turns the text of the cookie into entries, or into
    /// `None` where the text is not the stored form of any.
    pub fn from_cookies<F: Fn(&str) -> Option<Vec<(T, u8)>>>(cookie_string: &str, decode: F) -> (store:
        Result<Self, CookieError>)
        requires
            forall|text: &str| call_requires(decode, (text,)),
        ensures
            match cookie_value(cookie_string@, cookie_name_spec()) {
                None => store is Err && store->Err_0 == CookieError::CookieNotPresent,
                Some(None) => store is Err && store->Err_0 == CookieError::InvalidCookie,
                Some(Some(value)) => exists|text: &str, decoded: Option<Vec<(T, u8)>>|
                    {
                        &&& text@ == value
                        &&& call_ensures(decode, (text,), decoded)
                        &&& match decoded {
                            Some(entries) => store is Ok && store->Ok_0@ == entries@,
                            None => store is Err && store->Err_0 == CookieError::InvalidCookie,
                        }
                    },
            },
    {
        match stored_text(cookie_string) {
            Err(error) => Err(error),
            Ok(text) => {
                let decoded = decode(text.as_str());
                Toasts::from_decoded(decoded)
            },
        }
    }

    /// The string that, assigned to the cookie string of a document, persists
    /// the store. `encode` turns the entries into the text of the cookie.
    pub fn save_to_cookies<F: Fn(&Vec<(T, u8)>) -> String>(&self, encode: F) -> (assignment: String)
        requires
            forall|entries: &Vec<(T, u8)>| call_requires(encode, (entries,)),
        ensures
            exists|entries: &Vec<(T, u8)>, text: String|
                {
                    &&& entries@ == self@
                    &&& call_ensures(encode, (entries,), text)
                    &&& assignment@ == cookie_assignment(cookie_name_spec(), text@)
                },
    {
        let text = encode(self.entries());
        cookie_for(text.as_str())
    }
}

} // verus!
