//! What the service worker sends: the request as plain values, the path that
//! routing reads from its URI, and the form fields of its body.
use vstd::prelude::*;
use vstd::utf8::{decode_utf8, valid_utf8};
use crate::router::{param_get, params_view};
use crate::text::str_equal;

verus! {

/// An HTTP request as the service worker hands it over.
pub struct Request {
    /// The method, as its name (`GET`, `POST`, ...).
    pub method: String,
    /// The URI, as text.
    pub url: String,
    /// The headers, as (name, value) pairs.
    pub headers: Vec<(String, String)>,
    /// The body.
    pub body: String,
}

/// What the `http` crate gives for the path-and-query part of the URI text
/// `url` (`Uri::from_str`, then `Uri::path_and_query`): `None` where the text is
/// no URI, or where the URI has an authority but no scheme.
pub uninterp spec fn uri_path_and_query(url: Seq<char>) -> Option<Seq<char>>;

/// What `serde_urlencoded` decodes from a form body as (name, value) pairs,
/// or the text of its error.
pub uninterp spec fn form_decode(body: Seq<char>) -> Result<Seq<(Seq<char>, Seq<char>)>, Seq<char>>;

/// `http::Uri::from_str` on `url`, then `Uri::path_and_query` and `PathAndQuery::as_str`.
#[verifier::external_body]
fn parse_path_and_query(url: &str) -> (res: Option<String>)
    ensures
        match res {
            Some(p) => uri_path_and_query(url@) == Some(p@),
            None => uri_path_and_query(url@) is None,
        },
{
    url.parse::<http::Uri>().ok().and_then(|u| u.path_and_query().map(|p| p.as_str().to_string()))
}

/// `serde_urlencoded::from_str` into (name, value) pairs; its error is handed
/// back as its `Display` text.
#[verifier::external_body]
pub(crate) fn decode_form_pairs(body: &str) -> (res: Result<Vec<(String, String)>, String>)
    ensures
        match res {
            Ok(p) => form_decode(body@) == Ok::<Seq<(Seq<char>, Seq<char>)>, Seq<char>>(
                params_view(p@),
            ),
            Err(t) => form_decode(body@) == Err::<Seq<(Seq<char>, Seq<char>)>, Seq<char>>(t@),
        },
{
    serde_urlencoded::from_str::<Vec<(String, String)>>(body).map_err(|e| e.to_string())
}

/// The `Display` text of the error that `serde::de::Error::missing_field` makes
/// for `serde_urlencoded`: "missing field `name`".
#[verifier::external_body]
pub(crate) fn missing_field_message(field: &'static str) -> (res: String)
    ensures
        res@ == "missing field `"@ + field@ + "`"@,
{
    <serde_urlencoded::de::Error as serde::de::Error>::missing_field(field).to_string()
}

/// The `Display` text of the error that `serde::de::Error::duplicate_field`
/// makes for `serde_urlencoded`: "duplicate field `name`".
#[verifier::external_body]
pub(crate) fn duplicate_field_message(field: &'static str) -> (res: String)
    ensures
        res@ == "duplicate field `"@ + field@ + "`"@,
{
    <serde_urlencoded::de::Error as serde::de::Error>::duplicate_field(field).to_string()
}

/// `String::from_utf8`: the text that `bytes` encode, where they are valid UTF-8.
#[verifier::external_body]
pub(crate) fn string_from_utf8(bytes: Vec<u8>) -> (res: Option<String>)
    ensures
        res is Some <==> valid_utf8(bytes@),
        res matches Some(s) ==> s@ == decode_utf8(bytes@),
{
    String::from_utf8(bytes).ok()
}

/// How many of the pairs are named `name`.
pub open spec fn key_count(pairs: Seq<(Seq<char>, Seq<char>)>, name: Seq<char>) -> nat
    decreases pairs.len(),
{
    if pairs.len() == 0 {
        0
    } else {
        (if pairs[0].0 == name {
            1nat
        } else {
            0nat
        }) + key_count(pairs.drop_first(), name)
    }
}

/// The single text field `name` of a form, as serde's derived `Deserialize`
/// reads it from the decoded pairs: other names are ignored, a second pair
/// named `name` is an error, and so is no pair of that name.
pub open spec fn form_field_spec(pairs: Seq<(Seq<char>, Seq<char>)>, name: Seq<char>) -> Result<
    Seq<char>,
    Seq<char>,
> {
    if key_count(pairs, name) == 0 {
        Err("missing field `"@ + name + "`"@)
    } else if key_count(pairs, name) == 1 {
        Ok(param_get(pairs, name)->0)
    } else {
        Err("duplicate field `"@ + name + "`"@)
    }
}

/// Reads the single text field `name` from decoded form pairs; the error is
/// the text of serde's error.
pub fn form_field(pairs: &Vec<(String, String)>, name: &'static str) -> (res: Result<String, String>)
    ensures
        match res {
            Ok(v) => form_field_spec(params_view(pairs@), name@) == Ok::<Seq<char>, Seq<char>>(v@),
            Err(e) => form_field_spec(params_view(pairs@), name@) == Err::<Seq<char>, Seq<char>>(e@),
        },
{
    let ghost all = params_view(pairs@);
    let mut found: Option<String> = None;
    let mut i: usize = 0;
    assert(all.skip(0) =~= all);
    while i < pairs.len()
        invariant
            all == params_view(pairs@),
            i <= pairs.len(),
            found is None ==> key_count(all, name@) == key_count(all.skip(i as int), name@)
                && param_get(all, name@) == param_get(all.skip(i as int), name@),
            found matches Some(v) ==> key_count(all, name@) == 1 + key_count(
                all.skip(i as int),
                name@,
            ) && param_get(all, name@) == Some(v@),
        decreases pairs.len() - i,
    {
        let ghost rest = all.skip(i as int);
        assert(rest[0] == (pairs@[i as int].0@, pairs@[i as int].1@));
        assert(rest.drop_first() =~= all.skip(i + 1));
        if str_equal(pairs[i].0.as_str(), name) {
            if found.is_some() {
                return Err(duplicate_field_message(name));
            }
            found = Some(pairs[i].1.clone());
        }
        i = i + 1;
    }
    assert(all.skip(i as int) =~= Seq::<(Seq<char>, Seq<char>)>::empty());
    match found {
        Some(v) => Ok(v),
        None => Err(missing_field_message(name)),
    }
}

impl Request {
    /// The path-and-query part of the URI, as routing reads it.
    pub open spec fn path_spec(&self) -> Option<Seq<char>> {
        uri_path_and_query(self.url@)
    }

    /// The path-and-query part of the URI; `None` where the URI has none.
    pub fn path(&self) -> (res: Option<String>)
        ensures
            match res {
                Some(p) => self.path_spec() == Some(p@),
                None => self.path_spec() is None,
            },
    {
        parse_path_and_query(self.url.as_str())
    }
}

} // verus!
