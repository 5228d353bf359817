//! Fetching a field's text from its source and parsing it.
//!
//! One primitive, `fetch`, finds the text (or its absence) and parses it;
//! the required and optional variants differ only in what absence means.
use vstd::prelude::*;
use crate::args::{ArgMap, StrMap};
use crate::error::{ConfError, ConfErrorView, ParseError};
use crate::value::ConfValue;

verus! {

/// A snapshot of the process environment: variable name to value.
pub type EnvVars = StrMap<String>;

/// The text an environment holds for `key`, if any.
pub open spec fn env_raw(env: Map<Seq<char>, Seq<char>>, key: Seq<char>) -> Option<Seq<char>> {
    if env.contains_key(key) {
        Some(env[key])
    } else {
        None
    }
}

/// The text an argument map holds for `key`: a bare flag holds none.
pub open spec fn cli_raw(args: Map<Seq<char>, Option<Seq<char>>>, key: Seq<char>) -> Option<
    Seq<char>,
> {
    if args.contains_key(key) {
        args[key]
    } else {
        None
    }
}

/// The outcome of reading optional text: absent text gives `None`, text that
/// parses gives its value, other text a `ParseError` for `key`.
pub open spec fn fetch_spec<F: ConfValue>(raw: Option<Seq<char>>, key: Seq<char>) -> Result<
    Option<F::V>,
    ConfErrorView,
> {
    match raw {
        None => Ok(None),
        Some(s) => match F::parse_spec(s) {
            Ok(v) => Ok(Some(v)),
            Err(m) => Err(ConfErrorView::ParseError { field_name: key, message: m }),
        },
    }
}

/// The outcome of reading required text: as `fetch_spec`, with absence a
/// `MissingField` for `key`.
pub open spec fn required_spec<F: ConfValue>(raw: Option<Seq<char>>, key: Seq<char>) -> Result<
    F::V,
    ConfErrorView,
> {
    match fetch_spec::<F>(raw, key) {
        Ok(Some(v)) => Ok(v),
        Ok(None) => Err(ConfErrorView::MissingField { field_name: key }),
        Err(e) => Err(e),
    }
}

/// The model of a resolved required value.
pub open spec fn result_view<F: View>(r: Result<F, ConfError>) -> Result<F::V, ConfErrorView> {
    match r {
        Ok(v) => Ok(v@),
        Err(e) => Err(e@),
    }
}

/// The model of a resolved optional value.
pub open spec fn option_result_view<F: View>(r: Result<Option<F>, ConfError>) -> Result<
    Option<F::V>,
    ConfErrorView,
> {
    match r {
        Ok(Some(v)) => Ok(Some(v@)),
        Ok(None) => Ok(None),
        Err(e) => Err(e@),
    }
}

/// The model of borrowed optional text.
pub open spec fn raw_view(raw: Option<&String>) -> Option<Seq<char>> {
    match raw {
        Some(s) => Some(s@),
        None => None,
    }
}

/// The error for the field `name` whose text did not parse, with the
/// parser's message.
pub fn err_to_parse_err(name: &str, message: String) -> (r: ConfError)
    ensures
        r@ == (ConfErrorView::ParseError { field_name: name@, message: message@ }),
{
    ConfError::ParseError(ParseError { field_name: name.to_owned(), message })
}

/// Parses optional text found for `key`.
fn fetch<F: ConfValue>(raw: Option<&String>, key: &str) -> (r: Result<Option<F>, ConfError>)
    ensures
        option_result_view(r) == fetch_spec::<F>(raw_view(raw), key@),
{
    match raw {
        None => Ok(None),
        Some(s) => match F::parse_value(s.as_str()) {
            Ok(v) => Ok(Some(v)),
            Err(m) => Err(err_to_parse_err(key, m)),
        },
    }
}

/// Parses text that must be present for `key`.
fn fetch_required<F: ConfValue>(raw: Option<&String>, key: &str) -> (r: Result<F, ConfError>)
    ensures
        result_view(r) == required_spec::<F>(raw_view(raw), key@),
{
    match fetch::<F>(raw, key) {
        Ok(Some(v)) => Ok(v),
        Ok(None) => Err(ConfError::missing(key)),
        Err(e) => Err(e),
    }
}

/// The text of a flag, where it has one.
fn cli_text<'a>(arg_map: &'a ArgMap, name: &str) -> (r: Option<&'a String>)
    ensures
        raw_view(r) == cli_raw(arg_map@, name@),
{
    match arg_map.get(name) {
        Some(Some(v)) => Some(v),
        _ => None,
    }
}

/// Reads the required environment variable `name`: `MissingField` when it is
/// unset, `ParseError` when its value does not parse, else the value.
pub fn from_env_var<F: ConfValue>(env: &EnvVars, name: &str) -> (r: Result<F, ConfError>)
    ensures
        result_view(r) == required_spec::<F>(env_raw(env@, name@), name@),
{
    fetch_required::<F>(env.get(name), name)
}

/// Reads the optional environment variable `name`: `None` when it is unset,
/// `ParseError` when its value does not parse, else the value.
pub fn optional_from_env_var<F: ConfValue>(env: &EnvVars, name: &str) -> (r: Result<
    Option<F>,
    ConfError,
>)
    ensures
        option_result_view(r) == fetch_spec::<F>(env_raw(env@, name@), name@),
{
    fetch::<F>(env.get(name), name)
}

/// Reads the required flag `name`: `MissingField` when it is absent or bare,
/// `ParseError` when its value does not parse, else the value.
pub fn from_cli_arg<F: ConfValue>(arg_map: &ArgMap, name: &str) -> (r: Result<F, ConfError>)
    ensures
        result_view(r) == required_spec::<F>(cli_raw(arg_map@, name@), name@),
{
    fetch_required::<F>(cli_text(arg_map, name), name)
}

/// Reads the optional flag `name`: `None` when it is absent or bare,
/// `ParseError` when its value does not parse, else the value.
pub fn optional_from_cli_arg<F: ConfValue>(arg_map: &ArgMap, name: &str) -> (r: Result<
    Option<F>,
    ConfError,
>)
    ensures
        option_result_view(r) == fetch_spec::<F>(cli_raw(arg_map@, name@), name@),
{
    fetch::<F>(cli_text(arg_map, name), name)
}

} // verus!
