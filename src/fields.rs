//! Reading typed fields out of an element: attributes and text children,
//! required or optional, with the error that each failure gives.
use vstd::prelude::*;
use crate::datetime::{denotes, is_timestamp, DateTime};
use crate::literal::{bool_value, parse_bool, parse_usize, usize_value, DecodeError};
use crate::xml::{attribute, child, find_attribute, find_child, text_of, text_value, Element};

verus! {

pub open spec fn string_view(o: Option<String>) -> Option<Seq<char>> {
    match o {
        Some(s) => Some(s@),
        None => None,
    }
}

/// The text of the first child named `name`.
pub open spec fn child_text(e: Element, name: Seq<char>) -> Option<Seq<char>> {
    match child(e, name) {
        Some(c) => Some(text_value(c)),
        None => None,
    }
}

/// The error names the field that was looked for.
pub open spec fn is_missing(err: DecodeError, name: Seq<char>) -> bool {
    err matches DecodeError::MissingField(n) && n@ == name
}

pub open spec fn is_malformed(err: DecodeError, name: Seq<char>) -> bool {
    err matches DecodeError::MalformedValue(n) && n@ == name
}

/// A decoded optional number: absent gives `None`, a valid literal its value.
pub open spec fn optional_usize_ok(text: Option<Seq<char>>, r: Option<usize>) -> bool {
    match text {
        None => r is None,
        Some(t) => usize_value(t) is Some && r == usize_value(t),
    }
}

pub open spec fn optional_usize_valid(text: Option<Seq<char>>) -> bool {
    text matches Some(t) ==> usize_value(t) is Some
}

pub open spec fn optional_bool_ok(text: Option<Seq<char>>, r: Option<bool>) -> bool {
    match text {
        None => r is None,
        Some(t) => bool_value(t) is Some && r == bool_value(t),
    }
}

pub open spec fn optional_bool_valid(text: Option<Seq<char>>) -> bool {
    text matches Some(t) ==> bool_value(t) is Some
}

pub fn name_string(name: &str) -> (r: String)
    ensures
        r@ == name@,
{
    String::from_str(name)
}

/// The value of a required attribute.
pub fn required_attribute(e: &Element, name: &str) -> (r: Result<String, DecodeError>)
    ensures
        r matches Ok(v) ==> attribute(*e, name@) == Some(v@),
        r matches Err(err) ==> attribute(*e, name@) is None && is_missing(err, name@),
        r is Ok <==> attribute(*e, name@) is Some,
{
    match find_attribute(e, name) {
        Some(v) => Ok(v.clone()),
        None => Err(DecodeError::MissingField(name_string(name))),
    }
}

/// The value of an optional attribute.
pub fn optional_attribute(e: &Element, name: &str) -> (r: Option<String>)
    ensures
        string_view(r) == attribute(*e, name@),
{
    match find_attribute(e, name) {
        Some(v) => Some(v.clone()),
        None => None,
    }
}

/// The text of a required child element.
pub fn required_child_text(e: &Element, name: &str) -> (r: Result<String, DecodeError>)
    ensures
        r matches Ok(v) ==> child_text(*e, name@) == Some(v@),
        r matches Err(err) ==> child_text(*e, name@) is None && is_missing(err, name@),
        r is Ok <==> child_text(*e, name@) is Some,
{
    match find_child(e, name) {
        Some(i) => Ok(text_of(&e.children[i])),
        None => Err(DecodeError::MissingField(name_string(name))),
    }
}

/// The text of an optional child element.
pub fn optional_child_text(e: &Element, name: &str) -> (r: Option<String>)
    ensures
        string_view(r) == child_text(*e, name@),
{
    match find_child(e, name) {
        Some(i) => Some(text_of(&e.children[i])),
        None => None,
    }
}

/// The number in a required child element.
pub fn required_child_usize(e: &Element, name: &str) -> (r: Result<usize, DecodeError>)
    ensures
        r matches Ok(n) ==> child_text(*e, name@) matches Some(t) && usize_value(t) == Some(n),
        r matches Err(err) ==> match child_text(*e, name@) {
            None => is_missing(err, name@),
            Some(t) => usize_value(t) is None && is_malformed(err, name@),
        },
{
    let t = required_child_text(e, name)?;
    match parse_usize(t.as_str()) {
        Some(n) => Ok(n),
        None => Err(DecodeError::MalformedValue(name_string(name))),
    }
}

fn optional_usize_of(t: Option<String>, name: &str) -> (r: Result<Option<usize>, DecodeError>)
    ensures
        r matches Ok(v) ==> optional_usize_ok(string_view(t), v),
        r matches Err(err) ==> !optional_usize_valid(string_view(t)) && is_malformed(err, name@),
        r is Ok <==> optional_usize_valid(string_view(t)),
{
    match t {
        None => Ok(None),
        Some(s) => match parse_usize(s.as_str()) {
            Some(n) => Ok(Some(n)),
            None => Err(DecodeError::MalformedValue(name_string(name))),
        },
    }
}

fn optional_bool_of(t: Option<String>, name: &str) -> (r: Result<Option<bool>, DecodeError>)
    ensures
        r matches Ok(v) ==> optional_bool_ok(string_view(t), v),
        r matches Err(err) ==> !optional_bool_valid(string_view(t)) && is_malformed(err, name@),
        r is Ok <==> optional_bool_valid(string_view(t)),
{
    match t {
        None => Ok(None),
        Some(s) => match parse_bool(s.as_str()) {
            Some(b) => Ok(Some(b)),
            None => Err(DecodeError::MalformedValue(name_string(name))),
        },
    }
}

/// The number in an optional attribute.
pub fn optional_attribute_usize(e: &Element, name: &str) -> (r: Result<Option<usize>, DecodeError>)
    ensures
        r matches Ok(v) ==> optional_usize_ok(attribute(*e, name@), v),
        r matches Err(err) ==> !optional_usize_valid(attribute(*e, name@)) && is_malformed(
            err,
            name@,
        ),
        r is Ok <==> optional_usize_valid(attribute(*e, name@)),
{
    optional_usize_of(optional_attribute(e, name), name)
}

/// The boolean in an optional attribute.
pub fn optional_attribute_bool(e: &Element, name: &str) -> (r: Result<Option<bool>, DecodeError>)
    ensures
        r matches Ok(v) ==> optional_bool_ok(attribute(*e, name@), v),
        r matches Err(err) ==> !optional_bool_valid(attribute(*e, name@)) && is_malformed(
            err,
            name@,
        ),
        r is Ok <==> optional_bool_valid(attribute(*e, name@)),
{
    optional_bool_of(optional_attribute(e, name), name)
}

/// The number in an optional child element.
pub fn optional_child_usize(e: &Element, name: &str) -> (r: Result<Option<usize>, DecodeError>)
    ensures
        r matches Ok(v) ==> optional_usize_ok(child_text(*e, name@), v),
        r matches Err(err) ==> !optional_usize_valid(child_text(*e, name@)) && is_malformed(
            err,
            name@,
        ),
        r is Ok <==> optional_usize_valid(child_text(*e, name@)),
{
    optional_usize_of(optional_child_text(e, name), name)
}

/// The boolean in an optional child element.
pub fn optional_child_bool(e: &Element, name: &str) -> (r: Result<Option<bool>, DecodeError>)
    ensures
        r matches Ok(v) ==> optional_bool_ok(child_text(*e, name@), v),
        r matches Err(err) ==> !optional_bool_valid(child_text(*e, name@)) && is_malformed(
            err,
            name@,
        ),
        r is Ok <==> optional_bool_valid(child_text(*e, name@)),
{
    optional_bool_of(optional_child_text(e, name), name)
}

pub open spec fn optional_datetime_ok(text: Option<Seq<char>>, r: Option<DateTime>) -> bool {
    match text {
        None => r is None,
        Some(t) => r matches Some(d) && denotes(t, d),
    }
}

pub open spec fn optional_datetime_valid(text: Option<Seq<char>>) -> bool {
    text matches Some(t) ==> is_timestamp(t)
}

/// The timestamp in an optional child element.
pub fn optional_child_datetime(e: &Element, name: &str) -> (r: Result<Option<DateTime>, DecodeError>)
    ensures
        r matches Ok(v) ==> optional_datetime_ok(child_text(*e, name@), v),
        r matches Err(err) ==> !optional_datetime_valid(child_text(*e, name@)) && is_malformed(
            err,
            name@,
        ),
        r is Ok <==> optional_datetime_valid(child_text(*e, name@)),
{
    match optional_child_text(e, name) {
        None => Ok(None),
        Some(t) => match DateTime::parse(t.as_str()) {
            Some(d) => Ok(Some(d)),
            None => Err(DecodeError::MalformedValue(name_string(name))),
        },
    }
}

} // verus!
