//! A deployment configuration as it is, without a schema.
use vstd::prelude::*;

use crate::config::load::FromConfigValue;
use crate::diff::tidy;
use crate::error::DooverError;
use crate::json::{field, ref_doc, str_field, Json, Value};
use crate::json_text::{from_text, json_parse};
use crate::tags::triggers::{bits_of, number_bits};
use crate::text::opt_chars;

verus! {

/// A deployment configuration.
#[derive(Debug, Clone)]
pub struct Config {
    root: Value,
}

impl Default for Config {
    fn default() -> (c: Self)
        ensures
            c@ == Json::Null,
    {
        Config { root: Value::Null }
    }
}

impl View for Config {
    type V = Json;

    closed spec fn view(&self) -> Json {
        self.root@
    }
}

impl Config {
    /// The configuration that a value holds.
    pub fn from_value(root: Value) -> (c: Self)
        ensures
            c@ == root@,
    {
        Config { root }
    }

    /// The configuration that the text of a file holds.
    pub fn from_file(text: &str) -> (r: Result<Config, DooverError>)
        ensures
            match (r, json_parse(text@)) {
                (Ok(c), Ok(d)) => c@ == d,
                (Err(DooverError::Json(m)), Err(t)) => m@ == t,
                _ => false,
            },
            r matches Ok(c) ==> tidy(c@),
    {
        match from_text(text) {
            Ok(root) => Ok(Config { root }),
            Err(m) => Err(DooverError::Json(m)),
        }
    }

    /// The whole configuration.
    pub fn root(&self) -> (r: &Value)
        ensures
            r@ == self@,
    {
        &self.root
    }

    /// What a key of the configuration holds.
    pub fn get(&self, key: &str) -> (r: Option<&Value>)
        ensures
            ref_doc(r) == field(self@, key@),
    {
        self.root.get(key)
    }

    /// What a key of the configuration is loaded as.
    pub fn get_as<T: FromConfigValue>(&self, key: &str) -> (r: Option<T>)
        ensures
            match (field(self@, key@), r) {
                (Some(d), Some(x)) => T::fault(d) is None && x.loaded(d),
                (Some(d), None) => T::fault(d) is Some,
                (None, x) => x is None,
            },
    {
        match self.root.get(key) {
            Some(v) => match T::from_config_value(v) {
                Ok(x) => Some(x),
                Err(_) => None,
            },
            None => None,
        }
    }

    /// The string of a key.
    pub fn get_str(&self, key: &str) -> (r: Option<String>)
        ensures
            opt_chars(r) == str_field(self@, key@),
    {
        self.root.get_string(key)
    }

    /// The number of a key, by the bits of its double.
    pub fn get_f64(&self, key: &str) -> (r: Option<u64>)
        ensures
            r == (match field(self@, key@) {
                Some(d) => number_bits(d),
                None => None,
            }),
    {
        match self.root.get(key) {
            Some(v) => bits_of(v),
            None => None,
        }
    }

    /// The integer of a key.
    pub fn get_i64(&self, key: &str) -> (r: Option<i64>)
        ensures
            match (field(self@, key@), r) {
                (Some(Json::Int(i)), Some(n)) => i == n,
                (Some(Json::Int(i)), None) => !(i64::MIN <= i <= i64::MAX),
                (_, x) => x is None,
            },
    {
        match self.root.get(key) {
            Some(v) => v.as_i64(),
            None => None,
        }
    }

    /// The truth value of a key.
    pub fn get_bool(&self, key: &str) -> (r: Option<bool>)
        ensures
            r == (match field(self@, key@) {
                Some(Json::Bool(b)) => Some(b),
                _ => None,
            }),
    {
        match self.root.get(key) {
            Some(v) => v.as_bool(),
            None => None,
        }
    }
}

} // verus!
