//! Binding one field: from its rule and the source environment to a value.

use crate::env::Env;
use crate::error::{CfgError, CfgErrorView};
use crate::parse::{list_result, parse_scalar, parse_vec, scalar_result, value_views};
use crate::scalar::Scalar;
use crate::text::{trim, trimmed};
use vstd::prelude::*;

verus! {

/// How a field is bound to a source: where its text is found, what stands
/// in when none is found, whether that is an error, and how a list is cut.
#[derive(Clone, Debug, PartialEq, Eq)]
pub struct Rule {
    /// The key under which the source holds the field's text.
    pub key: String,
    /// The text to read where the source holds none.
    pub default: Option<String>,
    /// Whether a field without text and without default fails the load.
    pub required: bool,
    /// What separates the items of a list.
    pub delimiter: String,
}

/// The text that a source holds for `key`, if it holds more than white
/// space. A value that is empty once trimmed counts as no value.
pub open spec fn source_text(env: Map<Seq<char>, Seq<char>>, key: Seq<char>) -> Option<
    Seq<char>,
> {
    if env.contains_key(key) && trimmed(env[key]).len() > 0 {
        Some(env[key])
    } else {
        None
    }
}

/// The view of an optional string.
pub open spec fn text_view(s: Option<String>) -> Option<Seq<char>> {
    match s {
        Some(t) => Some(t@),
        None => None,
    }
}

/// What a scalar field with `rule` is bound to in `env`.
///
/// Text in the source is parsed as it stands. Without text, a default is
/// parsed in its place; without a default, a required field is missing,
/// and any other gets the type's empty value. A default thus stands in
/// for a required field too.
pub open spec fn scalar_binding<T: Scalar>(env: Map<Seq<char>, Seq<char>>, rule: Rule) -> Result<
    T::V,
    CfgErrorView,
> {
    match source_text(env, rule.key@) {
        Some(raw) => scalar_result::<T>(rule.key@, raw),
        None => match rule.default {
            Some(text) => scalar_result::<T>(rule.key@, text@),
            None => if rule.required {
                Err(CfgErrorView::MissingEnv(rule.key@))
            } else {
                Ok(T::zero())
            },
        },
    }
}

/// What a list field with `rule` is bound to in `env`: as a scalar field,
/// but the text is cut at the rule's delimiter and read item by item,
/// and the empty value is the empty list.
pub open spec fn list_binding<T: Scalar>(env: Map<Seq<char>, Seq<char>>, rule: Rule) -> Result<
    Seq<T::V>,
    CfgErrorView,
> {
    match source_text(env, rule.key@) {
        Some(raw) => list_result::<T>(rule.key@, raw, rule.delimiter@),
        None => match rule.default {
            Some(text) => list_result::<T>(rule.key@, text@, rule.delimiter@),
            None => if rule.required {
                Err(CfgErrorView::MissingEnv(rule.key@))
            } else {
                Ok(Seq::empty())
            },
        },
    }
}

/// Looks `key` up in `env`.
pub fn get_env(env: &Env, key: &str) -> (r: Option<String>)
    ensures
        match r {
            Some(v) => env@.contains_key(key@) && v@ == env@[key@],
            None => !env@.contains_key(key@),
        },
{
    env.get(key)
}

/// The text that `env` holds for `key`, if it holds more than white space.
pub fn lookup(env: &Env, key: &str) -> (r: Option<String>)
    ensures
        text_view(r) == source_text(env@, key@),
{
    match get_env(env, key) {
        Some(raw) => {
            if trim(raw.as_str()).is_empty() {
                None
            } else {
                Some(raw)
            }
        },
        None => None,
    }
}

impl Rule {
    /// The rule of an optional field under `key`, without default, whose
    /// lists are cut at commas.
    pub fn new(key: &str) -> (r: Rule)
        ensures
            r.key@ == key@,
            r.default is None,
            !r.required,
            r.delimiter@ == seq![','],
    {
        let delimiter = ",".to_owned();
        proof {
            reveal_strlit(",");
        }
        Rule { key: key.to_owned(), default: None, required: false, delimiter }
    }

    /// Binds a scalar field of type `T`.
    pub fn bind_scalar<T: Scalar>(&self, env: &Env) -> (r: Result<T, CfgError>)
        ensures
            match r {
                Ok(v) => scalar_binding::<T>(env@, *self) == Ok::<T::V, CfgErrorView>(v@),
                Err(e) => scalar_binding::<T>(env@, *self) == Err::<T::V, CfgErrorView>(e@),
            },
    {
        match lookup(env, self.key.as_str()) {
            Some(raw) => parse_scalar::<T>(self.key.as_str(), raw),
            None => match &self.default {
                Some(text) => parse_scalar::<T>(self.key.as_str(), text.clone()),
                None => if self.required {
                    Err(CfgError::MissingEnv(self.key.clone()))
                } else {
                    Ok(T::empty())
                },
            },
        }
    }

    /// Binds a list field with items of type `T`.
    pub fn bind_list<T: Scalar>(&self, env: &Env) -> (r: Result<Vec<T>, CfgError>)
        ensures
            match r {
                Ok(values) => list_binding::<T>(env@, *self) == Ok::<Seq<T::V>, CfgErrorView>(
                    value_views(values@),
                ),
                Err(e) => list_binding::<T>(env@, *self) == Err::<Seq<T::V>, CfgErrorView>(e@),
            },
    {
        match lookup(env, self.key.as_str()) {
            Some(raw) => parse_vec::<T>(self.key.as_str(), raw, self.delimiter.as_str()),
            None => match &self.default {
                Some(text) => parse_vec::<T>(
                    self.key.as_str(),
                    text.clone(),
                    self.delimiter.as_str(),
                ),
                None => if self.required {
                    Err(CfgError::MissingEnv(self.key.clone()))
                } else {
                    let values: Vec<T> = Vec::new();
                    assert(value_views(values@) =~= Seq::<T::V>::empty());
                    Ok(values)
                },
            },
        }
    }
}

} // verus!
