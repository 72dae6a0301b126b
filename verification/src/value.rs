//! The two document trees: the source (YAML) value model and the target
//! (TOML) value model, together with the spec-level account of which source
//! trees convert and what they convert to.

use vstd::prelude::*;

verus! {

/// One node of a parsed YAML document.
///
/// Mapping keys are full nodes: YAML permits composite keys, and the mapper
/// must reject them rather than stringify them, so the model has to be able
/// to represent them.
#[derive(Debug, PartialEq)]
pub enum Yaml {
    /// A string scalar.
    Str(String),
    /// An integer scalar, 64-bit signed.
    Integer(i64),
    /// A float scalar, kept in its textual form exactly as the source
    /// document spelled it.
    Real(String),
    /// A boolean scalar.
    Boolean(bool),
    /// An ordered sequence of nodes.
    Array(Vec<Yaml>),
    /// A mapping, as the ordered list of its key/value pairs.
    Hash(Vec<(Yaml, Yaml)>),
    /// A reference to an anchor elsewhere in the document.
    Alias(usize),
    /// The null scalar.
    Null,
    /// A node the parser could not make sense of.
    BadValue,
}

/// One node of the generated TOML document.
///
/// There is deliberately no counterpart to `Alias` or `BadValue`: a source
/// tree containing either does not convert at all.
#[derive(Debug, PartialEq)]
pub enum Toml {
    /// A string value.
    Str(String),
    /// An integer value, 64-bit signed.
    Integer(i64),
    /// A float value, kept as the source text that produced it; the text is
    /// always a well-formed float literal, so the printer can parse it.
    Float(String),
    /// A boolean value.
    Boolean(bool),
    /// An array of values.
    Array(Vec<Toml>),
    /// A table, as the ordered list of its entries; keys are unique.
    Table(Vec<(String, Toml)>),
}

/// Whether one of the first `upto` pairs carries the string `key`.
pub open spec fn has_key(pairs: Seq<(Yaml, Yaml)>, upto: int, key: Seq<char>) -> bool {
    exists|j: int|
        0 <= j < upto && ((#[trigger] pairs[j]).0 matches Yaml::Str(s) && s@ == key)
}

/// The error the conversion reports for this tree, if any: the tree is walked
/// depth first, a mapping pair by pair with the key before the value, and the
/// first failing construct decides.
pub open spec fn first_err(y: Yaml) -> Option<ConvertError>
    decreases y, 0int,
{
    match y {
        Yaml::Str(_) => None,
        Yaml::Integer(_) => None,
        Yaml::Real(s) => if crate::float::is_float_text(s@) {
            None
        } else {
            Some(ConvertError::MalformedInput)
        },
        Yaml::Boolean(_) => None,
        Yaml::Array(items) => first_err_items(items@, 0),
        Yaml::Hash(pairs) => first_err_pairs(pairs@, 0),
        Yaml::Alias(_) => Some(ConvertError::UnsupportedConstruct),
        Yaml::Null => None,
        Yaml::BadValue => Some(ConvertError::MalformedInput),
    }
}

/// The first error among the sequence elements from index `i` on.
pub open spec fn first_err_items(items: Seq<Yaml>, i: int) -> Option<ConvertError>
    decreases items, items.len() - i,
{
    if i < 0 || i >= items.len() {
        None
    } else if first_err(items[i]) is Some {
        first_err(items[i])
    } else {
        first_err_items(items, i + 1)
    }
}

/// The first error among the mapping pairs from index `i` on: a key that is
/// not a plain string, a key already used by an earlier pair, or an error
/// inside the value.
pub open spec fn first_err_pairs(pairs: Seq<(Yaml, Yaml)>, i: int) -> Option<ConvertError>
    decreases pairs, pairs.len() - i,
{
    if i < 0 || i >= pairs.len() {
        None
    } else if !(pairs[i].0 is Str) {
        Some(ConvertError::UnsupportedConstruct)
    } else if has_key(pairs, i, pairs[i].0->Str_0@) {
        Some(ConvertError::MalformedInput)
    } else if first_err(pairs[i].1) is Some {
        first_err(pairs[i].1)
    } else {
        first_err_pairs(pairs, i + 1)
    }
}

/// A source tree converts exactly when no construct in it fails.
pub open spec fn yaml_ok(y: Yaml) -> bool {
    first_err(y) is None
}

/// What the conversion yields: `t` is the target tree for the source tree
/// `y`, node for node.
pub open spec fn converts_to(y: Yaml, t: Toml) -> bool
    decreases y, 0int,
{
    match y {
        Yaml::Str(s) => t matches Toml::Str(ts) && ts@ == s@,
        Yaml::Integer(n) => t == Toml::Integer(n),
        Yaml::Real(s) => crate::float::is_float_text(s@) && (t matches Toml::Float(ts) && ts@
            == s@),
        Yaml::Boolean(b) => t == Toml::Boolean(b),
        Yaml::Array(items) => t matches Toml::Array(ts) && ts@.len() == items@.len() && (forall|
            i: int,
        |
            0 <= i < items@.len() ==> converts_to(items@[i], #[trigger] ts@[i])),
        Yaml::Hash(pairs) => t matches Toml::Table(tp) && tp@.len() == pairs@.len() && (forall|
            i: int,
        |
            0 <= i < pairs@.len() ==> pair_converts(pairs@[i], #[trigger] tp@[i])),
        Yaml::Alias(_) => false,
        Yaml::Null => t matches Toml::Table(tp) && tp@.len() == 0,
        Yaml::BadValue => false,
    }
}

/// One mapping pair converts: the key is a plain string, copied as the table
/// key, and the value converts.
pub open spec fn pair_converts(p: (Yaml, Yaml), q: (String, Toml)) -> bool
    decreases p, 1int,
{
    p.0 matches Yaml::Str(k) && q.0@ == k@ && converts_to(p.1, q.1)
}

/// Well-formedness of a target tree: float texts are float literals and every
/// table's keys are unique.
pub open spec fn toml_wf(t: Toml) -> bool
    decreases t,
{
    match t {
        Toml::Str(_) => true,
        Toml::Integer(_) => true,
        Toml::Float(s) => crate::float::is_float_text(s@),
        Toml::Boolean(_) => true,
        Toml::Array(items) => forall|i: int|
            0 <= i < items@.len() ==> toml_wf(#[trigger] items@[i]),
        Toml::Table(pairs) => (forall|i: int|
            0 <= i < pairs@.len() ==> toml_wf((#[trigger] pairs@[i]).1)) && (forall|i: int, j: int|
            0 <= i < j < pairs@.len() ==> pairs@[i].0@ != pairs@[j].0@),
    }
}

/// Whether the tree holds an alias anywhere, keys included.
pub open spec fn has_alias(y: Yaml) -> bool
    decreases y,
{
    match y {
        Yaml::Alias(_) => true,
        Yaml::Array(items) => exists|i: int|
            0 <= i < items@.len() && has_alias(#[trigger] items@[i]),
        Yaml::Hash(pairs) => exists|i: int|
            0 <= i < pairs@.len() && (has_alias((#[trigger] pairs@[i]).0) || has_alias(
                pairs@[i].1,
            )),
        _ => false,
    }
}

/// Whether the tree is free of every defect the conversion reports as
/// malformed input: no node the parser rejected, no float scalar with a
/// broken text, and no mapping with a repeated key.
pub open spec fn no_malformed(y: Yaml) -> bool
    decreases y,
{
    match y {
        Yaml::BadValue => false,
        Yaml::Real(s) => crate::float::is_float_text(s@),
        Yaml::Array(items) => forall|i: int|
            0 <= i < items@.len() ==> no_malformed(#[trigger] items@[i]),
        Yaml::Hash(pairs) => (forall|i: int|
            0 <= i < pairs@.len() ==> no_malformed((#[trigger] pairs@[i]).1)) && (forall|
            i: int,
            j: int,
        |
            0 <= i < j < pairs@.len() ==> !((#[trigger] pairs@[i]).0 matches Yaml::Str(a)
                && ((#[trigger] pairs@[j]).0 matches Yaml::Str(b) && a@ == b@))),
        _ => true,
    }
}

/// Why a source tree failed to convert.
#[derive(Clone, Copy, Debug, PartialEq, Eq, Structural)]
pub enum ConvertError {
    /// The source used a feature the target format has no analog for:
    /// an alias, or a mapping key that is not a plain string.
    UnsupportedConstruct,
    /// The source tree itself is broken: a node the parser rejected, a float
    /// scalar whose text is not a float literal, or a mapping with two equal
    /// keys.
    MalformedInput,
}

} // verus!
