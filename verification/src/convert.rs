//! The value mapper: turns a source (YAML) tree into the equivalent target
//! (TOML) tree, or reports the first construct that cannot be carried over.

use vstd::prelude::*;

use crate::float::check_float_text;
use crate::value::{
    has_alias, no_malformed,
    converts_to, first_err, first_err_items, first_err_pairs, has_key, pair_converts, toml_wf,
    yaml_ok, ConvertError, Toml, Yaml,
};

verus! {

/// Walking a clean prefix does not move the first error: if the elements
/// before `i` are clean, the walk from the start and the walk from `i` find
/// the same thing.
proof fn lemma_items_prefix_clean(items: Seq<Yaml>, i: int)
    requires
        0 <= i <= items.len(),
        forall|k: int| 0 <= k < i ==> first_err(#[trigger] items[k]) is None,
    ensures
        first_err_items(items, 0) == first_err_items(items, i),
    decreases i,
{
    if i > 0 {
        lemma_items_prefix_clean(items, i - 1);
    }
}

/// The same for mapping pairs: a prefix of clean pairs with string keys and
/// no repeated key does not move the first error.
proof fn lemma_pairs_prefix_clean(pairs: Seq<(Yaml, Yaml)>, i: int)
    requires
        0 <= i <= pairs.len(),
        forall|k: int| 0 <= k < i ==> (#[trigger] pairs[k]).0 is Str,
        forall|k: int| 0 <= k < i ==> !has_key(pairs, k, (#[trigger] pairs[k]).0->Str_0@),
        forall|k: int| 0 <= k < i ==> first_err((#[trigger] pairs[k]).1) is None,
    ensures
        first_err_pairs(pairs, 0) == first_err_pairs(pairs, i),
    decreases i,
{
    if i > 0 {
        lemma_pairs_prefix_clean(pairs, i - 1);
    }
}

/// Whether `table` already holds an entry under `key`.
fn table_has_key(table: &Vec<(String, Toml)>, key: &String) -> (r: bool)
    ensures
        r == exists|j: int| 0 <= j < table@.len() && (#[trigger] table@[j]).0@ == key@,
{
    let mut i: usize = 0;
    while i < table.len()
        invariant
            i <= table@.len(),
            forall|j: int| 0 <= j < i ==> (#[trigger] table@[j]).0@ != key@,
        decreases table@.len() - i,
    {
        if table[i].0 == *key {
            return true;
        }
        i = i + 1;
    }
    false
}

/// Converts a source tree into the equivalent target tree.
///
/// Every well-formed tree converts; the result then mirrors the source node
/// for node, with a null becoming an empty table, and is itself well formed.
/// Every ill-formed tree is refused, with the error naming the first failing
/// construct of the depth-first walk.
pub fn yaml_to_toml(yaml: &Yaml) -> (r: Result<Toml, ConvertError>)
    ensures
        r is Ok <==> yaml_ok(*yaml),
        r matches Ok(t) ==> converts_to(*yaml, t) && toml_wf(t),
        r matches Err(e) ==> first_err(*yaml) == Some(e),
    decreases *yaml,
{
    match yaml {
        Yaml::Str(s) => Ok(Toml::Str(s.clone())),
        Yaml::Integer(n) => Ok(Toml::Integer(*n)),
        Yaml::Real(s) => {
            if check_float_text(s.as_str()) {
                Ok(Toml::Float(s.clone()))
            } else {
                Err(ConvertError::MalformedInput)
            }
        },
        Yaml::Boolean(b) => Ok(Toml::Boolean(*b)),
        Yaml::Array(items) => {
            let mut out: Vec<Toml> = Vec::new();
            let mut i: usize = 0;
            while i < items.len()
                invariant
                    i <= items@.len(),
                    out@.len() == i,
                    yaml is Array && yaml->Array_0 == *items,
                    forall|k: int| 0 <= k < i ==> first_err(#[trigger] items@[k]) is None,
                    forall|k: int| 0 <= k < i ==> converts_to(items@[k], #[trigger] out@[k]),
                    forall|k: int| 0 <= k < i ==> toml_wf(#[trigger] out@[k]),
                decreases items@.len() - i,
            {
                proof {
                    assert(decreases_to!(*yaml => *items));
                    assert(decreases_to!(*items => items@));
                    assert(decreases_to!(items@ => items@[i as int]));
                }
                match yaml_to_toml(&items[i]) {
                    Ok(t) => {
                        out.push(t);
                        i = i + 1;
                    },
                    Err(e) => {
                        proof {
                            lemma_items_prefix_clean(items@, i as int);
                        }
                        return Err(e);
                    },
                }
            }
            proof {
                lemma_items_prefix_clean(items@, items@.len() as int);
            }
            Ok(Toml::Array(out))
        },
        Yaml::Hash(pairs) => {
            let mut out: Vec<(String, Toml)> = Vec::new();
            let mut i: usize = 0;
            while i < pairs.len()
                invariant
                    i <= pairs@.len(),
                    out@.len() == i,
                    yaml is Hash && yaml->Hash_0 == *pairs,
                    forall|k: int| 0 <= k < i ==> (#[trigger] pairs@[k]).0 is Str,
                    forall|k: int|
                        0 <= k < i ==> !has_key(pairs@, k, (#[trigger] pairs@[k]).0->Str_0@),
                    forall|k: int| 0 <= k < i ==> first_err((#[trigger] pairs@[k]).1) is None,
                    forall|k: int|
                        0 <= k < i ==> (#[trigger] out@[k]).0@ == pairs@[k].0->Str_0@,
                    forall|k: int| 0 <= k < i ==> converts_to(pairs@[k].1, (#[trigger] out@[k]).1),
                    forall|k: int| 0 <= k < i ==> toml_wf((#[trigger] out@[k]).1),
                decreases pairs@.len() - i,
            {
                let pair = &pairs[i];
                let key = match &pair.0 {
                    Yaml::Str(s) => s.clone(),
                    _ => {
                        proof {
                            lemma_pairs_prefix_clean(pairs@, i as int);
                        }
                        return Err(ConvertError::UnsupportedConstruct);
                    },
                };
                if table_has_key(&out, &key) {
                    proof {
                        lemma_pairs_prefix_clean(pairs@, i as int);
                        let j = choose|j: int|
                            0 <= j < out@.len() && (#[trigger] out@[j]).0@ == key@;
                        assert(has_key(pairs@, i as int, pairs@[i as int].0->Str_0@));
                    }
                    return Err(ConvertError::MalformedInput);
                }
                proof {
                    // the new key repeats no source key of the prefix
                    assert forall|k: int| 0 <= k < i implies !((#[trigger] pairs@[k]).0
                        matches Yaml::Str(s) && s@ == key@) by {
                        if pairs@[k].0 matches Yaml::Str(s) && s@ == key@ {
                            assert(out@[k].0@ == key@);
                        }
                    }
                    assert(!has_key(pairs@, i as int, pairs@[i as int].0->Str_0@));
                    assert(decreases_to!(*yaml => *pairs));
                    assert(decreases_to!(*pairs => pairs@));
                    assert(decreases_to!(pairs@ => pairs@[i as int]));
                    assert(decreases_to!(pairs@[i as int] => pairs@[i as int].1));
                }
                match yaml_to_toml(&pair.1) {
                    Ok(t) => {
                        out.push((key, t));
                        i = i + 1;
                    },
                    Err(e) => {
                        proof {
                            lemma_pairs_prefix_clean(pairs@, i as int);
                        }
                        return Err(e);
                    },
                }
            }
            proof {
                lemma_pairs_prefix_clean(pairs@, pairs@.len() as int);
                // the table's keys are pairwise distinct: a repeat would have
                // been a repeated source key
                assert forall|a: int, b: int| 0 <= a < b < out@.len() implies out@[a].0@
                    != out@[b].0@ by {
                    if out@[a].0@ == out@[b].0@ {
                        assert(pairs@[a].0 matches Yaml::Str(s) && s@ == pairs@[b].0->Str_0@);
                        assert(has_key(pairs@, b, pairs@[b].0->Str_0@));
                    }
                }
                assert forall|k: int| 0 <= k < pairs@.len() implies pair_converts(
                    pairs@[k],
                    #[trigger] out@[k],
                ) by {}
            }
            Ok(Toml::Table(out))
        },
        Yaml::Alias(_) => Err(ConvertError::UnsupportedConstruct),
        Yaml::Null => Ok(Toml::Table(Vec::new())),
        Yaml::BadValue => Err(ConvertError::MalformedInput),
    }
}

/// A sequence with a failing element from index `w` on has a first error.
proof fn lemma_items_err_some(items: Seq<Yaml>, j: int, w: int)
    requires
        0 <= j <= w < items.len(),
        first_err(items[w]) is Some,
    ensures
        first_err_items(items, j) is Some,
    decreases w - j,
{
    if j < w && first_err(items[j]) is None {
        lemma_items_err_some(items, j + 1, w);
    }
}

/// A mapping with a failing pair from index `w` on has a first error.
proof fn lemma_pairs_err_some(pairs: Seq<(Yaml, Yaml)>, j: int, w: int)
    requires
        0 <= j <= w < pairs.len(),
        !(pairs[w].0 is Str) || first_err(pairs[w].1) is Some,
    ensures
        first_err_pairs(pairs, j) is Some,
    decreases w - j,
{
    if j < w && pairs[j].0 is Str && !has_key(pairs, j, pairs[j].0->Str_0@) && first_err(
        pairs[j].1,
    ) is None {
        lemma_pairs_err_some(pairs, j + 1, w);
    }
}

/// A tree with an alias in it somewhere has a first error.
proof fn lemma_alias_some(y: Yaml)
    requires
        has_alias(y),
    ensures
        first_err(y) is Some,
    decreases y,
{
    match y {
        Yaml::Array(items) => {
            let w = choose|i: int| 0 <= i < items@.len() && has_alias(#[trigger] items@[i]);
            lemma_alias_some(items@[w]);
            lemma_items_err_some(items@, 0, w);
        },
        Yaml::Hash(pairs) => {
            let w = choose|i: int|
                0 <= i < pairs@.len() && (has_alias((#[trigger] pairs@[i]).0) || has_alias(
                    pairs@[i].1,
                ));
            if has_alias(pairs@[w].1) {
                lemma_alias_some(pairs@[w].1);
            }
            lemma_pairs_err_some(pairs@, 0, w);
        },
        _ => {},
    }
}

/// Elements free of malformed constructs can only fail as unsupported.
proof fn lemma_no_malformed_items(items: Seq<Yaml>, j: int)
    requires
        0 <= j <= items.len(),
        forall|k: int| j <= k < items.len() ==> no_malformed(#[trigger] items[k]),
    ensures
        first_err_items(items, j) is None || first_err_items(items, j) == Some(
            ConvertError::UnsupportedConstruct,
        ),
    decreases items, items.len() - j,
{
    if j < items.len() {
        lemma_no_malformed_err(items[j]);
        lemma_no_malformed_items(items, j + 1);
    }
}

/// Pairs free of malformed constructs can only fail as unsupported.
proof fn lemma_no_malformed_pairs(pairs: Seq<(Yaml, Yaml)>, j: int)
    requires
        0 <= j <= pairs.len(),
        forall|k: int| j <= k < pairs.len() ==> no_malformed((#[trigger] pairs[k]).1),
        forall|a: int, b: int|
            0 <= a < b < pairs.len() ==> !((#[trigger] pairs[a]).0 matches Yaml::Str(x)
                && ((#[trigger] pairs[b]).0 matches Yaml::Str(y) && x@ == y@)),
    ensures
        first_err_pairs(pairs, j) is None || first_err_pairs(pairs, j) == Some(
            ConvertError::UnsupportedConstruct,
        ),
    decreases pairs, pairs.len() - j,
{
    if j < pairs.len() {
        if pairs[j].0 is Str {
            assert(!has_key(pairs, j, pairs[j].0->Str_0@)) by {
                if has_key(pairs, j, pairs[j].0->Str_0@) {
                    let a = choose|a: int|
                        0 <= a < j && ((#[trigger] pairs[a]).0 matches Yaml::Str(s) && s@
                            == pairs[j].0->Str_0@);
                    assert(pairs[a].0 matches Yaml::Str(x) && (pairs[j].0 matches Yaml::Str(y)
                        && x@ == y@));
                }
            }
            lemma_no_malformed_err(pairs[j].1);
            lemma_no_malformed_pairs(pairs, j + 1);
        }
    }
}

/// A tree free of malformed constructs can only fail as unsupported.
proof fn lemma_no_malformed_err(y: Yaml)
    requires
        no_malformed(y),
    ensures
        first_err(y) is None || first_err(y) == Some(ConvertError::UnsupportedConstruct),
    decreases y, 0int,
{
    match y {
        Yaml::Array(items) => {
            lemma_no_malformed_items(items@, 0);
        },
        Yaml::Hash(pairs) => {
            lemma_no_malformed_pairs(pairs@, 0);
        },
        _ => {},
    }
}

/// Converting an integer scalar yields exactly that integer, for every
/// representable 64-bit value.
pub proof fn lemma_integer_preserved(n: i64, t: Toml)
    requires
        converts_to(Yaml::Integer(n), t),
    ensures
        t == Toml::Integer(n),
{
}

/// Converting a float scalar keeps its text exactly, and only texts that are
/// float literals get this far.
pub proof fn lemma_float_fidelity(s: String, t: Toml)
    requires
        converts_to(Yaml::Real(s), t),
    ensures
        t matches Toml::Float(f) && f@ == s@,
        crate::float::is_float_text(s@),
{
}

/// A float scalar whose text is not a float literal is refused as malformed
/// input, never coerced.
pub proof fn lemma_bad_float_rejected(s: String)
    requires
        !crate::float::is_float_text(s@),
    ensures
        first_err(Yaml::Real(s)) == Some(ConvertError::MalformedInput),
{
}

/// A null converts to an empty table, wherever it stands in the tree.
pub proof fn lemma_null_empty_table(t: Toml)
    requires
        converts_to(Yaml::Null, t),
    ensures
        t matches Toml::Table(pairs) && pairs@.len() == 0,
{
}

/// A tree containing an alias never converts, whatever the nesting depth;
/// when the tree is otherwise clean the failure names the unsupported
/// construct.
pub proof fn lemma_alias_rejected(y: Yaml)
    requires
        has_alias(y),
    ensures
        !yaml_ok(y),
        no_malformed(y) ==> first_err(y) == Some(ConvertError::UnsupportedConstruct),
{
    lemma_alias_some(y);
    if no_malformed(y) {
        lemma_no_malformed_err(y);
    }
}

} // verus!
