//! Value marshaling: the script engine's dynamic values, modeled as an
//! explicit sum type, and the coercions that turn them into the strict types
//! the rest of the core expects. Wrong shapes fail with a typed error that
//! names the offending parameter.

use vstd::prelude::*;
use crate::error::UtilsError;
use crate::paths::{is_absolute, spec_is_absolute, spec_push_frag, push_frag};
use crate::resolver::{DirContext, PathResolver};

verus! {

/// A script-native dynamic value, as far as this core reads one.
pub enum ScriptValue {
    /// The absent value.
    Nil,
    /// A boolean.
    Bool(bool),
    /// An integer.
    Int(i64),
    /// A text value.
    Str(String),
    /// A sequence of values.
    List(Vec<ScriptValue>),
    /// A key/value structure.
    Table(Vec<(String, ScriptValue)>),
}

/// The text a `Str` value holds; the empty text for any other value.
pub open spec fn spec_str_of(v: ScriptValue) -> Seq<char> {
    match v {
        ScriptValue::Str(s) => s@,
        _ => Seq::empty(),
    }
}

/// All elements of the sequence are `Str` values.
pub open spec fn spec_all_strings(items: Seq<ScriptValue>) -> bool {
    forall|i: int| 0 <= i < items.len() ==> items[i] is Str
}

/// The texts of a sequence of `Str` values, in order.
pub open spec fn spec_strs_of(items: Seq<ScriptValue>) -> Seq<Seq<char>> {
    items.map_values(|v: ScriptValue| spec_str_of(v))
}

/// Character-wise equality of two text slices.
pub fn str_eq(a: &str, b: &str) -> (r: bool)
    ensures
        r == (a@ == b@),
{
    let alen = a.unicode_len();
    let blen = b.unicode_len();
    if alen != blen {
        return false;
    }
    let mut i: usize = 0;
    while i < alen
        invariant
            i <= alen,
            alen == a@.len(),
            alen == b@.len(),
            forall|k: int| 0 <= k < i ==> a@[k] == b@[k],
        decreases alen - i,
    {
        if a.get_char(i) != b.get_char(i) {
            return false;
        }
        i = i + 1;
    }
    proof {
        assert(a@ =~= b@);
    }
    true
}

/// Coerces a value that is semantically "one or more strings": a single
/// string becomes a one-element sequence; a list is accepted when every
/// element is a string; any other shape is a `ValueShape` error whose
/// message starts with `err_prefix`.
#[verifier::loop_isolation(false)]
pub fn to_vec_of_strings(value: &ScriptValue, err_prefix: &str) -> (r: Result<Vec<String>, UtilsError>)
    ensures
        r is Ok <==> (value is Str || (value matches ScriptValue::List(items)
            && spec_all_strings(items@))),
        value matches ScriptValue::Str(s) ==> (r matches Ok(v) && v.deep_view() == seq![s@]),
        value matches ScriptValue::List(items) ==> (spec_all_strings(items@) ==> (r matches Ok(v)
            && v.deep_view() == spec_strs_of(items@))),
        r matches Err(e) ==> (e matches UtilsError::ValueShape(_) && e.spec_message().take(
            err_prefix@.len() as int,
        ) == err_prefix@),
{
    match value {
        ScriptValue::Str(s) => {
            let mut out: Vec<String> = Vec::new();
            out.push(s.clone());
            proof {
                assert(out.deep_view() =~= seq![s@]);
            }
            Ok(out)
        },
        ScriptValue::List(items) => {
            let mut out: Vec<String> = Vec::new();
            let mut i: usize = 0;
            while i < items.len()
                invariant
                    i <= items@.len(),
                    forall|k: int| 0 <= k < i ==> items@[k] is Str,
                    out.deep_view() == spec_strs_of(items@.take(i as int)),
                decreases items@.len() - i,
            {
                match &items[i] {
                    ScriptValue::Str(s) => {
                        let ghost prev = out.deep_view();
                        out.push(s.clone());
                        proof {
                            assert(out.deep_view() =~= prev + seq![s@]);
                            assert(spec_strs_of(items@.take(i + 1)) =~= spec_strs_of(
                                items@.take(i as int),
                            ) + seq![spec_str_of(items@[i as int])]);
                        }
                    },
                    _ => {
                        let mut msg = err_prefix.to_owned();
                        msg.append(" - a list argument must hold only strings");
                        proof {
                            assert(msg@.take(err_prefix@.len() as int) =~= err_prefix@);
                        }
                        return Err(UtilsError::ValueShape(msg));
                    },
                }
                i = i + 1;
            }
            proof {
                assert(items@.take(items@.len() as int) =~= items@);
            }
            Ok(out)
        },
        _ => {
            let mut msg = err_prefix.to_owned();
            msg.append(" - expected a string or a list of strings");
            proof {
                assert(msg@.take(err_prefix@.len() as int) =~= err_prefix@);
            }
            Err(UtilsError::ValueShape(msg))
        },
    }
}

/// The value stored under `key` in a key/value structure, first match.
pub open spec fn spec_lookup(pairs: Seq<(String, ScriptValue)>, key: Seq<char>) -> Option<
    ScriptValue,
>
    decreases pairs.len(),
{
    if pairs.len() == 0 {
        None
    } else if pairs[0].0@ == key {
        Some(pairs[0].1)
    } else {
        spec_lookup(pairs.skip(1), key)
    }
}

/// Looks a key up in a table's pairs.
#[verifier::loop_isolation(false)]
fn lookup<'a>(pairs: &'a Vec<(String, ScriptValue)>, key: &str) -> (r: Option<&'a ScriptValue>)
    ensures
        match r {
            Some(v) => spec_lookup(pairs@, key@) == Some(*v),
            None => spec_lookup(pairs@, key@) is None,
        },
{
    let mut i: usize = 0;
    proof {
        assert(pairs@.skip(0) =~= pairs@);
    }
    while i < pairs.len()
        invariant
            i <= pairs@.len(),
            spec_lookup(pairs@, key@) == spec_lookup(pairs@.skip(i as int), key@),
        decreases pairs@.len() - i,
    {
        proof {
            assert(pairs@.skip(i as int)[0] == pairs@[i as int]);
            assert(pairs@.skip(i as int).skip(1) =~= pairs@.skip(i + 1));
        }
        if str_eq(pairs[i].0.as_str(), key) {
            return Some(&pairs[i].1);
        }
        i = i + 1;
    }
    proof {
        assert(pairs@.skip(pairs@.len() as int) =~= Seq::<(String, ScriptValue)>::empty());
    }
    None
}

/// What reading a string-valued property of an options value yields:
/// `Ok(None)` when the key is absent, the text when it holds a string, and
/// an error when the value is not a table or the property not a string.
pub open spec fn spec_prop_string(v: ScriptValue, key: Seq<char>) -> Result<Option<Seq<char>>, ()> {
    match v {
        ScriptValue::Table(pairs) => match spec_lookup(pairs@, key) {
            None => Ok(None),
            Some(ScriptValue::Str(s)) => Ok(Some(s@)),
            Some(_) => Err(()),
        },
        _ => Err(()),
    }
}

/// Reads the string property `prop` from an optional options value.
/// Absence of the whole value, or of the property, is not an error; a
/// non-table value or a non-string property is, with a message that starts
/// with `err_prefix`.
pub fn get_value_prop_as_string(options: Option<&ScriptValue>, prop: &str, err_prefix: &str) -> (r:
    Result<Option<String>, UtilsError>)
    ensures
        match options {
            None => r matches Ok(o) && o is None,
            Some(v) => match r {
                Ok(o) => match o {
                    Some(s) => spec_prop_string(*v, prop@) == Ok::<_, ()>(Some(s@)),
                    None => spec_prop_string(*v, prop@) == Ok::<_, ()>(None::<Seq<char>>),
                },
                Err(e) => spec_prop_string(*v, prop@) is Err && (e matches UtilsError::ValueShape(_)
                    && e.spec_message().take(err_prefix@.len() as int) == err_prefix@),
            },
        },
{
    let value = match options {
        None => {
            return Ok(None);
        },
        Some(v) => v,
    };
    let pairs = match value {
        ScriptValue::Table(pairs) => pairs,
        _ => {
            let mut msg = err_prefix.to_owned();
            msg.append(" - the options value must be a table");
            proof {
                assert(msg@.take(err_prefix@.len() as int) =~= err_prefix@);
            }
            return Err(UtilsError::ValueShape(msg));
        },
    };
    match lookup(pairs, prop) {
        None => Ok(None),
        Some(ScriptValue::Str(s)) => Ok(Some(s.clone())),
        Some(_) => {
            let mut msg = err_prefix.to_owned();
            msg.append(" - the ");
            msg.append(prop);
            msg.append(" property must be a string when present");
            proof {
                assert(msg@.take(err_prefix@.len() as int) =~= err_prefix@);
            }
            Err(UtilsError::ValueShape(msg))
        },
    }
}

/// What reading a boolean-valued property of an options value yields:
/// absence of the key reads as `false`; any non-boolean value is an error.
pub open spec fn spec_prop_bool(v: ScriptValue, key: Seq<char>) -> Result<bool, ()> {
    match v {
        ScriptValue::Table(pairs) => match spec_lookup(pairs@, key) {
            None => Ok(false),
            Some(ScriptValue::Bool(b)) => Ok(b),
            Some(_) => Err(()),
        },
        _ => Err(()),
    }
}

/// Reads the boolean property `prop` from an options value.
fn prop_bool(value: &ScriptValue, prop: &str, err_prefix: &str) -> (r: Result<bool, UtilsError>)
    ensures
        match r {
            Ok(b) => spec_prop_bool(*value, prop@) == Ok::<_, ()>(b),
            Err(e) => spec_prop_bool(*value, prop@) is Err && (e matches UtilsError::ValueShape(_)
                && e.spec_message().take(err_prefix@.len() as int) == err_prefix@),
        },
{
    let pairs = match value {
        ScriptValue::Table(pairs) => pairs,
        _ => {
            let mut msg = err_prefix.to_owned();
            msg.append(" - the options value must be a table");
            proof {
                assert(msg@.take(err_prefix@.len() as int) =~= err_prefix@);
            }
            return Err(UtilsError::ValueShape(msg));
        },
    };
    match lookup(pairs, prop) {
        None => Ok(false),
        Some(ScriptValue::Bool(b)) => Ok(*b),
        Some(_) => {
            let mut msg = err_prefix.to_owned();
            msg.append(" - the ");
            msg.append(prop);
            msg.append(" property must be a boolean when present");
            proof {
                assert(msg@.take(err_prefix@.len() as int) =~= err_prefix@);
            }
            Err(UtilsError::ValueShape(msg))
        },
    }
}

/// Options of `ensure_exists`, with their defaults.
#[derive(Debug)]
pub struct EnsureExistsOptions {
    /// Write the given content also when the file exists but holds only
    /// whitespace.
    pub content_when_empty: bool,
}

impl Default for EnsureExistsOptions {
    /// All options default to off.
    fn default() -> (r: Self)
        ensures
            !r.content_when_empty,
    {
        EnsureExistsOptions { content_when_empty: false }
    }
}

impl EnsureExistsOptions {
    /// Parses the options from a script value, which must be a table; an
    /// absent `content_when_empty` key reads as `false`.
    pub fn from_value(value: &ScriptValue) -> (r: Result<EnsureExistsOptions, UtilsError>)
        ensures
            match r {
                Ok(o) => spec_prop_bool(*value, "content_when_empty"@) == Ok::<_, ()>(
                    o.content_when_empty,
                ),
                Err(e) => spec_prop_bool(*value, "content_when_empty"@) is Err && e
                    matches UtilsError::ValueShape(_),
            },
    {
        match prop_bool(value, "content_when_empty", "utils.file.ensure_exists options") {
            Ok(b) => Ok(EnsureExistsOptions { content_when_empty: b }),
            Err(e) => Err(e),
        }
    }
}

/// Options of the listing calls, parsed once, with their defaults:
/// `base_dir = None`, `absolute = false`.
pub struct ListSettings {
    /// The base-directory override, when given.
    pub base_dir: Option<String>,
    /// Whether results are rendered as absolute paths.
    pub absolute: bool,
}

/// Parses the listing options from an optional script value.
pub fn parse_list_settings(options: Option<&ScriptValue>, err_prefix: &str) -> (r: Result<
    ListSettings,
    UtilsError,
>)
    ensures
        match options {
            None => r matches Ok(s) && s.base_dir is None && !s.absolute,
            Some(v) => match r {
                Ok(s) => (match s.base_dir {
                    Some(bd) => spec_prop_string(*v, "base_dir"@) == Ok::<_, ()>(Some(bd@)),
                    None => spec_prop_string(*v, "base_dir"@) == Ok::<_, ()>(None::<Seq<char>>),
                }) && spec_prop_bool(*v, "absolute"@) == Ok::<_, ()>(s.absolute),
                Err(e) => (spec_prop_string(*v, "base_dir"@) is Err || spec_prop_bool(
                    *v,
                    "absolute"@,
                ) is Err) && (e matches UtilsError::ValueShape(_) && e.spec_message().take(
                    err_prefix@.len() as int,
                ) == err_prefix@),
            },
        },
{
    let value = match options {
        None => {
            return Ok(ListSettings { base_dir: None, absolute: false });
        },
        Some(v) => v,
    };
    let base_dir = match get_value_prop_as_string(options, "base_dir", err_prefix) {
        Ok(o) => o,
        Err(e) => {
            return Err(e);
        },
    };
    let absolute = match prop_bool(value, "absolute", err_prefix) {
        Ok(b) => b,
        Err(e) => {
            return Err(e);
        },
    };
    Ok(ListSettings { base_dir, absolute })
}

/// The base directory a call works from: the workspace root, unless the
/// options carry a `base_dir` override — used as given when absolute,
/// resolved against the workspace root when relative.
pub open spec fn spec_effective_base(wks: Seq<char>, base_dir: Option<Seq<char>>) -> Seq<char> {
    match base_dir {
        None => wks,
        Some(bd) => if spec_is_absolute(bd) {
            bd
        } else {
            spec_push_frag(wks, bd)
        },
    }
}

/// Resolves the effective base directory for a call from its options.
pub fn compute_base_dir(ctx: &DirContext, options: Option<&ScriptValue>, err_prefix: &str) -> (r:
    Result<String, UtilsError>)
    ensures
        match r {
            Ok(s) => {
                &&& match options {
                    None => s@ == ctx.spec_base(PathResolver::WorkspaceDir),
                    Some(v) => match spec_prop_string(*v, "base_dir"@) {
                        Ok(o) => s@ == spec_effective_base(
                            ctx.spec_base(PathResolver::WorkspaceDir),
                            o,
                        ),
                        Err(_) => false,
                    },
                }
                &&& ctx.wf() ==> spec_is_absolute(s@)
            },
            Err(e) => options matches Some(v) && spec_prop_string(*v, "base_dir"@) is Err && (e
                matches UtilsError::ValueShape(_) && e.spec_message().take(err_prefix@.len() as int)
                == err_prefix@),
        },
{
    let wks = ctx.base(PathResolver::WorkspaceDir);
    let base_dir = match get_value_prop_as_string(options, "base_dir", err_prefix) {
        Ok(o) => o,
        Err(e) => {
            return Err(e);
        },
    };
    match base_dir {
        None => Ok(wks.clone()),
        Some(bd) => {
            if is_absolute(bd.as_str()) {
                Ok(bd)
            } else {
                Ok(push_frag(wks.as_str(), bd.as_str()))
            }
        },
    }
}

} // verus!
