use vstd::prelude::*;

verus! {

use vstd::string::StringExecFns;
use crate::errors::EncodeError;
use crate::errors::ErrSpec;
use crate::kinds::classify_spec;
use crate::opt_enabled;
use crate::opt_set;
use crate::strict_int_in_range;
use crate::temporal::date_chars;
use crate::temporal::datetime_chars;
use crate::temporal::format_date;
use crate::temporal::format_datetime;
use crate::temporal::format_time;
use crate::temporal::time_chars;
use crate::ident::format_identifier;
use crate::ident::identifier_chars;
use crate::text::dec_int_chars;
use crate::text::int_str;
use crate::text::json_quoted;
use crate::text::quote_str;
use crate::value::type_name_spec;
use crate::value::Value;
use crate::value::Zone;
use crate::SERIALIZE_DATACLASS;
use crate::SERIALIZE_UUID;
use crate::STRICT_INTEGER;
use crate::STRICT_INT_MAX;
use crate::STRICT_INT_MIN;

/// User-supplied converter for values of unrecognized kind. Offered one
/// such value, it returns a replacement value to be classified and encoded
/// in its place, or nothing when it cannot convert the value. It may be
/// invoked again on unrecognized values it produced itself, up to the
/// fallback bound.
pub trait Fallback {
    fn call(&self, v: &Value) -> Option<Value>;
}

/// The hook used where no fallback is configured: it converts nothing.
pub struct NoFallback;

impl Fallback for NoFallback {
    fn call(&self, _v: &Value) -> Option<Value> {
        Option::None
    }
}

/// How a key of a key-value container is rendered: only strings are
/// accepted, and an undecodable string is its own error.
pub open spec fn key_spec(k: Value) -> Result<Seq<char>, ErrSpec> {
    match k {
        Value::Str(s) => Ok(json_quoted(s@)),
        Value::StrInvalid => Err(ErrSpec::InvalidString),
        _ => Err(ErrSpec::NonStringKey),
    }
}

/// The first `n` elements of a sequence value, encoded and joined with
/// commas; the first error wins.
pub open spec fn joined_list(s: Seq<Value>, n: int, opts: u8, depth: nat) -> Result<
    Seq<char>,
    ErrSpec,
>
    decreases s, n,
{
    if n <= 0 || s.len() < n {
        Ok(Seq::<char>::empty())
    } else {
        match joined_list(s, n - 1, opts, depth) {
            Err(e) => Err(e),
            Ok(pre) => match encode_spec(s[n - 1], opts, depth) {
                Err(e) => Err(e),
                Ok(item) => Ok(
                    if n == 1 {
                        item
                    } else {
                        pre + ","@ + item
                    },
                ),
            },
        }
    }
}

/// The first `n` entries of a key-value container, encoded as `key:value`
/// pairs joined with commas; per entry the key is checked first, and the
/// first error wins.
pub open spec fn joined_dict(s: Seq<(Value, Value)>, n: int, opts: u8, depth: nat) -> Result<
    Seq<char>,
    ErrSpec,
>
    decreases s, n,
{
    if n <= 0 || s.len() < n {
        Ok(Seq::<char>::empty())
    } else {
        match joined_dict(s, n - 1, opts, depth) {
            Err(e) => Err(e),
            Ok(pre) => match key_spec(s[n - 1].0) {
                Err(e) => Err(e),
                Ok(key) => match encode_spec(s[n - 1].1, opts, depth) {
                    Err(e) => Err(e),
                    Ok(item) => Ok(
                        if n == 1 {
                            key + ":"@ + item
                        } else {
                            pre + ","@ + key + ":"@ + item
                        },
                    ),
                },
            },
        }
    }
}

/// The first `n` fields of a record, encoded as `name:value` pairs in
/// declaration order, joined with commas; the first error wins.
pub open spec fn joined_record(s: Seq<(String, Value)>, n: int, opts: u8, depth: nat) -> Result<
    Seq<char>,
    ErrSpec,
>
    decreases s, n,
{
    if n <= 0 || s.len() < n {
        Ok(Seq::<char>::empty())
    } else {
        match joined_record(s, n - 1, opts, depth) {
            Err(e) => Err(e),
            Ok(pre) => match encode_spec(s[n - 1].1, opts, depth) {
                Err(e) => Err(e),
                Ok(item) => Ok(
                    if n == 1 {
                        json_quoted(s[n - 1].0@) + ":"@ + item
                    } else {
                        pre + ","@ + json_quoted(s[n - 1].0@) + ":"@ + item
                    },
                ),
            },
        }
    }
}

/// What encoding `v` returns when no fallback hook takes part: the exact
/// JSON text on success, and the exact error otherwise. Containers check
/// the depth bound before descending and keep their order; strict integer
/// range, string validity, key kinds and timezone rules are enforced as
/// the classification directs.
pub open spec fn encode_spec(v: Value, opts: u8, depth: nat) -> Result<Seq<char>, ErrSpec>
    decreases v, 0int,
{
    match v {
        Value::Str(s) => Ok(json_quoted(s@)),
        Value::StrInvalid => Err(ErrSpec::InvalidString),
        Value::Int(i) => if opt_set(opts, STRICT_INTEGER) && !strict_int_in_range(i as int) {
            Err(ErrSpec::IntegerRangeExceeded)
        } else {
            Ok(dec_int_chars(i as int))
        },
        Value::IntBig => Err(ErrSpec::IntegerOverflow),
        Value::Float(text) => Ok(text@),
        Value::Bool(b) => Ok(
            if b {
                "true"@
            } else {
                "false"@
            },
        ),
        Value::Null => Ok("null"@),
        Value::Date(d) => Ok("\""@ + date_chars(d) + "\""@),
        Value::Time(t) => if t.has_tzinfo {
            Err(ErrSpec::TimeMustNotHaveTimezone)
        } else {
            Ok("\""@ + time_chars(t) + "\""@)
        },
        Value::DateTime(dt) => if dt.zone is Unsupported {
            Err(ErrSpec::UnsupportedTimezoneLibrary)
        } else {
            Ok("\""@ + datetime_chars(dt) + "\""@)
        },
        Value::Identifier(u) => if opt_set(opts, SERIALIZE_UUID) {
            Ok("\""@ + identifier_chars(u) + "\""@)
        } else {
            Err(ErrSpec::TypeNotSerializable("UUID"@))
        },
        Value::List(items) => if depth >= 255 {
            Err(ErrSpec::RecursionLimitReached)
        } else {
            match joined_list(items@, items@.len() as int, opts, depth + 1) {
                Ok(j) => Ok("["@ + j + "]"@),
                Err(e) => Err(e),
            }
        },
        Value::Tuple(items) => if depth >= 255 {
            Err(ErrSpec::RecursionLimitReached)
        } else {
            match joined_list(items@, items@.len() as int, opts, depth + 1) {
                Ok(j) => Ok("["@ + j + "]"@),
                Err(e) => Err(e),
            }
        },
        Value::Dict(entries) => if depth >= 255 {
            Err(ErrSpec::RecursionLimitReached)
        } else {
            match joined_dict(entries@, entries@.len() as int, opts, depth + 1) {
                Ok(j) => Ok("{"@ + j + "}"@),
                Err(e) => Err(e),
            }
        },
        Value::Record(fields) => if !opt_set(opts, SERIALIZE_DATACLASS) {
            Err(ErrSpec::TypeNotSerializable("dataclass"@))
        } else if depth >= 255 {
            Err(ErrSpec::RecursionLimitReached)
        } else {
            match joined_record(fields@, fields@.len() as int, opts, depth + 1) {
                Ok(j) => Ok("{"@ + j + "}"@),
                Err(e) => Err(e),
            }
        },
        Value::Unrecognized(name) => Err(ErrSpec::TypeNotSerializable(name@)),
    }
}

/// True when no value in the graph under `v` that the encoder would visit
/// classifies as unrecognized: on such a graph the fallback hook is never
/// consulted. Keys of key-value containers are never offered to the hook,
/// so they play no part here.
pub open spec fn no_unknown(v: Value, opts: u8) -> bool
    decreases v,
{
    &&& !(classify_spec(v, opts) is Unrecognized)
    &&& match v {
        Value::List(items) => forall|j: int|
            0 <= j < items@.len() ==> no_unknown(#[trigger] items@[j], opts),
        Value::Tuple(items) => forall|j: int|
            0 <= j < items@.len() ==> no_unknown(#[trigger] items@[j], opts),
        Value::Dict(entries) => forall|j: int|
            0 <= j < entries@.len() ==> no_unknown(#[trigger] entries@[j].1, opts),
        Value::Record(fields) => forall|j: int|
            0 <= j < fields@.len() ==> no_unknown(#[trigger] fields@[j].1, opts),
        _ => true,
    }
}

/// The result of an encoding call, as its mathematical value.
pub open spec fn res_view(r: Result<String, EncodeError>) -> Result<Seq<char>, ErrSpec> {
    match r {
        Ok(s) => Ok(s@),
        Err(e) => Err(e@),
    }
}

/// Once a join has failed over some prefix, every longer prefix fails the
/// same way.
proof fn lemma_joined_list_err(s: Seq<Value>, m: int, n: int, opts: u8, depth: nat)
    requires
        0 <= m <= n <= s.len(),
        joined_list(s, m, opts, depth) is Err,
    ensures
        joined_list(s, n, opts, depth) == joined_list(s, m, opts, depth),
    decreases n - m,
{
    if m < n {
        lemma_joined_list_err(s, m, n - 1, opts, depth);
    }
}

/// Once a join has failed over some prefix, every longer prefix fails the
/// same way.
proof fn lemma_joined_dict_err(s: Seq<(Value, Value)>, m: int, n: int, opts: u8, depth: nat)
    requires
        0 <= m <= n <= s.len(),
        joined_dict(s, m, opts, depth) is Err,
    ensures
        joined_dict(s, n, opts, depth) == joined_dict(s, m, opts, depth),
    decreases n - m,
{
    if m < n {
        lemma_joined_dict_err(s, m, n - 1, opts, depth);
    }
}

/// Once a join has failed over some prefix, every longer prefix fails the
/// same way.
proof fn lemma_joined_record_err(s: Seq<(String, Value)>, m: int, n: int, opts: u8, depth: nat)
    requires
        0 <= m <= n <= s.len(),
        joined_record(s, m, opts, depth) is Err,
    ensures
        joined_record(s, n, opts, depth) == joined_record(s, m, opts, depth),
    decreases n - m,
{
    if m < n {
        lemma_joined_record_err(s, m, n - 1, opts, depth);
    }
}

/// Once a join has succeeded over some prefix, every shorter prefix
/// succeeded too, and every element of the longer prefix encoded
/// successfully.
proof fn lemma_joined_list_ok(s: Seq<Value>, m: int, n: int, opts: u8, depth: nat)
    requires
        0 <= m <= n <= s.len(),
        joined_list(s, n, opts, depth) is Ok,
    ensures
        joined_list(s, m, opts, depth) is Ok,
        m < n ==> encode_spec(s[m], opts, depth) is Ok,
    decreases n - m,
{
    if m < n {
        lemma_joined_list_ok(s, m, n - 1, opts, depth);
    }
}

/// Once a join has succeeded over some prefix, every shorter prefix
/// succeeded too, and every entry value of the longer prefix encoded
/// successfully.
proof fn lemma_joined_dict_ok(s: Seq<(Value, Value)>, m: int, n: int, opts: u8, depth: nat)
    requires
        0 <= m <= n <= s.len(),
        joined_dict(s, n, opts, depth) is Ok,
    ensures
        joined_dict(s, m, opts, depth) is Ok,
        m < n ==> encode_spec(s[m].1, opts, depth) is Ok,
    decreases n - m,
{
    if m < n {
        lemma_joined_dict_ok(s, m, n - 1, opts, depth);
    }
}

/// Once a join has succeeded over some prefix, every shorter prefix
/// succeeded too, and every field value of the longer prefix encoded
/// successfully.
proof fn lemma_joined_record_ok(s: Seq<(String, Value)>, m: int, n: int, opts: u8, depth: nat)
    requires
        0 <= m <= n <= s.len(),
        joined_record(s, n, opts, depth) is Ok,
    ensures
        joined_record(s, m, opts, depth) is Ok,
        m < n ==> encode_spec(s[m].1, opts, depth) is Ok,
    decreases n - m,
{
    if m < n {
        lemma_joined_record_ok(s, m, n - 1, opts, depth);
    }
}

/// Wherever the hook-free semantics succeeds, no visited value is of
/// unrecognized kind: success means the whole graph was encoded, and an
/// unrecognized value anywhere in it would have been an error.
pub proof fn lemma_ok_implies_no_unknown(v: Value, opts: u8, depth: nat)
    requires
        encode_spec(v, opts, depth) is Ok,
    ensures
        no_unknown(v, opts),
    decreases v,
{
    match v {
        Value::List(items) => {
            assert forall|j: int| 0 <= j < items@.len() implies no_unknown(
                #[trigger] items@[j],
                opts,
            ) by {
                lemma_joined_list_ok(items@, j, items@.len() as int, opts, depth + 1);
                lemma_ok_implies_no_unknown(items@[j], opts, depth + 1);
            }
        },
        Value::Tuple(items) => {
            assert forall|j: int| 0 <= j < items@.len() implies no_unknown(
                #[trigger] items@[j],
                opts,
            ) by {
                lemma_joined_list_ok(items@, j, items@.len() as int, opts, depth + 1);
                lemma_ok_implies_no_unknown(items@[j], opts, depth + 1);
            }
        },
        Value::Dict(entries) => {
            assert forall|j: int| 0 <= j < entries@.len() implies no_unknown(
                #[trigger] entries@[j].1,
                opts,
            ) by {
                lemma_joined_dict_ok(entries@, j, entries@.len() as int, opts, depth + 1);
                lemma_ok_implies_no_unknown(entries@[j].1, opts, depth + 1);
            }
        },
        Value::Record(fields) => {
            assert forall|j: int| 0 <= j < fields@.len() implies no_unknown(
                #[trigger] fields@[j].1,
                opts,
            ) by {
                lemma_joined_record_ok(fields@, j, fields@.len() as int, opts, depth + 1);
                lemma_ok_implies_no_unknown(fields@[j].1, opts, depth + 1);
            }
        },
        _ => (),
    }
}

/// Wraps rendered text in double quotes.
fn quoted(inner: String) -> (r: String)
    ensures
        r@ == "\""@ + inner@ + "\""@,
{
    let mut out = String::from_str("\"");
    out.append(inner.as_str());
    out.append("\"");
    out
}

/// Encodes the elements of a sequence value, joined with commas.
fn encode_sequence<F: Fallback>(
    items: &Vec<Value>,
    hook: Option<&F>,
    opts: u8,
    depth2: u8,
    calls: u8,
) -> (r: Result<String, EncodeError>)
    ensures
        (hook is None || (forall|j: int|
            0 <= j < items@.len() ==> no_unknown(#[trigger] items@[j], opts))) ==> res_view(r)
            == joined_list(items@, items@.len() as int, opts, depth2 as nat),
    decreases 255int - calls as int, *items, 0int,
{
    let ghost pre = hook is None || (forall|j: int|
        0 <= j < items@.len() ==> no_unknown(#[trigger] items@[j], opts));
    let n = items.len();
    let mut inner = String::new();
    let mut i: usize = 0;
    while i < n
        invariant
            i <= n,
            n == items@.len(),
            pre == (hook is None || (forall|j: int|
                0 <= j < items@.len() ==> no_unknown(#[trigger] items@[j], opts))),
            pre ==> joined_list(items@, i as int, opts, depth2 as nat) == Ok::<
                Seq<char>,
                ErrSpec,
            >(inner@),
        decreases n - i,
    {
        if i > 0 {
            inner.append(",");
        }
        proof {
            assert(decreases_to!(items => items@));
            assert(decreases_to!(items@ => items@[i as int]));
        }
        match encode_value(&items[i], hook, opts, depth2, calls) {
            Ok(part) => {
                inner.append(part.as_str());
                proof {
                    if pre {
                        assert(joined_list(items@, i + 1, opts, depth2 as nat) == Ok::<
                            Seq<char>,
                            ErrSpec,
                        >(inner@)) by {
                            assert(encode_spec(items@[i as int], opts, depth2 as nat) == Ok::<
                                Seq<char>,
                                ErrSpec,
                            >(part@));
                            if i == 0 {
                                assert(Seq::<char>::empty() + part@ =~= part@);
                            }
                            assert(joined_list(items@, i + 1, opts, depth2 as nat)->Ok_0
                                =~= inner@);
                        }
                    }
                }
            },
            Err(e) => {
                proof {
                    if pre {
                        assert(joined_list(items@, i + 1, opts, depth2 as nat) == Err::<
                            Seq<char>,
                            ErrSpec,
                        >(e@));
                        lemma_joined_list_err(items@, i + 1, items@.len() as int, opts,
                            depth2 as nat);
                    }
                }
                return Err(e);
            },
        }
        i += 1;
    }
    Ok(inner)
}

/// Encodes the entries of a key-value container, as `key:value` pairs
/// joined with commas; keys must be strings.
fn encode_entries<F: Fallback>(
    entries: &Vec<(Value, Value)>,
    hook: Option<&F>,
    opts: u8,
    depth2: u8,
    calls: u8,
) -> (r: Result<String, EncodeError>)
    ensures
        (hook is None || (forall|j: int|
            0 <= j < entries@.len() ==> no_unknown(#[trigger] entries@[j].1, opts))) ==> res_view(
            r,
        ) == joined_dict(entries@, entries@.len() as int, opts, depth2 as nat),
    decreases 255int - calls as int, *entries, 0int,
{
    let ghost pre = hook is None || (forall|j: int|
        0 <= j < entries@.len() ==> no_unknown(#[trigger] entries@[j].1, opts));
    let n = entries.len();
    let mut inner = String::new();
    let mut i: usize = 0;
    while i < n
        invariant
            i <= n,
            n == entries@.len(),
            pre == (hook is None || (forall|j: int|
                0 <= j < entries@.len() ==> no_unknown(#[trigger] entries@[j].1, opts))),
            pre ==> joined_dict(entries@, i as int, opts, depth2 as nat) == Ok::<
                Seq<char>,
                ErrSpec,
            >(inner@),
        decreases n - i,
    {
        if i > 0 {
            inner.append(",");
        }
        let key_text = match &entries[i].0 {
            Value::Str(ks) => quote_str(ks.as_str()),
            Value::StrInvalid => {
                proof {
                    if pre {
                        assert(joined_dict(entries@, i + 1, opts, depth2 as nat) == Err::<
                            Seq<char>,
                            ErrSpec,
                        >(ErrSpec::InvalidString));
                        lemma_joined_dict_err(entries@, i + 1, entries@.len() as int, opts,
                            depth2 as nat);
                    }
                }
                return Err(EncodeError::InvalidString);
            },
            _ => {
                proof {
                    if pre {
                        assert(joined_dict(entries@, i + 1, opts, depth2 as nat) == Err::<
                            Seq<char>,
                            ErrSpec,
                        >(ErrSpec::NonStringKey));
                        lemma_joined_dict_err(entries@, i + 1, entries@.len() as int, opts,
                            depth2 as nat);
                    }
                }
                return Err(EncodeError::NonStringKey);
            },
        };
        proof {
            assert(decreases_to!(entries => entries@));
            assert(decreases_to!(entries@ => entries@[i as int]));
            assert(decreases_to!(entries@[i as int] => entries@[i as int].1));
        }
        match encode_value(&entries[i].1, hook, opts, depth2, calls) {
            Ok(part) => {
                inner.append(key_text.as_str());
                inner.append(":");
                inner.append(part.as_str());
                proof {
                    if pre {
                        assert(joined_dict(entries@, i + 1, opts, depth2 as nat) == Ok::<
                            Seq<char>,
                            ErrSpec,
                        >(inner@)) by {
                            assert(encode_spec(entries@[i as int].1, opts, depth2 as nat) == Ok::<
                                Seq<char>,
                                ErrSpec,
                            >(part@));
                            assert(joined_dict(entries@, i + 1, opts, depth2 as nat)->Ok_0
                                =~= inner@);
                        }
                    }
                }
            },
            Err(e) => {
                proof {
                    if pre {
                        assert(joined_dict(entries@, i + 1, opts, depth2 as nat) == Err::<
                            Seq<char>,
                            ErrSpec,
                        >(e@));
                        lemma_joined_dict_err(entries@, i + 1, entries@.len() as int, opts,
                            depth2 as nat);
                    }
                }
                return Err(e);
            },
        }
        i += 1;
    }
    Ok(inner)
}

/// Encodes the fields of a record, as `name:value` pairs in declaration
/// order, joined with commas.
fn encode_fields<F: Fallback>(
    fields: &Vec<(String, Value)>,
    hook: Option<&F>,
    opts: u8,
    depth2: u8,
    calls: u8,
) -> (r: Result<String, EncodeError>)
    ensures
        (hook is None || (forall|j: int|
            0 <= j < fields@.len() ==> no_unknown(#[trigger] fields@[j].1, opts))) ==> res_view(r)
            == joined_record(fields@, fields@.len() as int, opts, depth2 as nat),
    decreases 255int - calls as int, *fields, 0int,
{
    let ghost pre = hook is None || (forall|j: int|
        0 <= j < fields@.len() ==> no_unknown(#[trigger] fields@[j].1, opts));
    let n = fields.len();
    let mut inner = String::new();
    let mut i: usize = 0;
    while i < n
        invariant
            i <= n,
            n == fields@.len(),
            pre == (hook is None || (forall|j: int|
                0 <= j < fields@.len() ==> no_unknown(#[trigger] fields@[j].1, opts))),
            pre ==> joined_record(fields@, i as int, opts, depth2 as nat) == Ok::<
                Seq<char>,
                ErrSpec,
            >(inner@),
        decreases n - i,
    {
        if i > 0 {
            inner.append(",");
        }
        let key_text = quote_str(fields[i].0.as_str());
        proof {
            assert(decreases_to!(fields => fields@));
            assert(decreases_to!(fields@ => fields@[i as int]));
            assert(decreases_to!(fields@[i as int] => fields@[i as int].1));
        }
        match encode_value(&fields[i].1, hook, opts, depth2, calls) {
            Ok(part) => {
                inner.append(key_text.as_str());
                inner.append(":");
                inner.append(part.as_str());
                proof {
                    if pre {
                        assert(joined_record(fields@, i + 1, opts, depth2 as nat) == Ok::<
                            Seq<char>,
                            ErrSpec,
                        >(inner@)) by {
                            assert(encode_spec(fields@[i as int].1, opts, depth2 as nat) == Ok::<
                                Seq<char>,
                                ErrSpec,
                            >(part@));
                            assert(joined_record(fields@, i + 1, opts, depth2 as nat)->Ok_0
                                =~= inner@);
                        }
                    }
                }
            },
            Err(e) => {
                proof {
                    if pre {
                        assert(joined_record(fields@, i + 1, opts, depth2 as nat) == Err::<
                            Seq<char>,
                            ErrSpec,
                        >(e@));
                        lemma_joined_record_err(fields@, i + 1, fields@.len() as int, opts,
                            depth2 as nat);
                    }
                }
                return Err(e);
            },
        }
        i += 1;
    }
    Ok(inner)
}

/// Handles one value of unrecognized kind: without a hook that is an
/// error naming the type; with one, the hook is consulted, bounded by the
/// fallback counter, and its replacement is encoded in the value's place
/// at unchanged depth.
fn encode_unrecognized<F: Fallback>(
    name: String,
    v: &Value,
    hook: Option<&F>,
    opts: u8,
    depth: u8,
    calls: u8,
) -> (r: Result<String, EncodeError>)
    requires
        classify_spec(*v, opts) is Unrecognized,
        name@ == type_name_spec(*v),
    ensures
        hook is None ==> res_view(r) == Err::<Seq<char>, ErrSpec>(
            ErrSpec::TypeNotSerializable(name@),
        ),
    decreases 255int - calls as int, *v, 0int,
{
    match hook {
        Option::None => Err(EncodeError::TypeNotSerializable(name)),
        Option::Some(h) => {
            if calls == 255 {
                Err(EncodeError::FallbackRecursionLimitReached)
            } else {
                match h.call(v) {
                    Option::Some(replacement) => encode_value(
                        &replacement,
                        hook,
                        opts,
                        depth,
                        calls + 1,
                    ),
                    Option::None => Err(EncodeError::FallbackHookFailed(name)),
                }
            }
        },
    }
}

/// Encodes one value at the given depth. Without a hook, and on any graph
/// in which the hook would never be consulted, the result is exactly what
/// `encode_spec` states, success and error alike.
fn encode_value<F: Fallback>(v: &Value, hook: Option<&F>, opts: u8, depth: u8, calls: u8) -> (r:
    Result<String, EncodeError>)
    ensures
        hook is None || no_unknown(*v, opts) ==> res_view(r) == encode_spec(
            *v,
            opts,
            depth as nat,
        ),
    decreases 255int - calls as int, *v, 1int,
{
    match v {
        Value::Str(s) => Ok(quote_str(s.as_str())),
        Value::StrInvalid => Err(EncodeError::InvalidString),
        Value::Int(i) => {
            if opt_enabled(opts, STRICT_INTEGER) && (*i > STRICT_INT_MAX || *i < STRICT_INT_MIN) {
                Err(EncodeError::IntegerRangeExceeded)
            } else {
                Ok(int_str(*i))
            }
        },
        Value::IntBig => Err(EncodeError::IntegerOverflow),
        Value::Float(text) => Ok(String::from_str(text.as_str())),
        Value::Bool(b) => Ok(
            String::from_str(
                if *b {
                    "true"
                } else {
                    "false"
                },
            ),
        ),
        Value::Null => Ok(String::from_str("null")),
        Value::Date(d) => Ok(quoted(format_date(d))),
        Value::Time(t) => {
            if t.has_tzinfo {
                Err(EncodeError::TimeMustNotHaveTimezone)
            } else {
                Ok(quoted(format_time(t)))
            }
        },
        Value::DateTime(dt) => {
            match dt.zone {
                Zone::Unsupported => Err(EncodeError::UnsupportedTimezoneLibrary),
                _ => Ok(quoted(format_datetime(dt))),
            }
        },
        Value::Identifier(u) => {
            if opt_enabled(opts, SERIALIZE_UUID) {
                Ok(quoted(format_identifier(*u)))
            } else {
                encode_unrecognized(String::from_str("UUID"), v, hook, opts, depth, calls)
            }
        },
        Value::List(items) => {
            if depth == 255 {
                Err(EncodeError::RecursionLimitReached)
            } else {
                proof {
                    assert(decreases_to!(*v => *items));
                }
                match encode_sequence(items, hook, opts, depth + 1, calls) {
                    Ok(inner) => {
                        let mut out = String::from_str("[");
                        out.append(inner.as_str());
                        out.append("]");
                        Ok(out)
                    },
                    Err(e) => Err(e),
                }
            }
        },
        Value::Tuple(items) => {
            if depth == 255 {
                Err(EncodeError::RecursionLimitReached)
            } else {
                proof {
                    assert(decreases_to!(*v => *items));
                }
                match encode_sequence(items, hook, opts, depth + 1, calls) {
                    Ok(inner) => {
                        let mut out = String::from_str("[");
                        out.append(inner.as_str());
                        out.append("]");
                        Ok(out)
                    },
                    Err(e) => Err(e),
                }
            }
        },
        Value::Dict(entries) => {
            if depth == 255 {
                Err(EncodeError::RecursionLimitReached)
            } else {
                proof {
                    assert(decreases_to!(*v => *entries));
                }
                match encode_entries(entries, hook, opts, depth + 1, calls) {
                    Ok(inner) => {
                        let mut out = String::from_str("{");
                        out.append(inner.as_str());
                        out.append("}");
                        Ok(out)
                    },
                    Err(e) => Err(e),
                }
            }
        },
        Value::Record(fields) => {
            if !opt_enabled(opts, SERIALIZE_DATACLASS) {
                encode_unrecognized(String::from_str("dataclass"), v, hook, opts, depth, calls)
            } else if depth == 255 {
                Err(EncodeError::RecursionLimitReached)
            } else {
                proof {
                    assert(decreases_to!(*v => *fields));
                }
                match encode_fields(fields, hook, opts, depth + 1, calls) {
                    Ok(inner) => {
                        let mut out = String::from_str("{");
                        out.append(inner.as_str());
                        out.append("}");
                        Ok(out)
                    },
                    Err(e) => Err(e),
                }
            }
        },
        Value::Unrecognized(name) => encode_unrecognized(
            String::from_str(name.as_str()),
            v,
            hook,
            opts,
            depth,
            calls,
        ),
    }
}

/// Encodes one value graph into one complete JSON text. The traversal
/// starts with both bounded counters at zero. Without a fallback hook,
/// and on any graph in which every visited value is of a recognized kind,
/// the call returns exactly what `encode_spec` states: the minified JSON
/// text on success, and the first error the traversal meets otherwise.
/// In particular, success is owed with or without a hook wherever the
/// hook-free semantics succeeds.
pub fn serialize<F: Fallback>(v: &Value, hook: Option<&F>, opts: u8) -> (r: Result<
    String,
    EncodeError,
>)
    ensures
        hook is None || no_unknown(*v, opts) ==> res_view(r) == encode_spec(*v, opts, 0),
        encode_spec(*v, opts, 0) is Ok ==> res_view(r) == encode_spec(*v, opts, 0),
{
    let r = encode_value(v, hook, opts, 0, 0);
    proof {
        if encode_spec(*v, opts, 0) is Ok {
            lemma_ok_implies_no_unknown(*v, opts, 0);
        }
    }
    r
}

/// Encoding is deterministic: it reads nothing but the value graph, the
/// options and the depth, so encoding an unchanged value twice yields
/// byte-identical text and identical errors.
pub proof fn lemma_encode_deterministic(v1: Value, v2: Value, opts1: u8, opts2: u8)
    requires
        v1 == v2,
        opts1 == opts2,
    ensures
        encode_spec(v1, opts1, 0) == encode_spec(v2, opts2, 0),
{
}

} // verus!
