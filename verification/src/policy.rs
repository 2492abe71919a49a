//! The field policy engine: how a field is read from and written to the wire.
//!
//! The policy of a field depends on the wire shape of its type and on a few
//! facts about where the field stands: whether its record is the body of a
//! request, which provider the client is for, and, for one provider, the
//! field itself.

use crate::render::WireShape;
use crate::text::str_eq;
use vstd::prelude::*;
use vstd::string::*;

verus! {

/// When a field is left out of what is written.
#[derive(Clone, Copy, Debug, PartialEq, Eq, Structural)]
pub enum Skip {
    Never,
    EmptyText,
    EmptyList,
    EmptyDictionary,
    Absent,
    ZeroInt32,
    ZeroInt64,
    ZeroUInt32,
    ZeroUInt64,
    ZeroFloat32,
    ZeroFloat64,
    Noop,
}

/// How a field is read.
#[derive(Clone, Copy, Debug, PartialEq, Eq, Structural)]
pub enum Decode {
    Plain,
    NullText,
    NullList,
    EmptyUrl,
    Date,
    DateTime,
    NullBool,
    NullInt32,
    NullInt64,
    NullUInt32,
    NullUInt64,
    NullFloat32,
    NullFloat64,
}

/// How a field is written.
#[derive(Clone, Copy, Debug, PartialEq, Eq, Structural)]
pub enum Encode {
    Plain,
    CalendarDateTime,
}

/// The serialization policy of one field.
#[derive(Clone, Copy, Debug, PartialEq, Eq, Structural)]
pub struct FieldPolicy {
    /// A field that is missing from the input gets the default value of its
    /// type.
    pub default: bool,
    pub skip: Skip,
    pub decode: Decode,
    pub encode: Encode,
    /// The field is declared as an optional boolean, so that leaving it out
    /// and sending `false` differ.
    pub optional_bool: bool,
}

/// Where a field stands.
#[derive(Clone, Copy, Debug, PartialEq, Eq, Structural)]
pub struct FieldContext {
    /// The record is the body of a request.
    pub request: bool,
    /// The provider writes date-times in a format of its own.
    pub calendar_times: bool,
    /// The provider tells a boolean that is left out from `false`.
    pub optional_booleans: bool,
    /// The provider needs this field written even where it is absent.
    pub always_written: bool,
}

/// The provider whose date-times are written in its own format.
pub open spec fn has_calendar_times(provider: Seq<char>) -> bool {
    provider == "Google Calendar"@
}

/// The provider that tells a boolean that is left out from `false`.
pub open spec fn has_optional_booleans(provider: Seq<char>) -> bool {
    provider == "Google Drive"@
}

/// The fields that one provider needs written even where they are absent.
pub open spec fn is_always_written(provider: Seq<char>, field: Seq<char>) -> bool {
    provider == "GitHub"@ && (field == "required_pull_request_reviews"@ || field
        == "required_status_checks"@ || field == "restrictions"@)
}

/// Whether a record of this name is the body of a request.
pub open spec fn is_request(record: Seq<char>) -> bool {
    "Request"@.is_suffix_of(record)
}

/// The context of the field `field` of the record `record` in a client for
/// `provider`.
pub open spec fn context_of(record: Seq<char>, provider: Seq<char>, field: Seq<char>)
    -> FieldContext {
    FieldContext {
        request: is_request(record),
        calendar_times: has_calendar_times(provider),
        optional_booleans: has_optional_booleans(provider),
        always_written: is_always_written(provider, field),
    }
}

/// The context of the field `field` of the record `record` in a client for
/// `provider`.
pub fn field_context(record: &str, provider: &str, field: &str) -> (c: FieldContext)
    ensures
        c == context_of(record@, provider@, field@),
{
    FieldContext {
        request: crate::text::ends_with(record, "Request"),
        calendar_times: str_eq(provider, "Google Calendar"),
        optional_booleans: str_eq(provider, "Google Drive"),
        always_written: str_eq(provider, "GitHub") && (str_eq(
            field,
            "required_pull_request_reviews",
        ) || str_eq(field, "required_status_checks") || str_eq(field, "restrictions")),
    }
}

/// A policy that asks for nothing.
pub open spec fn plain_policy() -> FieldPolicy {
    FieldPolicy {
        default: false,
        skip: Skip::Never,
        decode: Decode::Plain,
        encode: Encode::Plain,
        optional_bool: false,
    }
}

/// A policy with a default value, the given skip rule and the given decoder.
pub open spec fn lenient(skip: Skip, decode: Decode) -> FieldPolicy {
    FieldPolicy { default: true, skip, decode, encode: Encode::Plain, optional_bool: false }
}

/// The policy of a field whose type has the wire shape `shape` and that
/// stands in `ctx`.
pub open spec fn policy_of(shape: WireShape, ctx: FieldContext) -> FieldPolicy {
    match shape {
        WireShape::Text => lenient(Skip::EmptyText, Decode::NullText),
        WireShape::List => lenient(Skip::EmptyList, Decode::NullList),
        WireShape::Dictionary => lenient(Skip::EmptyDictionary, Decode::Plain),
        WireShape::OptionalUrl => lenient(Skip::Absent, Decode::EmptyUrl),
        WireShape::OptionalDate => lenient(Skip::Absent, Decode::Date),
        WireShape::OptionalDateTime => FieldPolicy {
            default: true,
            skip: Skip::Absent,
            decode: Decode::DateTime,
            encode: if ctx.calendar_times {
                Encode::CalendarDateTime
            } else {
                Encode::Plain
            },
            optional_bool: false,
        },
        WireShape::Optional => if ctx.always_written {
            lenient(Skip::Never, Decode::Plain)
        } else {
            lenient(Skip::Absent, Decode::Plain)
        },
        WireShape::Bool => if ctx.request || ctx.optional_booleans {
            FieldPolicy {
                default: true,
                skip: Skip::Absent,
                decode: Decode::Plain,
                encode: Encode::Plain,
                optional_bool: true,
            }
        } else {
            lenient(Skip::Never, Decode::NullBool)
        },
        WireShape::Int32 => lenient(Skip::ZeroInt32, Decode::NullInt32),
        WireShape::Int64 => lenient(Skip::ZeroInt64, Decode::NullInt64),
        WireShape::UInt32 => lenient(Skip::ZeroUInt32, Decode::NullUInt32),
        WireShape::UInt64 => lenient(Skip::ZeroUInt64, Decode::NullUInt64),
        WireShape::Float32 => lenient(Skip::ZeroFloat32, Decode::NullFloat32),
        WireShape::Float64 => lenient(Skip::ZeroFloat64, Decode::NullFloat64),
        WireShape::Choice { has_default } => if has_default {
            lenient(Skip::Never, Decode::Plain)
        } else {
            lenient(Skip::Noop, Decode::Plain)
        },
        WireShape::Other => plain_policy(),
    }
}

fn lenient_policy(skip: Skip, decode: Decode) -> (p: FieldPolicy)
    ensures
        p == lenient(skip, decode),
{
    FieldPolicy { default: true, skip, decode, encode: Encode::Plain, optional_bool: false }
}

/// The policy of a field whose type has the wire shape `shape` and that
/// stands in `ctx`.
pub fn field_policy(shape: WireShape, ctx: FieldContext) -> (p: FieldPolicy)
    ensures
        p == policy_of(shape, ctx),
{
    match shape {
        WireShape::Text => lenient_policy(Skip::EmptyText, Decode::NullText),
        WireShape::List => lenient_policy(Skip::EmptyList, Decode::NullList),
        WireShape::Dictionary => lenient_policy(Skip::EmptyDictionary, Decode::Plain),
        WireShape::OptionalUrl => lenient_policy(Skip::Absent, Decode::EmptyUrl),
        WireShape::OptionalDate => lenient_policy(Skip::Absent, Decode::Date),
        WireShape::OptionalDateTime => FieldPolicy {
            default: true,
            skip: Skip::Absent,
            decode: Decode::DateTime,
            encode: if ctx.calendar_times {
                Encode::CalendarDateTime
            } else {
                Encode::Plain
            },
            optional_bool: false,
        },
        WireShape::Optional => if ctx.always_written {
            lenient_policy(Skip::Never, Decode::Plain)
        } else {
            lenient_policy(Skip::Absent, Decode::Plain)
        },
        WireShape::Bool => if ctx.request || ctx.optional_booleans {
            FieldPolicy {
                default: true,
                skip: Skip::Absent,
                decode: Decode::Plain,
                encode: Encode::Plain,
                optional_bool: true,
            }
        } else {
            lenient_policy(Skip::Never, Decode::NullBool)
        },
        WireShape::Int32 => lenient_policy(Skip::ZeroInt32, Decode::NullInt32),
        WireShape::Int64 => lenient_policy(Skip::ZeroInt64, Decode::NullInt64),
        WireShape::UInt32 => lenient_policy(Skip::ZeroUInt32, Decode::NullUInt32),
        WireShape::UInt64 => lenient_policy(Skip::ZeroUInt64, Decode::NullUInt64),
        WireShape::Float32 => lenient_policy(Skip::ZeroFloat32, Decode::NullFloat32),
        WireShape::Float64 => lenient_policy(Skip::ZeroFloat64, Decode::NullFloat64),
        WireShape::Choice { has_default } => if has_default {
            lenient_policy(Skip::Never, Decode::Plain)
        } else {
            lenient_policy(Skip::Noop, Decode::Plain)
        },
        WireShape::Other => FieldPolicy {
            default: false,
            skip: Skip::Never,
            decode: Decode::Plain,
            encode: Encode::Plain,
            optional_bool: false,
        },
    }
}

/// The shapes of whole numbers.
pub open spec fn is_whole_number(shape: WireShape) -> bool {
    shape is Int32 || shape is Int64 || shape is UInt32 || shape is UInt64
}

/// Whether the decoder reads a null as the number zero.
pub open spec fn reads_null_as_zero(d: Decode) -> bool {
    d is NullInt32 || d is NullInt64 || d is NullUInt32 || d is NullUInt64
}

/// Whether the skip rule leaves out a number exactly when it is zero.
pub open spec fn skips_zero(s: Skip) -> bool {
    s is ZeroInt32 || s is ZeroInt64 || s is ZeroUInt32 || s is ZeroUInt64
}

/// What a whole-number field holds after reading `input`, where `None` stands
/// for a null or for a field that is missing: nothing if the policy does not
/// allow for that.
pub open spec fn decoded_number(p: FieldPolicy, input: Option<int>) -> Option<int> {
    match input {
        Some(v) => Some(v),
        None => if p.default && reads_null_as_zero(p.decode) {
            Some(0int)
        } else {
            None
        },
    }
}

/// Whether a whole-number field that holds `value` is left out of what is
/// written.
pub open spec fn omits_number(p: FieldPolicy, value: int) -> bool {
    skips_zero(p.skip) && value == 0
}

/// What a whole-number field holds after reading `input`; see
/// [`decoded_number`].
pub fn decode_number(p: &FieldPolicy, input: Option<i64>) -> (r: Option<i64>)
    ensures
        match r {
            Some(v) => decoded_number(
                *p,
                match input {
                    Some(x) => Some(x as int),
                    None => None,
                },
            ) == Some(v as int),
            None => decoded_number(
                *p,
                match input {
                    Some(x) => Some(x as int),
                    None => None,
                },
            ) is None,
        },
{
    match input {
        Some(v) => Some(v),
        None => {
            let coerces = match p.decode {
                Decode::NullInt32 => true,
                Decode::NullInt64 => true,
                Decode::NullUInt32 => true,
                Decode::NullUInt64 => true,
                _ => false,
            };
            if p.default && coerces {
                Some(0)
            } else {
                None
            }
        },
    }
}

/// Whether a whole-number field that holds `value` is left out of what is
/// written; see [`omits_number`].
pub fn omit_number(p: &FieldPolicy, value: i64) -> (r: bool)
    ensures
        r == omits_number(*p, value as int),
{
    let zero_rule = match p.skip {
        Skip::ZeroInt32 => true,
        Skip::ZeroInt64 => true,
        Skip::ZeroUInt32 => true,
        Skip::ZeroUInt64 => true,
        _ => false,
    };
    zero_rule && value == 0
}

/// A whole-number field tolerates a null: it reads it as zero, leaves a zero
/// out when it writes, and so writes nothing for what it read as null; any
/// other number is written.
pub proof fn lemma_null_number_round_trip(shape: WireShape, ctx: FieldContext)
    requires
        is_whole_number(shape),
    ensures
        decoded_number(policy_of(shape, ctx), None) == Some(0int),
        omits_number(policy_of(shape, ctx), 0),
        forall|v: int| v != 0 ==> !omits_number(policy_of(shape, ctx), v),
        forall|v: int| decoded_number(policy_of(shape, ctx), Some(v)) == Some(v),
{
}

/// The name of the predicate behind a skip rule; `choice` is the type
/// expression of the field, which the rule for a no-op choice needs.
pub open spec fn skip_text(s: Skip, choice: Seq<char>) -> Option<Seq<char>> {
    match s {
        Skip::Never => None,
        Skip::EmptyText => Some("String::is_empty"@),
        Skip::EmptyList => Some("Vec::is_empty"@),
        Skip::EmptyDictionary => Some("std::collections::HashMap::is_empty"@),
        Skip::Absent => Some("Option::is_none"@),
        Skip::ZeroInt32 => Some("crate::utils::zero_i32"@),
        Skip::ZeroInt64 => Some("crate::utils::zero_i64"@),
        Skip::ZeroUInt32 => Some("crate::utils::zero_u32"@),
        Skip::ZeroUInt64 => Some("crate::utils::zero_u64"@),
        Skip::ZeroFloat32 => Some("crate::utils::zero_f32"@),
        Skip::ZeroFloat64 => Some("crate::utils::zero_f64"@),
        Skip::Noop => Some(choice + "::is_noop"@),
    }
}

/// The name of the function behind a decoder.
pub open spec fn decode_text(d: Decode) -> Option<Seq<char>> {
    match d {
        Decode::Plain => None,
        Decode::NullText => Some("crate::utils::deserialize_null_string::deserialize"@),
        Decode::NullList => Some("crate::utils::deserialize_null_vector::deserialize"@),
        Decode::EmptyUrl => Some("crate::utils::deserialize_empty_url::deserialize"@),
        Decode::Date => Some("crate::utils::date_format::deserialize"@),
        Decode::DateTime => Some("crate::utils::date_time_format::deserialize"@),
        Decode::NullBool => Some("crate::utils::deserialize_null_boolean::deserialize"@),
        Decode::NullInt32 => Some("crate::utils::deserialize_null_i32::deserialize"@),
        Decode::NullInt64 => Some("crate::utils::deserialize_null_i64::deserialize"@),
        Decode::NullUInt32 => Some("crate::utils::deserialize_null_u32::deserialize"@),
        Decode::NullUInt64 => Some("crate::utils::deserialize_null_u64::deserialize"@),
        Decode::NullFloat32 => Some("crate::utils::deserialize_null_f32::deserialize"@),
        Decode::NullFloat64 => Some("crate::utils::deserialize_null_f64::deserialize"@),
    }
}

/// The name of the function behind an encoder.
pub open spec fn encode_text(e: Encode) -> Option<Seq<char>> {
    match e {
        Encode::Plain => None,
        Encode::CalendarDateTime => Some(
            "crate::utils::google_calendar_date_time_format::serialize"@,
        ),
    }
}

/// The name of the predicate behind a skip rule; see [`skip_text`].
pub fn skip_name(s: Skip, choice: &str) -> (r: Option<String>)
    ensures
        crate::schema::opt_text(r) == skip_text(s, choice@),
{
    match s {
        Skip::Never => None,
        Skip::EmptyText => Some(String::from_str("String::is_empty")),
        Skip::EmptyList => Some(String::from_str("Vec::is_empty")),
        Skip::EmptyDictionary => Some(
            String::from_str("std::collections::HashMap::is_empty"),
        ),
        Skip::Absent => Some(String::from_str("Option::is_none")),
        Skip::ZeroInt32 => Some(String::from_str("crate::utils::zero_i32")),
        Skip::ZeroInt64 => Some(String::from_str("crate::utils::zero_i64")),
        Skip::ZeroUInt32 => Some(String::from_str("crate::utils::zero_u32")),
        Skip::ZeroUInt64 => Some(String::from_str("crate::utils::zero_u64")),
        Skip::ZeroFloat32 => Some(String::from_str("crate::utils::zero_f32")),
        Skip::ZeroFloat64 => Some(String::from_str("crate::utils::zero_f64")),
        Skip::Noop => Some(crate::text::concat2(choice, "::is_noop")),
    }
}

/// The name of the function behind a decoder.
pub fn decode_name(d: Decode) -> (r: Option<&'static str>)
    ensures
        match r {
            Some(s) => decode_text(d) == Some(s@),
            None => decode_text(d) is None,
        },
{
    match d {
        Decode::Plain => None,
        Decode::NullText => Some("crate::utils::deserialize_null_string::deserialize"),
        Decode::NullList => Some("crate::utils::deserialize_null_vector::deserialize"),
        Decode::EmptyUrl => Some("crate::utils::deserialize_empty_url::deserialize"),
        Decode::Date => Some("crate::utils::date_format::deserialize"),
        Decode::DateTime => Some("crate::utils::date_time_format::deserialize"),
        Decode::NullBool => Some("crate::utils::deserialize_null_boolean::deserialize"),
        Decode::NullInt32 => Some("crate::utils::deserialize_null_i32::deserialize"),
        Decode::NullInt64 => Some("crate::utils::deserialize_null_i64::deserialize"),
        Decode::NullUInt32 => Some("crate::utils::deserialize_null_u32::deserialize"),
        Decode::NullUInt64 => Some("crate::utils::deserialize_null_u64::deserialize"),
        Decode::NullFloat32 => Some("crate::utils::deserialize_null_f32::deserialize"),
        Decode::NullFloat64 => Some("crate::utils::deserialize_null_f64::deserialize"),
    }
}

/// The name of the function behind an encoder.
pub fn encode_name(e: Encode) -> (r: Option<&'static str>)
    ensures
        match r {
            Some(s) => encode_text(e) == Some(s@),
            None => encode_text(e) is None,
        },
{
    match e {
        Encode::Plain => None,
        Encode::CalendarDateTime => Some(
            "crate::utils::google_calendar_date_time_format::serialize",
        ),
    }
}

} // verus!
