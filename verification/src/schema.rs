//! The schema of a Fluent Bit release: its plugins and their properties.

use crate::section::FlbSectionType;
use crate::text::{decimal, digit_char, push_decimal, str_eq, string_push_str};
use vstd::prelude::*;
use vstd::string::StrSliceExecFns;

verus! {

/// The schema that a release of Fluent Bit publishes of its configuration.
#[derive(Debug, Clone, PartialEq)]
pub struct FlbConfigSchema {
    pub fluent_bit: FlbInfo,
    pub customs: Vec<FlbPlugin>,
    pub inputs: Vec<FlbPlugin>,
    pub filters: Vec<FlbPlugin>,
    pub outputs: Vec<FlbPlugin>,
}

/// The release that a schema describes.
#[derive(Debug, Clone, PartialEq)]
pub struct FlbInfo {
    /// The version of Fluent Bit, such as `3.1.5`.
    pub version: String,
    /// The version of the schema's format.
    pub schema_version: String,
    /// The operating system, such as `linux`.
    pub os: String,
}

/// A plugin of the schema.
#[derive(Debug, Clone, PartialEq)]
pub struct FlbPlugin {
    /// The kind of section that configures the plugin.
    pub type_: FlbSectionType,
    /// The name of the plugin, such as `cpu` or `netif`.
    pub name: String,
    pub description: String,
    /// The options of the plugin.
    pub properties: Vec<FlbProperty>,
    pub has_networking: bool,
    pub has_network_tls: bool,
}

/// A property of a plugin.
#[derive(Debug, Clone, PartialEq)]
pub struct FlbProperty {
    pub type_: FlbPropertyType,
    pub name: String,
    pub description: String,
    pub default: Option<String>,
}

/// The type of the values of a property.
#[derive(Debug, Clone, Copy, PartialEq, Eq, Structural)]
pub enum FlbPropertyType {
    String,
    Integer,
    Boolean,
    Double,
    Size,
    Time,
    /// Any number of strings, separated by commas.
    CommaDelimitedStringsUnlimited,
    /// At least so many strings, separated by commas.
    CommaDelimitedStringsWithMinimum(u32),
    /// Any number of strings, separated by spaces.
    SpaceDelimitedStringsUnlimited,
    /// At least so many strings, separated by spaces.
    SpaceDelimitedStringsWithMinimum(u32),
    /// A string under a prefix, such as `rdkafka.{property}`.
    PrefixedString,
    Deprecated,
}

/// Why the name of a property type was refused.
#[derive(Debug, Clone, Copy, PartialEq, Eq, Structural)]
pub enum SchemaError {
    /// The name is that of no property type.
    UnknownPropertyType,
    /// The name asks for a minimum that is too large.
    MinimumTooLarge,
}

/// What comes before the number in the name of comma delimited strings with a
/// minimum.
pub open spec fn comma_prefix() -> Seq<char> {
    "comma delimited strings (minimum "@
}

/// What comes before the number in the name of space delimited strings with a
/// minimum.
pub open spec fn space_prefix() -> Seq<char> {
    "space delimited strings (minimum "@
}

/// Whether `c` is one of the digits `0` to `9`.
pub open spec fn is_digit(c: char) -> bool {
    '0' <= c <= '9'
}

/// The number that the decimal digits `digits` write.
pub open spec fn decimal_value(digits: Seq<char>) -> nat
    decreases digits.len(),
{
    if digits.len() == 0 {
        0
    } else {
        decimal_value(digits.drop_last()) * 10 + ((digits.last() as u32) - ('0' as u32)) as nat
    }
}

/// Whether `s` is `prefix`, one decimal digit or more, and a closing bracket.
pub open spec fn has_minimum_form(s: Seq<char>, prefix: Seq<char>) -> bool {
    &&& s.len() >= prefix.len() + 2
    &&& s.subrange(0, prefix.len() as int) == prefix
    &&& s.last() == ')'
    &&& forall|i: int| prefix.len() <= i < s.len() - 1 ==> is_digit(#[trigger] s[i])
}

/// The number in a name of the form that `has_minimum_form` describes.
pub open spec fn minimum_of(s: Seq<char>, prefix: Seq<char>) -> nat {
    decimal_value(s.subrange(prefix.len() as int, s.len() - 1))
}

/// The property type with a fixed name that `s` names, if it names one.
pub open spec fn fixed_property_type(s: Seq<char>) -> Option<FlbPropertyType> {
    if s == "string"@ {
        Some(FlbPropertyType::String)
    } else if s == "integer"@ {
        Some(FlbPropertyType::Integer)
    } else if s == "boolean"@ {
        Some(FlbPropertyType::Boolean)
    } else if s == "double"@ {
        Some(FlbPropertyType::Double)
    } else if s == "size"@ {
        Some(FlbPropertyType::Size)
    } else if s == "time"@ {
        Some(FlbPropertyType::Time)
    } else if s == "multiple comma delimited strings"@ {
        Some(FlbPropertyType::CommaDelimitedStringsUnlimited)
    } else if s == "multiple space delimited strings"@ {
        Some(FlbPropertyType::SpaceDelimitedStringsUnlimited)
    } else if s == "prefixed string"@ {
        Some(FlbPropertyType::PrefixedString)
    } else if s == "deprecated"@ {
        Some(FlbPropertyType::Deprecated)
    } else {
        None
    }
}

/// The property type that `s` names, or why it names none.
pub open spec fn parse_property_type(s: Seq<char>) -> Result<FlbPropertyType, SchemaError> {
    match fixed_property_type(s) {
        Some(fixed) => Ok(fixed),
        None => if has_minimum_form(s, comma_prefix()) {
            if minimum_of(s, comma_prefix()) <= u32::MAX {
                Ok(
                    FlbPropertyType::CommaDelimitedStringsWithMinimum(
                        minimum_of(s, comma_prefix()) as u32,
                    ),
                )
            } else {
                Err(SchemaError::MinimumTooLarge)
            }
        } else if has_minimum_form(s, space_prefix()) {
            if minimum_of(s, space_prefix()) <= u32::MAX {
                Ok(
                    FlbPropertyType::SpaceDelimitedStringsWithMinimum(
                        minimum_of(s, space_prefix()) as u32,
                    ),
                )
            } else {
                Err(SchemaError::MinimumTooLarge)
            }
        } else {
            Err(SchemaError::UnknownPropertyType)
        },
    }
}

/// The name of a property type.
pub open spec fn property_type_text(property_type: FlbPropertyType) -> Seq<char> {
    match property_type {
        FlbPropertyType::String => "string"@,
        FlbPropertyType::Integer => "integer"@,
        FlbPropertyType::Boolean => "boolean"@,
        FlbPropertyType::Double => "double"@,
        FlbPropertyType::Size => "size"@,
        FlbPropertyType::Time => "time"@,
        FlbPropertyType::CommaDelimitedStringsUnlimited => "multiple comma delimited strings"@,
        FlbPropertyType::CommaDelimitedStringsWithMinimum(minimum) => comma_prefix() + decimal(
            minimum as nat,
        ) + ")"@,
        FlbPropertyType::SpaceDelimitedStringsUnlimited => "multiple space delimited strings"@,
        FlbPropertyType::SpaceDelimitedStringsWithMinimum(minimum) => space_prefix() + decimal(
            minimum as nat,
        ) + ")"@,
        FlbPropertyType::PrefixedString => "prefixed string"@,
        FlbPropertyType::Deprecated => "deprecated"@,
    }
}

/// Whether `s` has the form of a name with a minimum under `prefix`, and the
/// minimum where it has and the number is not too large.
fn parse_minimum(s: &str, prefix: &str) -> (res: Option<Option<u32>>)
    ensures
        res is Some <==> has_minimum_form(s@, prefix@),
        res matches Some(Some(n)) ==> n == minimum_of(s@, prefix@),
        res matches Some(None) ==> minimum_of(s@, prefix@) > u32::MAX,
{
    let len = s.unicode_len();
    let prefix_len = prefix.unicode_len();
    if len < 2 || len - 2 < prefix_len {
        return None;
    }
    let mut i: usize = 0;
    while i < prefix_len
        invariant
            i <= prefix_len,
            prefix_len == prefix@.len(),
            len == s@.len(),
            prefix_len + 2 <= len,
            s@.subrange(0, i as int) == prefix@.subrange(0, i as int),
        decreases prefix_len - i,
    {
        if s.get_char(i) != prefix.get_char(i) {
            assert(s@.subrange(0, prefix_len as int)[i as int] != prefix@[i as int]);
            return None;
        }
        assert(s@.subrange(0, i + 1) =~= s@.subrange(0, i as int).push(s@[i as int]));
        assert(prefix@.subrange(0, i + 1) =~= prefix@.subrange(0, i as int).push(
            prefix@[i as int],
        ));
        i += 1;
    }
    assert(prefix@.subrange(0, prefix_len as int) =~= prefix@);
    if s.get_char(len - 1) != ')' {
        return None;
    }
    let ghost digits = s@.subrange(prefix_len as int, len - 1);
    let mut value: u64 = 0;
    let mut fits = true;
    let mut j: usize = prefix_len;
    while j < len - 1
        invariant
            prefix_len <= j <= len - 1,
            prefix_len == prefix@.len(),
            len == s@.len(),
            digits == s@.subrange(prefix_len as int, len - 1),
            forall|k: int| prefix_len <= k < j ==> is_digit(#[trigger] s@[k]),
            fits ==> value == decimal_value(digits.subrange(0, j - prefix_len)),
            fits ==> value <= u32::MAX,
            !fits ==> decimal_value(digits.subrange(0, j - prefix_len)) > u32::MAX,
        decreases len - 1 - j,
    {
        let c = s.get_char(j);
        if !(c >= '0' && c <= '9') {
            assert(!is_digit(s@[j as int]));
            return None;
        }
        let d = (c as u32 - '0' as u32) as u64;
        proof {
            let now = digits.subrange(0, j + 1 - prefix_len);
            assert(now.drop_last() =~= digits.subrange(0, j - prefix_len));
            assert(now.last() == c);
        }
        if fits {
            value = value * 10 + d;
            if value > u32::MAX as u64 {
                fits = false;
            }
        }
        j += 1;
    }
    assert(digits.subrange(0, len - 1 - prefix_len) =~= digits);
    if fits {
        Some(Some(value as u32))
    } else {
        Some(None)
    }
}

impl FlbPropertyType {
    /// The property type that `s` names. A name is one of the fixed names, or
    /// that of delimited strings with a minimum: `comma delimited strings
    /// (minimum N)` or `space delimited strings (minimum N)`, with `N` in
    /// decimal digits.
    pub fn from_name(s: &str) -> (res: Result<FlbPropertyType, SchemaError>)
        ensures
            res == parse_property_type(s@),
    {
        if str_eq(s, "string") {
            Ok(FlbPropertyType::String)
        } else if str_eq(s, "integer") {
            Ok(FlbPropertyType::Integer)
        } else if str_eq(s, "boolean") {
            Ok(FlbPropertyType::Boolean)
        } else if str_eq(s, "double") {
            Ok(FlbPropertyType::Double)
        } else if str_eq(s, "size") {
            Ok(FlbPropertyType::Size)
        } else if str_eq(s, "time") {
            Ok(FlbPropertyType::Time)
        } else if str_eq(s, "multiple comma delimited strings") {
            Ok(FlbPropertyType::CommaDelimitedStringsUnlimited)
        } else if str_eq(s, "multiple space delimited strings") {
            Ok(FlbPropertyType::SpaceDelimitedStringsUnlimited)
        } else if str_eq(s, "prefixed string") {
            Ok(FlbPropertyType::PrefixedString)
        } else if str_eq(s, "deprecated") {
            Ok(FlbPropertyType::Deprecated)
        } else {
            match parse_minimum(s, "comma delimited strings (minimum ") {
                Some(Some(minimum)) => Ok(
                    FlbPropertyType::CommaDelimitedStringsWithMinimum(minimum),
                ),
                Some(None) => Err(SchemaError::MinimumTooLarge),
                None => match parse_minimum(s, "space delimited strings (minimum ") {
                    Some(Some(minimum)) => Ok(
                        FlbPropertyType::SpaceDelimitedStringsWithMinimum(minimum),
                    ),
                    Some(None) => Err(SchemaError::MinimumTooLarge),
                    None => Err(SchemaError::UnknownPropertyType),
                },
            }
        }
    }

    /// The name of the property type.
    pub fn to_text(&self) -> (text: String)
        ensures
            text@ == property_type_text(*self),
    {
        match self {
            FlbPropertyType::String => "string".to_owned(),
            FlbPropertyType::Integer => "integer".to_owned(),
            FlbPropertyType::Boolean => "boolean".to_owned(),
            FlbPropertyType::Double => "double".to_owned(),
            FlbPropertyType::Size => "size".to_owned(),
            FlbPropertyType::Time => "time".to_owned(),
            FlbPropertyType::CommaDelimitedStringsUnlimited => {
                "multiple comma delimited strings".to_owned()
            },
            FlbPropertyType::CommaDelimitedStringsWithMinimum(minimum) => {
                let mut text = "comma delimited strings (minimum ".to_owned();
                push_decimal(&mut text, *minimum as usize);
                string_push_str(&mut text, ")");
                text
            },
            FlbPropertyType::SpaceDelimitedStringsUnlimited => {
                "multiple space delimited strings".to_owned()
            },
            FlbPropertyType::SpaceDelimitedStringsWithMinimum(minimum) => {
                let mut text = "space delimited strings (minimum ".to_owned();
                push_decimal(&mut text, *minimum as usize);
                string_push_str(&mut text, ")");
                text
            },
            FlbPropertyType::PrefixedString => "prefixed string".to_owned(),
            FlbPropertyType::Deprecated => "deprecated".to_owned(),
        }
    }
}

impl core::str::FromStr for FlbPropertyType {
    type Err = SchemaError;

    /// The property type that `s` names, or why it names none.
    fn from_str(s: &str) -> (res: Result<Self, Self::Err>)
        ensures
            res == parse_property_type(s@),
    {
        FlbPropertyType::from_name(s)
    }
}

impl FlbPlugin {
    /// A plugin from what a schema file holds of it: its options are its
    /// properties, none where the file names none, and it has networking, or
    /// TLS, where the file lists properties for it.
    pub fn from_parts(
        type_: FlbSectionType,
        name: String,
        description: String,
        options: Option<Vec<FlbProperty>>,
        networking: Option<Vec<FlbProperty>>,
        network_tls: Option<Vec<FlbProperty>>,
    ) -> (plugin: FlbPlugin)
        ensures
            plugin.type_ == type_,
            plugin.name == name,
            plugin.description == description,
            plugin.properties@ == match options {
                Some(options) => options@,
                None => Seq::empty(),
            },
            plugin.has_networking == networking is Some,
            plugin.has_network_tls == network_tls is Some,
    {
        FlbPlugin {
            type_,
            name,
            description,
            properties: match options {
                Some(options) => options,
                None => Vec::new(),
            },
            has_networking: networking.is_some(),
            has_network_tls: network_tls.is_some(),
        }
    }
}

impl Default for FlbInfo {
    fn default() -> (info: FlbInfo)
        ensures
            info.version@ == Seq::<char>::empty(),
            info.schema_version@ == Seq::<char>::empty(),
            info.os@ == Seq::<char>::empty(),
    {
        FlbInfo { version: String::new(), schema_version: String::new(), os: String::new() }
    }
}

impl Default for FlbConfigSchema {
    fn default() -> (schema: FlbConfigSchema)
        ensures
            schema.fluent_bit.version@ == Seq::<char>::empty(),
            schema.fluent_bit.schema_version@ == Seq::<char>::empty(),
            schema.fluent_bit.os@ == Seq::<char>::empty(),
            schema.customs@.len() == 0,
            schema.inputs@.len() == 0,
            schema.filters@.len() == 0,
            schema.outputs@.len() == 0,
    {
        FlbConfigSchema {
            fluent_bit: FlbInfo {
                version: String::new(),
                schema_version: String::new(),
                os: String::new(),
            },
            customs: Vec::new(),
            inputs: Vec::new(),
            filters: Vec::new(),
            outputs: Vec::new(),
        }
    }
}

/// The decimal digits of a number are digits, one or more, and write that
/// number.
pub proof fn lemma_decimal_value(n: nat)
    ensures
        decimal(n).len() >= 1,
        forall|i: int| 0 <= i < decimal(n).len() ==> is_digit(#[trigger] decimal(n)[i]),
        decimal_value(decimal(n)) == n,
    decreases n,
{
    if n < 10 {
        assert(decimal(n).drop_last() =~= Seq::<char>::empty());
        assert(decimal_value(decimal(n)) == decimal_value(Seq::<char>::empty()) * 10 + ((
        digit_char(n) as u32) - ('0' as u32)) as nat);
    } else {
        lemma_decimal_value(n / 10);
        assert(decimal(n).drop_last() =~= decimal(n / 10));
        assert(decimal(n).last() == digit_char(n % 10));
    }
}

/// The name of delimited strings with a minimum has the form of such a name
/// under its prefix, and its number is the minimum.
proof fn lemma_minimum_text(prefix: Seq<char>, n: nat)
    ensures
        has_minimum_form(prefix + decimal(n) + ")"@, prefix),
        minimum_of(prefix + decimal(n) + ")"@, prefix) == n,
{
    reveal_strlit(")");
    lemma_decimal_value(n);
    let s = prefix + decimal(n) + ")"@;
    assert(s.subrange(0, prefix.len() as int) =~= prefix);
    assert(s.subrange(prefix.len() as int, s.len() - 1) =~= decimal(n));
    assert forall|i: int| prefix.len() <= i < s.len() - 1 implies is_digit(#[trigger] s[i]) by {
        assert(s[i] == decimal(n)[i - prefix.len()]);
    }
}

/// The name of a property type names that property type.
pub proof fn lemma_property_type_round_trip(property_type: FlbPropertyType)
    ensures
        parse_property_type(property_type_text(property_type)) == Ok::<
            FlbPropertyType,
            SchemaError,
        >(property_type),
{
    reveal_strlit("string");
    reveal_strlit("integer");
    reveal_strlit("boolean");
    reveal_strlit("double");
    reveal_strlit("size");
    reveal_strlit("time");
    reveal_strlit("multiple comma delimited strings");
    reveal_strlit("multiple space delimited strings");
    reveal_strlit("prefixed string");
    reveal_strlit("deprecated");
    reveal_strlit("comma delimited strings (minimum ");
    reveal_strlit("space delimited strings (minimum ");
    reveal_strlit(")");
    let text = property_type_text(property_type);
    assert("string"@[0] != "double"@[0]);
    assert("integer"@[0] != "boolean"@[0]);
    assert("size"@[0] != "time"@[0]);
    assert("multiple comma delimited strings"@[9] != "multiple space delimited strings"@[9]);
    match property_type {
        FlbPropertyType::CommaDelimitedStringsWithMinimum(minimum) => {
            lemma_decimal_value(minimum as nat);
            lemma_minimum_text(comma_prefix(), minimum as nat);
            assert(text.len() >= 35);
        },
        FlbPropertyType::SpaceDelimitedStringsWithMinimum(minimum) => {
            lemma_decimal_value(minimum as nat);
            lemma_minimum_text(space_prefix(), minimum as nat);
            assert(text.len() >= 35);
            assert(text.subrange(0, comma_prefix().len() as int)[0] == 's');
            assert(comma_prefix()[0] == 'c');
        },
        _ => {},
    }
}

} // verus!
