//! The declarative option schema behind the property panels: each plugin
//! publishes a table of its editable fields once at registration, and a
//! small interpreter validates values against it.

use vstd::prelude::*;
use vstd::string::StringSliceAdditionalSpecFns;

verus! {

/// What kind of value an option field holds.
#[derive(Clone, Copy, PartialEq, Eq, Structural, Debug)]
pub enum OptionKind {
    Number,
    Text,
}

/// One row of a plugin's option table.
#[derive(Debug)]
pub struct OptionField {
    pub name: String,
    pub kind: OptionKind,
    pub min: i64,
    pub max: i64,
    pub default: i64,
    pub label: String,
}

/// The schema-relevant content of a field.
pub open spec fn field_view(f: OptionField) -> (Seq<char>, OptionKind, int, int, int, Seq<char>) {
    (f.name@, f.kind, f.min as int, f.max as int, f.default as int, f.label@)
}

/// Whether a numeric value is acceptable for the field: the field is numeric
/// and the value lies within its bounds, inclusive.
pub fn validate_number(field: &OptionField, value: i64) -> (r: bool)
    ensures
        r == (field.kind == OptionKind::Number && field.min <= value <= field.max),
{
    match field.kind {
        OptionKind::Number => field.min <= value && value <= field.max,
        OptionKind::Text => false,
    }
}

/// The value forced into the field's bounds.
pub fn clamp_number(field: &OptionField, value: i64) -> (r: i64)
    requires
        field.min <= field.max,
    ensures
        r == (if value < field.min {
            field.min
        } else if value > field.max {
            field.max
        } else {
            value
        }),
        field.min <= r <= field.max,
{
    if value < field.min {
        field.min
    } else if value > field.max {
        field.max
    } else {
        value
    }
}

impl crate::modes::CreateDistrict {
    /// The option table of the create-district mode: one numeric field for
    /// the lot-size parameter.
    pub fn options() -> (r: Vec<OptionField>)
        ensures
            r@.len() == 1,
            field_view(r@[0]) == (
                "minimum_house_side"@,
                OptionKind::Number,
                0int,
                100_000int,
                500int,
                "Minimum House Side"@,
            ),
    {
        let mut fields: Vec<OptionField> = Vec::new();
        fields.push(
            OptionField {
                name: "minimum_house_side".to_owned(),
                kind: OptionKind::Number,
                min: 0,
                max: 100_000,
                default: 500,
                label: "Minimum House Side".to_owned(),
            },
        );
        fields
    }
}

impl crate::plugins::Sync {
    /// The option table of the remote-sync plugin: the endpoint's host and
    /// port, as text.
    pub fn options() -> (r: Vec<OptionField>)
        ensures
            r@.len() == 2,
            field_view(r@[0]) == ("url"@, OptionKind::Text, 0int, 0int, 0int, "URL"@),
            field_view(r@[1]) == ("port"@, OptionKind::Text, 0int, 0int, 0int, "Port"@),
    {
        let mut fields: Vec<OptionField> = Vec::new();
        fields.push(
            OptionField {
                name: "url".to_owned(),
                kind: OptionKind::Text,
                min: 0,
                max: 0,
                default: 0,
                label: "URL".to_owned(),
            },
        );
        fields.push(
            OptionField {
                name: "port".to_owned(),
                kind: OptionKind::Text,
                min: 0,
                max: 0,
                default: 0,
                label: "Port".to_owned(),
            },
        );
        fields
    }
}

/// A decimal digit.
pub open spec fn is_digit(c: char) -> bool {
    '0' <= c <= '9'
}

/// The numeric value of a decimal digit.
pub open spec fn digit_val(c: char) -> int {
    c as int - 48
}

/// The number the digits from index `i` on spell, most significant first,
/// continuing the accumulator.
pub open spec fn digits_value_from(s: Seq<char>, i: int, acc: int) -> int
    decreases s.len() - i,
{
    if i < 0 || i >= s.len() {
        acc
    } else {
        digits_value_from(s, i + 1, acc * 10 + digit_val(s[i]))
    }
}

/// The number a digit string spells.
pub open spec fn port_number(s: Seq<char>) -> int {
    digits_value_from(s, 0, 0)
}

/// A well-formed port: one to five decimal digits, no leading zero, spelling
/// a number from 1 to 65535.
pub open spec fn is_valid_port(s: Seq<char>) -> bool {
    &&& 1 <= s.len() <= 5
    &&& forall|i: int| 0 <= i < s.len() ==> is_digit(#[trigger] s[i])
    &&& (s.len() > 1 ==> s[0] != '0')
    &&& 1 <= port_number(s) <= 65535
}

/// Exact validation of the remote-sync port option.
pub fn validate_port(s: &str) -> (r: bool)
    ensures
        r == is_valid_port(s@),
{
    if !s.is_ascii() {
        proof {
            if is_valid_port(s@) {
                assert forall|i: int| 0 <= i < s@.len() implies '\0' <= #[trigger] s@[i]
                    <= '\u{7f}' by {
                    assert(is_digit(s@[i]));
                }
                assert(vstd::utf8::is_ascii_chars(s@));
            }
        }
        return false;
    }
    proof {
        vstd::string::is_ascii_spec_bytes(s);
    }
    let bytes = s.as_bytes();
    let n = bytes.len();
    if n < 1 || n > 5 {
        return false;
    }
    let mut i: usize = 0;
    let mut value: u32 = 0;
    while i < n
        invariant
            vstd::string::is_ascii(s),
            bytes@ == s.spec_bytes(),
            n == s@.len(),
            n == bytes@.len(),
            1 <= n <= 5,
            i <= n,
            forall|j: int| 0 <= j < n ==> #[trigger] bytes@[j] == s@[j] as u8,
            forall|j: int| 0 <= j < i ==> is_digit(#[trigger] s@[j]),
            value < (if i == 0 {
                1u32
            } else if i == 1 {
                10u32
            } else if i == 2 {
                100u32
            } else if i == 3 {
                1000u32
            } else if i == 4 {
                10000u32
            } else {
                100000u32
            }),
            port_number(s@) == digits_value_from(s@, i as int, value as int),
        decreases n - i,
    {
        let b = bytes[i];
        proof {
            assert(s@[i as int] as u8 == b);
            assert('\0' <= s@[i as int] <= '\u{7f}');
            assert(s@[i as int] as int == b as int);
        }
        if b < 48 || b > 57 {
            proof {
                assert(!is_digit(s@[i as int]));
            }
            return false;
        }
        value = value * 10 + ((b - 48) as u32);
        i += 1;
    }
    if n > 1 && bytes[0] == 48 {
        proof {
            assert(s@[0] as int == 48);
            assert(s@[0] == '0');
        }
        return false;
    }
    proof {
        if n > 1 {
            assert(s@[0] as int != 48);
            assert(s@[0] != '0');
        }
    }
    1 <= value && value <= 65535
}

} // verus!
