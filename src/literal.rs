use vstd::prelude::*;
use crate::errors::ValueKind;
use crate::compiled::{TypedValue, ValueModel};

verus! {

/// A value supplied by a query, before it is given a type by the schema.
#[derive(Debug)]
pub enum JsonLiteral {
    /// The decimal text of a JSON number, as it was written.
    Number(String),
    String(String),
    Bool(bool),
}

/// A bound of a range.
#[derive(Debug)]
pub enum Bound<T> {
    Included(T),
    Excluded(T),
    Unbounded,
}

pub open spec fn is_digit(c: char) -> bool {
    '0' <= c && c <= '9'
}

pub open spec fn digit_value(c: char) -> int {
    c as int - '0' as int
}

pub open spec fn all_digits(s: Seq<char>) -> bool {
    forall|i: int| 0 <= i < s.len() ==> is_digit(#[trigger] s[i])
}

/// The value of a string of decimal digits.
pub open spec fn digits_value(s: Seq<char>) -> int
    decreases s.len(),
{
    if s.len() == 0 {
        0
    } else {
        digits_value(s.drop_last()) * 10 + digit_value(s.last())
    }
}

/// The text without a leading `+`.
pub open spec fn unsigned_body(s: Seq<char>) -> Seq<char> {
    if s.len() > 0 && s[0] == '+' {
        s.drop_first()
    } else {
        s
    }
}

/// What `u64::from_str` accepts: an optional `+`, then one or more digits
/// whose value fits.
pub open spec fn u64_of_text(s: Seq<char>) -> Option<u64> {
    let body = unsigned_body(s);
    if body.len() > 0 && all_digits(body) && digits_value(body) <= u64::MAX {
        Some(digits_value(body) as u64)
    } else {
        None
    }
}

/// What `i64::from_str` accepts: an optional sign, then one or more digits
/// whose signed value fits.
pub open spec fn i64_of_text(s: Seq<char>) -> Option<i64> {
    if s.len() > 0 && s[0] == '-' {
        let body = s.drop_first();
        if body.len() > 0 && all_digits(body) && digits_value(body) <= i64::MAX + 1 {
            Some((-digits_value(body)) as i64)
        } else {
            None
        }
    } else {
        let body = unsigned_body(s);
        if body.len() > 0 && all_digits(body) && digits_value(body) <= i64::MAX {
            Some(digits_value(body) as i64)
        } else {
            None
        }
    }
}

/// What `bool::from_str` accepts: exactly `true` or `false`.
pub open spec fn bool_of_text(s: Seq<char>) -> Option<bool> {
    if s == seq!['t', 'r', 'u', 'e'] {
        Some(true)
    } else if s == seq!['f', 'a', 'l', 's', 'e'] {
        Some(false)
    } else {
        None
    }
}

proof fn lemma_digits_value_push(s: Seq<char>, c: char)
    ensures
        digits_value(s.push(c)) == digits_value(s) * 10 + digit_value(c),
{
    assert(s.push(c).drop_last() =~= s);
}

proof fn lemma_digits_value_nonneg(s: Seq<char>)
    requires
        all_digits(s),
    ensures
        digits_value(s) >= 0,
    decreases s.len(),
{
    if s.len() > 0 {
        lemma_digits_value_nonneg(s.drop_last());
    }
}

/// Reads the digits of `s` from `start` on; `None` when one is not a digit
/// or the value exceeds `limit`.
fn read_digits(s: &str, start: usize, limit: u64) -> (r: Option<u64>)
    requires
        start <= s@.len(),
    ensures
        r == (if all_digits(s@.subrange(start as int, s@.len() as int)) && digits_value(
            s@.subrange(start as int, s@.len() as int),
        ) <= limit {
            Some(digits_value(s@.subrange(start as int, s@.len() as int)) as u64)
        } else {
            None
        }),
        r matches Some(v) ==> v <= limit && v as int == digits_value(
            s@.subrange(start as int, s@.len() as int),
        ),
{
    let len = s.unicode_len();
    let mut acc: u64 = 0;
    let mut i: usize = start;
    while i < len
        invariant
            start <= i <= len,
            len == s@.len(),
            all_digits(s@.subrange(start as int, i as int)),
            acc as int == digits_value(s@.subrange(start as int, i as int)),
            acc <= limit,
        decreases len - i,
    {
        let c = s.get_char(i);
        let ghost prefix = s@.subrange(start as int, i as int);
        assert(s@.subrange(start as int, i + 1) =~= prefix.push(c));
        proof {
            lemma_digits_value_push(prefix, c);
        }
        if !('0' <= c && c <= '9') {
            assert(!is_digit(s@.subrange(start as int, len as int)[i - start]));
            return None;
        }
        let d = (c as u32 - '0' as u32) as u64;
        if d > limit || acc > (limit - d) / 10 {
            proof {
                let whole = s@.subrange(start as int, len as int);
                assert(acc * 10 + d > limit) by (nonlinear_arith)
                    requires
                        d > limit || acc > (limit - d) / 10,
                ;
                assert(whole.subrange(0, (i + 1 - start) as int) =~= prefix.push(c));
                if all_digits(whole) {
                    lemma_prefix_value_bound(whole, (i + 1 - start) as int);
                }
            }
            return None;
        }
        assert(acc * 10 + d <= limit) by (nonlinear_arith)
            requires
                d <= limit,
                acc <= (limit - d) / 10,
        ;
        acc = acc * 10 + d;
        i = i + 1;
    }
    assert(s@.subrange(start as int, i as int) =~= s@.subrange(start as int, s@.len() as int));
    Some(acc)
}

/// A prefix of a digit string never has a larger value than the whole.
proof fn lemma_prefix_value_bound(s: Seq<char>, n: int)
    requires
        all_digits(s),
        0 <= n <= s.len(),
    ensures
        digits_value(s.subrange(0, n)) <= digits_value(s),
    decreases s.len(),
{
    if n < s.len() {
        assert(s.drop_last().subrange(0, n) =~= s.subrange(0, n));
        lemma_prefix_value_bound(s.drop_last(), n);
        lemma_digits_value_nonneg(s.drop_last());
        assert(is_digit(s[s.len() - 1]));
    } else {
        assert(s.subrange(0, n) =~= s);
    }
}

/// Reads `s` as `u64::from_str` does.
pub fn parse_u64(s: &str) -> (r: Option<u64>)
    ensures
        r == u64_of_text(s@),
{
    let len = s.unicode_len();
    let start: usize = if len > 0 && s.get_char(0) == '+' { 1 } else { 0 };
    assert(s@.subrange(start as int, len as int) =~= unsigned_body(s@));
    if start == len {
        return None;
    }
    read_digits(s, start, u64::MAX)
}

/// Reads `s` as `i64::from_str` does.
pub fn parse_i64(s: &str) -> (r: Option<i64>)
    ensures
        r == i64_of_text(s@),
{
    let len = s.unicode_len();
    if len > 0 && s.get_char(0) == '-' {
        assert(s@.subrange(1, len as int) =~= s@.drop_first());
        if len == 1 {
            return None;
        }
        match read_digits(s, 1, 9_223_372_036_854_775_808u64) {
            Some(v) => {
                if v == 9_223_372_036_854_775_808u64 {
                    Some(i64::MIN)
                } else {
                    Some(-(v as i64))
                }
            },
            None => None,
        }
    } else {
        let start: usize = if len > 0 && s.get_char(0) == '+' { 1 } else { 0 };
        assert(s@.subrange(start as int, len as int) =~= unsigned_body(s@));
        if start == len {
            return None;
        }
        match read_digits(s, start, i64::MAX as u64) {
            Some(v) => Some(v as i64),
            None => None,
        }
    }
}

/// Reads `s` as `bool::from_str` does.
pub fn parse_bool(s: &str) -> (r: Option<bool>)
    ensures
        r == bool_of_text(s@),
{
    let len = s.unicode_len();
    if len == 4 && s.get_char(0) == 't' && s.get_char(1) == 'r' && s.get_char(2) == 'u'
        && s.get_char(3) == 'e' {
        assert(s@ =~= seq!['t', 'r', 'u', 'e']);
        Some(true)
    } else if len == 5 && s.get_char(0) == 'f' && s.get_char(1) == 'a' && s.get_char(2) == 'l'
        && s.get_char(3) == 's' && s.get_char(4) == 'e' {
        assert(s@ =~= seq!['f', 'a', 'l', 's', 'e']);
        Some(false)
    } else {
        proof {
            if s@ == seq!['t', 'r', 'u', 'e'] {
                assert(s@[0] == 't' && s@[1] == 'r' && s@[2] == 'u' && s@[3] == 'e');
            }
            if s@ == seq!['f', 'a', 'l', 's', 'e'] {
                assert(s@[0] == 'f' && s@[1] == 'a' && s@[2] == 'l' && s@[3] == 's' && s@[4] == 'e');
            }
        }
        None
    }
}

/// The instant an RFC 3339 timestamp denotes, in nanoseconds since the Unix
/// epoch, or `None` when the text is not such a timestamp.
pub uninterp spec fn rfc3339_nanos(s: Seq<char>) -> Option<i64>;

/// Relies on `time::OffsetDateTime::parse` with the `Rfc3339` format, and on
/// `tantivy::DateTime::from_utc`, to read an RFC 3339 timestamp.
#[verifier::external_body]
pub(crate) fn parse_rfc3339(s: &str) -> (r: Option<i64>)
    ensures
        r == rfc3339_nanos(s@),
{
    let format = tantivy::time::format_description::well_known::Rfc3339;
    match tantivy::time::OffsetDateTime::parse(s, &format) {
        Ok(dt) => Some(tantivy::DateTime::from_utc(dt).into_timestamp_nanos()),
        Err(_) => None,
    }
}

/// The IPv6 address, IPv4 addresses being mapped, that the text denotes.
pub uninterp spec fn ip_of_text(s: Seq<char>) -> Option<u128>;

/// Relies on `tantivy::schema::FieldType::value_from_json`, which reads a
/// string for an IP address field as `IpAddr::from_str` does and maps IPv4
/// addresses into IPv6.
#[verifier::external_body]
pub(crate) fn parse_ip(s: &str) -> (r: Option<u128>)
    ensures
        r == ip_of_text(s@),
{
    let field_type = tantivy::schema::FieldType::IpAddr(Default::default());
    match field_type.value_from_json(serde_json::Value::String(s.to_string())) {
        Ok(tantivy::schema::Value::IpAddr(ip)) => Some(u128::from(ip)),
        _ => None,
    }
}

/// The order-preserving integer image (`tantivy::f64_to_u64`) of the float
/// that the text denotes.
pub uninterp spec fn f64_key_of_text(s: Seq<char>) -> Option<u64>;

/// Relies on `tantivy::schema::FieldType::value_from_json`, which reads a
/// string for a coercing float field with `f64::from_str`, and on
/// `tantivy::f64_to_u64` to map the float to an integer of the same order.
#[verifier::external_body]
pub(crate) fn parse_f64_key(s: &str) -> (r: Option<u64>)
    ensures
        r == f64_key_of_text(s@),
{
    let options = tantivy::schema::NumericOptions::default().set_coerce();
    let field_type = tantivy::schema::FieldType::F64(options);
    match field_type.value_from_json(serde_json::Value::String(s.to_string())) {
        Ok(tantivy::schema::Value::F64(v)) => Some(tantivy::f64_to_u64(v)),
        _ => None,
    }
}

pub const HIGHEST_BIT: u64 = 0x8000_0000_0000_0000u64;

/// Whether the float whose integer image is `key` is neither infinite nor
/// NaN: its exponent bits are not all set.
pub open spec fn finite_key(key: u64) -> bool {
    let bits = if key & HIGHEST_BIT != 0 {
        key ^ HIGHEST_BIT
    } else {
        !key
    };
    (bits >> 52u64) & 0x7ffu64 != 0x7ffu64
}

pub fn is_finite_key(key: u64) -> (r: bool)
    ensures
        r == finite_key(key),
{
    let bits = if key & HIGHEST_BIT != 0 {
        key ^ HIGHEST_BIT
    } else {
        !key
    };
    (bits >> 52u64) & 0x7ffu64 != 0x7ffu64
}

/// The text of a string or number literal.
pub open spec fn literal_text(lit: JsonLiteral) -> Option<Seq<char>> {
    match lit {
        JsonLiteral::Number(t) => Some(t@),
        JsonLiteral::String(t) => Some(t@),
        JsonLiteral::Bool(_) => None,
    }
}

/// The value a literal takes in a field of type `kind`, if it has one:
/// a string only as text, an integer from its decimal text, a finite
/// float, a boolean or the text `true`/`false`, a date from an RFC 3339
/// string, an address from an IP string.
pub open spec fn interpret(lit: JsonLiteral, kind: ValueKind) -> Option<ValueModel> {
    match kind {
        ValueKind::Str => match lit {
            JsonLiteral::String(t) => Some(ValueModel::Str(t@)),
            _ => None,
        },
        ValueKind::U64 => match literal_text(lit) {
            Some(t) => match u64_of_text(t) {
                Some(v) => Some(ValueModel::U64(v)),
                None => None,
            },
            None => None,
        },
        ValueKind::I64 => match literal_text(lit) {
            Some(t) => match i64_of_text(t) {
                Some(v) => Some(ValueModel::I64(v)),
                None => None,
            },
            None => None,
        },
        ValueKind::F64 => match literal_text(lit) {
            Some(t) => match f64_key_of_text(t) {
                Some(k) => if finite_key(k) {
                    Some(ValueModel::F64(k))
                } else {
                    None
                },
                None => None,
            },
            None => None,
        },
        ValueKind::Bool => match lit {
            JsonLiteral::Bool(b) => Some(ValueModel::Bool(b)),
            JsonLiteral::String(t) => match bool_of_text(t@) {
                Some(b) => Some(ValueModel::Bool(b)),
                None => None,
            },
            JsonLiteral::Number(_) => None,
        },
        ValueKind::Date => match lit {
            JsonLiteral::String(t) => match rfc3339_nanos(t@) {
                Some(v) => Some(ValueModel::Date(v)),
                None => None,
            },
            _ => None,
        },
        ValueKind::IpAddr => match lit {
            JsonLiteral::String(t) => match ip_of_text(t@) {
                Some(v) => Some(ValueModel::IpAddr(v)),
                None => None,
            },
            _ => None,
        },
        _ => None,
    }
}

impl JsonLiteral {
    fn text(&self) -> (r: Option<&str>)
        ensures
            match r {
                Some(t) => literal_text(*self) == Some(t@),
                None => literal_text(*self) is None,
            },
    {
        match self {
            JsonLiteral::Number(t) => Some(t.as_str()),
            JsonLiteral::String(t) => Some(t.as_str()),
            JsonLiteral::Bool(_) => None,
        }
    }

    /// The value this literal takes in a field of type `kind`.
    pub fn interpret(&self, kind: ValueKind) -> (r: Option<TypedValue>)
        ensures
            match r {
                Some(v) => interpret(*self, kind) == Some(v@),
                None => interpret(*self, kind) is None,
            },
    {
        match kind {
            ValueKind::Str => match self {
                JsonLiteral::String(t) => Some(TypedValue::Str(t.clone())),
                _ => None,
            },
            ValueKind::U64 => match self.text() {
                Some(t) => match parse_u64(t) {
                    Some(v) => Some(TypedValue::U64(v)),
                    None => None,
                },
                None => None,
            },
            ValueKind::I64 => match self.text() {
                Some(t) => match parse_i64(t) {
                    Some(v) => Some(TypedValue::I64(v)),
                    None => None,
                },
                None => None,
            },
            ValueKind::F64 => match self.text() {
                Some(t) => match parse_f64_key(t) {
                    Some(k) => if is_finite_key(k) {
                        Some(TypedValue::F64(k))
                    } else {
                        None
                    },
                    None => None,
                },
                None => None,
            },
            ValueKind::Bool => match self {
                JsonLiteral::Bool(b) => Some(TypedValue::Bool(*b)),
                JsonLiteral::String(t) => match parse_bool(t.as_str()) {
                    Some(b) => Some(TypedValue::Bool(b)),
                    None => None,
                },
                JsonLiteral::Number(_) => None,
            },
            ValueKind::Date => match self {
                JsonLiteral::String(t) => match parse_rfc3339(t.as_str()) {
                    Some(v) => Some(TypedValue::Date(v)),
                    None => None,
                },
                _ => None,
            },
            ValueKind::IpAddr => match self {
                JsonLiteral::String(t) => match parse_ip(t.as_str()) {
                    Some(v) => Some(TypedValue::IpAddr(v)),
                    None => None,
                },
                _ => None,
            },
            _ => None,
        }
    }
}

} // verus!
