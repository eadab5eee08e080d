//! A JSON value held by the library, and the length of its compact encoding.
//!
//! Runner request and report payloads are opaque structured data. The library
//! holds them as `JsonValue` so that their bounds can be checked: nesting,
//! node count, and the byte length of the compact JSON text that encodes them.

use vstd::prelude::*;
use vstd::utf8::encode_utf8;

verus! {

/// One JSON value; object members keep their order.
#[derive(Debug, PartialEq)]
pub enum JsonValue {
    Null,
    Bool(bool),
    /// A number, held as the JSON text that writes it.
    Number(String),
    Str(String),
    Array(Vec<JsonValue>),
    Object(Vec<(String, JsonValue)>),
}

/// `serde_json::Value`, carried opaquely between the parser and its conversion.
#[verifier::external_type_specification]
#[verifier::external_body]
pub struct ExSerdeValue(serde_json::Value);

/// The value that a JSON text denotes, when the text is one JSON value.
pub uninterp spec fn json_text_value(text: Seq<char>) -> Option<JsonValue>;

/// `serde_json::from_str` into a `serde_json::Value`, converted to a `JsonValue`: its contract
/// claims only that the result is a function of the text alone, named `json_text_value`.
#[verifier::external_body]
pub fn parse_json_text(text: &str) -> (r: Option<JsonValue>)
    ensures
        r == json_text_value(text@),
{
    match serde_json::from_str::<serde_json::Value>(text) {
        Ok(value) => Some(json_value_from_serde(&value)),
        Err(_) => None,
    }
}

/// A `serde_json::Value` as a `JsonValue`, variant for variant; a number keeps the text that
/// `serde_json` writes for it. Nothing is claimed of it beyond `parse_json_text`'s contract.
#[verifier::external_body]
fn json_value_from_serde(value: &serde_json::Value) -> JsonValue {
    match value {
        serde_json::Value::Null => JsonValue::Null,
        serde_json::Value::Bool(b) => JsonValue::Bool(*b),
        serde_json::Value::Number(n) => JsonValue::Number(n.to_string()),
        serde_json::Value::String(s) => JsonValue::Str(s.clone()),
        serde_json::Value::Array(items) => JsonValue::Array(items.iter().map(json_value_from_serde).collect()),
        serde_json::Value::Object(members) => JsonValue::Object(
            members.iter().map(|(key, item)| (key.clone(), json_value_from_serde(item))).collect(),
        ),
    }
}

/// Bytes that one byte of a string occupies once escaped in a JSON string literal.
pub open spec fn escaped_byte_len(b: u8) -> nat {
    if b == 0x22 || b == 0x5c || b == 0x08 || b == 0x09 || b == 0x0a || b == 0x0c || b == 0x0d {
        2
    } else if b < 0x20 {
        6
    } else {
        1
    }
}

/// Bytes that a byte sequence occupies once escaped.
pub open spec fn escaped_len(bytes: Seq<u8>) -> nat
    decreases bytes.len(),
{
    if bytes.len() == 0 {
        0
    } else {
        escaped_len(bytes.drop_last()) + escaped_byte_len(bytes.last())
    }
}

/// Bytes of a JSON string literal holding the text.
pub open spec fn string_literal_len(s: Seq<char>) -> nat {
    2 + escaped_len(encode_utf8(s))
}

/// Bytes of the compact JSON encoding of a value.
pub open spec fn json_len(v: JsonValue) -> nat
    decreases v,
{
    match v {
        JsonValue::Null => 4,
        JsonValue::Bool(b) => if b {
            4
        } else {
            5
        },
        JsonValue::Number(t) => encode_utf8(t@).len(),
        JsonValue::Str(s) => string_literal_len(s@),
        JsonValue::Array(items) => 2 + items_len(items@),
        JsonValue::Object(members) => 2 + members_len(members@),
    }
}

/// Bytes of comma-separated array items.
pub open spec fn items_len(s: Seq<JsonValue>) -> nat
    decreases s,
{
    if s.len() == 0 {
        0
    } else {
        let rest = s.subrange(0, s.len() - 1);
        items_len(rest) + json_len(s[s.len() - 1]) + if s.len() > 1 {
            1nat
        } else {
            0nat
        }
    }
}

/// Bytes of comma-separated object members, each `"key":value`.
pub open spec fn members_len(s: Seq<(String, JsonValue)>) -> nat
    decreases s,
{
    if s.len() == 0 {
        0
    } else {
        let rest = s.subrange(0, s.len() - 1);
        let m = s[s.len() - 1];
        members_len(rest) + string_literal_len(m.0@) + 1 + json_len(m.1) + if s.len() > 1 {
            1nat
        } else {
            0nat
        }
    }
}

/// `acc + n`, or `cap + 1` once that sum exceeds `cap`.
pub open spec fn capped(acc: nat, n: nat, cap: nat) -> nat {
    if acc + n > cap {
        cap + 1
    } else {
        acc + n
    }
}

fn escaped_byte_width(b: u8) -> (w: usize)
    ensures
        w == escaped_byte_len(b),
{
    if b == 0x22 || b == 0x5c || b == 0x08 || b == 0x09 || b == 0x0a || b == 0x0c || b == 0x0d {
        2
    } else if b < 0x20 {
        6
    } else {
        1
    }
}

/// `capped(acc, string_literal_len(s), cap)`.
fn add_string_literal_len(s: &str, acc: usize, cap: usize) -> (r: usize)
    requires
        acc <= cap,
        cap < usize::MAX - 8,
    ensures
        r == capped(acc as nat, string_literal_len(s@), cap as nat),
{
    let bytes = s.as_bytes();
    let ghost bs = bytes@;
    assert(bs == encode_utf8(s@));
    if acc + 2 > cap {
        return cap + 1;
    }
    let mut total: usize = acc + 2;
    let mut i: usize = 0;
    while i < bytes.len()
        invariant
            bs == bytes@,
            i <= bs.len(),
            total == acc + 2 + escaped_len(bs.take(i as int)),
            bs == encode_utf8(s@),
            total <= cap,
            cap < usize::MAX - 8,
        decreases bs.len() - i,
    {
        assert(bs.take(i + 1).drop_last() =~= bs.take(i as int));
        assert(bs.take(i + 1).last() == bs[i as int]);
        assert(escaped_len(bs.take(i + 1)) == escaped_len(bs.take(i as int)) + escaped_byte_len(
            bs[i as int],
        ));
        let w = escaped_byte_width(bytes[i]);
        if total + w > cap {
            proof {
                lemma_escaped_len_prefix_mono(bs, i + 1);
                assert(acc + 2 + escaped_len(bs) > cap);
                assert(string_literal_len(s@) == 2 + escaped_len(bs));
            }
            return cap + 1;
        }
        total = total + w;
        i = i + 1;
    }
    assert(bs.take(bs.len() as int) =~= bs);
    total
}

proof fn lemma_escaped_len_prefix_mono(bs: Seq<u8>, k: int)
    requires
        0 <= k <= bs.len(),
    ensures
        escaped_len(bs.take(k)) <= escaped_len(bs),
    decreases bs.len() - k,
{
    if k < bs.len() {
        lemma_escaped_len_prefix_mono(bs, k + 1);
        assert(bs.take(k + 1).drop_last() =~= bs.take(k));
    } else {
        assert(bs.take(k) =~= bs);
    }
}

/// `capped(acc, json_len(v), cap)`: the encoded length added to `acc`, saturating past `cap`.
pub fn add_json_len(v: &JsonValue, acc: usize, cap: usize) -> (r: usize)
    requires
        acc <= cap,
        cap < usize::MAX - 8,
    ensures
        r == capped(acc as nat, json_len(*v), cap as nat),
    decreases *v,
{
    match v {
        JsonValue::Null => if acc + 4 > cap {
            cap + 1
        } else {
            acc + 4
        },
        JsonValue::Bool(b) => {
            let w: usize = if *b {
                4
            } else {
                5
            };
            if acc + w > cap {
                cap + 1
            } else {
                acc + w
            }
        },
        JsonValue::Number(t) => {
            let n = t.as_str().as_bytes().len();
            if n > cap - acc {
                cap + 1
            } else {
                acc + n
            }
        },
        JsonValue::Str(s) => add_string_literal_len(s.as_str(), acc, cap),
        JsonValue::Array(items) => {
            if acc + 2 > cap {
                return cap + 1;
            }
            let mut total: usize = acc + 2;
            let mut i: usize = 0;
            while i < items.len()
                invariant
                    i <= items@.len(),
                    total == acc + 2 + items_len(items@.subrange(0, i as int)),
                    json_len(*v) == 2 + items_len(items@),
                    *v == JsonValue::Array(*items),
                    total <= cap,
                    cap < usize::MAX - 8,
                    acc <= cap,
                decreases items@.len() - i,
            {
                proof {
                    assert(items@.subrange(0, i + 1).subrange(0, i as int) =~= items@.subrange(0, i as int));
                    assert(items@.subrange(0, i + 1)[i as int] == items@[i as int]);
                    assert(items_len(items@.subrange(0, i + 1)) == items_len(items@.subrange(0, i as int))
                        + json_len(items@[i as int]) + if i > 0 {
                        1nat
                    } else {
                        0nat
                    });
                }
                let mut t = total;
                if i > 0 {
                    if t + 1 > cap {
                        proof {
                            lemma_items_len_prefix_mono(items@, i + 1);
                        }
                        return cap + 1;
                    }
                    t = t + 1;
                }
                let item = &items[i];
                assert(*item == items@[i as int]);
                let r = add_json_len(item, t, cap);
                if r > cap {
                    proof {
                        lemma_items_len_prefix_mono(items@, i + 1);
                    }
                    return cap + 1;
                }
                total = r;
                i = i + 1;
            }
            assert(items@.subrange(0, items@.len() as int) =~= items@);
            total
        },
        JsonValue::Object(members) => {
            if acc + 2 > cap {
                return cap + 1;
            }
            let mut total: usize = acc + 2;
            let mut i: usize = 0;
            while i < members.len()
                invariant
                    i <= members@.len(),
                    total == acc + 2 + members_len(members@.subrange(0, i as int)),
                    json_len(*v) == 2 + members_len(members@),
                    *v == JsonValue::Object(*members),
                    total <= cap,
                    cap < usize::MAX - 8,
                    acc <= cap,
                decreases members@.len() - i,
            {
                proof {
                    assert(members@.subrange(0, i + 1).subrange(0, i as int) =~= members@.subrange(
                        0,
                        i as int,
                    ));
                    assert(members@.subrange(0, i + 1)[i as int] == members@[i as int]);
                    assert(members_len(members@.subrange(0, i + 1)) == members_len(
                        members@.subrange(0, i as int),
                    ) + string_literal_len(members@[i as int].0@) + 1 + json_len(members@[i as int].1)
                        + if i > 0 {
                        1nat
                    } else {
                        0nat
                    });
                }
                let mut t = total;
                if i > 0 {
                    if t + 1 > cap {
                        proof {
                            lemma_members_len_prefix_mono(members@, i + 1);
                        }
                        return cap + 1;
                    }
                    t = t + 1;
                }
                let k = add_string_literal_len(members[i].0.as_str(), t, cap);
                if k + 1 > cap {
                    proof {
                        lemma_members_len_prefix_mono(members@, i + 1);
                    }
                    return cap + 1;
                }
                let r = add_json_len(&members[i].1, k + 1, cap);
                if r > cap {
                    proof {
                        lemma_members_len_prefix_mono(members@, i + 1);
                    }
                    return cap + 1;
                }
                total = r;
                i = i + 1;
            }
            assert(members@.subrange(0, members@.len() as int) =~= members@);
            total
        },
    }
}

proof fn lemma_items_len_prefix_mono(s: Seq<JsonValue>, k: int)
    requires
        0 <= k <= s.len(),
    ensures
        items_len(s.subrange(0, k)) <= items_len(s),
    decreases s.len() - k,
{
    if k < s.len() {
        lemma_items_len_prefix_mono(s, k + 1);
        assert(s.subrange(0, k + 1).subrange(0, k) =~= s.subrange(0, k));
    } else {
        assert(s.subrange(0, k) =~= s);
    }
}

proof fn lemma_members_len_prefix_mono(s: Seq<(String, JsonValue)>, k: int)
    requires
        0 <= k <= s.len(),
    ensures
        members_len(s.subrange(0, k)) <= members_len(s),
    decreases s.len() - k,
{
    if k < s.len() {
        lemma_members_len_prefix_mono(s, k + 1);
        assert(s.subrange(0, k + 1).subrange(0, k) =~= s.subrange(0, k));
    } else {
        assert(s.subrange(0, k) =~= s);
    }
}

} // verus!
