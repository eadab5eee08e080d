//! Character classes and small string operations shared by the validators.

use vstd::prelude::*;

verus! {

/// Unicode general category `Cc`: U+0000 through U+001F and U+007F through U+009F.
pub open spec fn is_control(c: char) -> bool {
    ('\u{0}' <= c && c <= '\u{1f}') || ('\u{7f}' <= c && c <= '\u{9f}')
}

/// The Unicode `White_Space` property.
pub open spec fn is_whitespace(c: char) -> bool {
    ||| ('\u{9}' <= c && c <= '\u{d}')
    ||| c == ' '
    ||| c == '\u{85}'
    ||| c == '\u{a0}'
    ||| c == '\u{1680}'
    ||| ('\u{2000}' <= c && c <= '\u{200a}')
    ||| c == '\u{2028}'
    ||| c == '\u{2029}'
    ||| c == '\u{202f}'
    ||| c == '\u{205f}'
    ||| c == '\u{3000}'
}

/// A lowercase stable token character: ASCII lowercase letter, digit, `.`, `_` or `-`.
pub open spec fn is_token_char(c: char) -> bool {
    ('a' <= c && c <= 'z') || ('0' <= c && c <= '9') || c == '.' || c == '_' || c == '-'
}

/// The text holds at least one character outside `White_Space` (it is not blank after trimming).
pub open spec fn has_visible_char(s: Seq<char>) -> bool {
    exists|i: int| 0 <= i < s.len() && !is_whitespace(#[trigger] s[i])
}

/// No character of the text is a control character.
pub open spec fn no_control(s: Seq<char>) -> bool {
    forall|i: int| 0 <= i < s.len() ==> !is_control(#[trigger] s[i])
}

/// Every control character of the text is a line feed, carriage return or tab.
pub open spec fn only_layout_controls(s: Seq<char>) -> bool {
    forall|i: int|
        0 <= i < s.len() ==> !is_control(#[trigger] s[i]) || s[i] == '\n' || s[i] == '\r' || s[i]
            == '\t'
}

pub fn char_is_control(c: char) -> (b: bool)
    ensures
        b == is_control(c),
{
    ('\u{0}' <= c && c <= '\u{1f}') || ('\u{7f}' <= c && c <= '\u{9f}')
}

pub fn char_is_whitespace(c: char) -> (b: bool)
    ensures
        b == is_whitespace(c),
{
    ('\u{9}' <= c && c <= '\u{d}') || c == ' ' || c == '\u{85}' || c == '\u{a0}' || c == '\u{1680}'
        || ('\u{2000}' <= c && c <= '\u{200a}') || c == '\u{2028}' || c == '\u{2029}' || c
        == '\u{202f}' || c == '\u{205f}' || c == '\u{3000}'
}

pub fn char_is_token(c: char) -> (b: bool)
    ensures
        b == is_token_char(c),
{
    ('a' <= c && c <= 'z') || ('0' <= c && c <= '9') || c == '.' || c == '_' || c == '-'
}

/// Number of characters (Unicode scalar values) in the text.
pub fn char_len(s: &str) -> (n: usize)
    ensures
        n == s@.len(),
{
    s.unicode_len()
}

/// Whether the text is not blank once surrounding whitespace is trimmed.
pub fn text_has_visible_char(s: &str) -> (b: bool)
    ensures
        b == has_visible_char(s@),
{
    let mut found = false;
    for c in it: s.chars()
        invariant
            it.seq() == s@,
            found == exists|j: int| 0 <= j < it.index() && !is_whitespace(#[trigger] s@[j]),
    {
        if !char_is_whitespace(c) {
            assert(s@[it.index() as int] == c);
            found = true;
        }
    }
    found
}

pub fn text_has_no_control(s: &str) -> (b: bool)
    ensures
        b == no_control(s@),
{
    let mut clean = true;
    for c in it: s.chars()
        invariant
            it.seq() == s@,
            clean == forall|j: int| 0 <= j < it.index() ==> !is_control(#[trigger] s@[j]),
    {
        if char_is_control(c) {
            assert(s@[it.index() as int] == c);
            clean = false;
        }
    }
    clean
}

pub fn text_only_layout_controls(s: &str) -> (b: bool)
    ensures
        b == only_layout_controls(s@),
{
    let mut clean = true;
    for c in it: s.chars()
        invariant
            it.seq() == s@,
            clean == forall|j: int|
                0 <= j < it.index() ==> !is_control(#[trigger] s@[j]) || s@[j] == '\n' || s@[j]
                    == '\r' || s@[j] == '\t',
    {
        if char_is_control(c) && c != '\n' && c != '\r' && c != '\t' {
            assert(s@[it.index() as int] == c);
            clean = false;
        }
    }
    clean
}

/// Calls `String::push`, which appends one character to the text.
#[verifier::external_body]
pub(crate) fn push_char(s: &mut String, c: char)
    ensures
        final(s)@ == old(s)@.push(c),
{
    s.push(c);
}

/// A character that survives message sanitizing: any non-control character, line feed or tab.
pub open spec fn is_kept(c: char) -> bool {
    !is_control(c) || c == '\n' || c == '\t'
}

/// The characters of the text that survive sanitizing, in order.
pub open spec fn kept_chars(s: Seq<char>) -> Seq<char>
    decreases s.len(),
{
    if s.len() == 0 {
        s
    } else {
        let k = kept_chars(s.drop_last());
        if is_kept(s.last()) {
            k.push(s.last())
        } else {
            k
        }
    }
}

/// The first `max` characters of the text (all of it when it is shorter).
pub open spec fn prefix_at_most(s: Seq<char>, max: nat) -> Seq<char> {
    if s.len() <= max {
        s
    } else {
        s.take(max as int)
    }
}

proof fn lemma_sanitize_step(p: Seq<char>, c: char, max: nat)
    ensures
        kept_chars(p.push(c)) == (if is_kept(c) {
            kept_chars(p).push(c)
        } else {
            kept_chars(p)
        }),
        prefix_at_most(kept_chars(p.push(c)), max) == (if is_kept(c) && kept_chars(p).len() < max {
            prefix_at_most(kept_chars(p), max).push(c)
        } else {
            prefix_at_most(kept_chars(p), max)
        }),
{
    assert(p.push(c).drop_last() =~= p);
    let k = kept_chars(p);
    if is_kept(c) && k.len() >= max {
        assert(k.push(c).take(max as int) =~= prefix_at_most(k, max));
    }
}

proof fn lemma_kept_chars_are_kept(s: Seq<char>)
    ensures
        kept_chars(s).len() <= s.len(),
        forall|i: int| 0 <= i < kept_chars(s).len() ==> is_kept(#[trigger] kept_chars(s)[i]),
    decreases s.len(),
{
    if s.len() > 0 {
        lemma_kept_chars_are_kept(s.drop_last());
        let k = kept_chars(s.drop_last());
        if is_kept(s.last()) {
            assert forall|i: int| 0 <= i < k.push(s.last()).len() implies is_kept(
                #[trigger] k.push(s.last())[i],
            ) by {
                if i < k.len() {
                    assert(k.push(s.last())[i] == k[i]);
                }
            }
        }
    }
}

/// A sanitized message is safe to persist and display: at most `max` characters, with no
/// control character other than line feed and tab, in the order they came.
pub proof fn law_sanitized_messages_are_bounded_and_safe(message: Seq<char>, max: nat)
    ensures
        prefix_at_most(kept_chars(message), max).len() <= max,
        forall|i: int|
            0 <= i < prefix_at_most(kept_chars(message), max).len() ==> is_kept(
                #[trigger] prefix_at_most(kept_chars(message), max)[i],
            ),
{
    lemma_kept_chars_are_kept(message);
}

/// Remove control characters other than line feed and tab, and keep at most `max` characters.
pub fn sanitize_message(message: &str, max: usize) -> (r: String)
    ensures
        r@ == prefix_at_most(kept_chars(message@), max as nat),
{
    let mut out = String::new();
    let mut count: usize = 0;
    let ghost mut seen: Seq<char> = Seq::empty();
    assert(kept_chars(seen) =~= Seq::<char>::empty());
    for c in it: message.chars()
        invariant
            seen == it.seq().take(it.index() as int),
            out@ == prefix_at_most(kept_chars(seen), max as nat),
            count == out@.len(),
            count <= max,
    {
        proof {
            lemma_sanitize_step(seen, c, max as nat);
        }
        if char_is_control(c) && c != '\n' && c != '\t' {
        } else if count < max {
            push_char(&mut out, c);
            count = count + 1;
        }
        proof {
            assert(it.seq().take(it.index() + 1) =~= seen.push(c));
            seen = seen.push(c);
        }
    }
    assert(seen =~= message@);
    out
}

/// The decimal digits of a natural number, most significant first.
pub open spec fn decimal(n: nat) -> Seq<char>
    decreases n,
{
    if n < 10 {
        seq![digit_char(n)]
    } else {
        decimal(n / 10).push(digit_char(n % 10))
    }
}

pub open spec fn digit_char(d: nat) -> char {
    if d == 0 {
        '0'
    } else if d == 1 {
        '1'
    } else if d == 2 {
        '2'
    } else if d == 3 {
        '3'
    } else if d == 4 {
        '4'
    } else if d == 5 {
        '5'
    } else if d == 6 {
        '6'
    } else if d == 7 {
        '7'
    } else if d == 8 {
        '8'
    } else {
        '9'
    }
}

fn digit(d: u64) -> (c: char)
    requires
        d < 10,
    ensures
        c == digit_char(d as nat),
{
    if d == 0 {
        '0'
    } else if d == 1 {
        '1'
    } else if d == 2 {
        '2'
    } else if d == 3 {
        '3'
    } else if d == 4 {
        '4'
    } else if d == 5 {
        '5'
    } else if d == 6 {
        '6'
    } else if d == 7 {
        '7'
    } else if d == 8 {
        '8'
    } else {
        '9'
    }
}

/// The decimal text of a number.
pub fn decimal_text(n: u64) -> (r: String)
    ensures
        r@ == decimal(n as nat),
    decreases n,
{
    if n < 10 {
        let mut s = String::new();
        push_char(&mut s, digit(n));
        assert(s@ =~= seq![digit_char(n as nat)]);
        s
    } else {
        let mut s = decimal_text(n / 10);
        push_char(&mut s, digit(n % 10));
        s
    }
}

/// The decimal text of a signed number, with a leading `-` when it is negative.
pub open spec fn signed_decimal(n: int) -> Seq<char> {
    if n < 0 {
        seq!['-'] + decimal((-n) as nat)
    } else {
        decimal(n as nat)
    }
}

/// The decimal text of a signed 32-bit number.
pub fn signed_decimal_text(n: i32) -> (r: String)
    ensures
        r@ == signed_decimal(n as int),
{
    if n < 0 {
        let magnitude: u64 = if n == i32::MIN {
            2147483648u64
        } else {
            (-n) as u64
        };
        let digits = decimal_text(magnitude);
        let mut s = String::new();
        push_char(&mut s, '-');
        let mut out = s;
        out.append(digits.as_str());
        assert(out@ =~= seq!['-'] + decimal((-n) as nat));
        out
    } else {
        decimal_text(n as u64)
    }
}

} // verus!
