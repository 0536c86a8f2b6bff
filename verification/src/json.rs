use vstd::prelude::*;
use crate::address::{hex_digit, hex_digit_char, lemma_hex_digit_injective};
use crate::text::{chars_of, push_char};

verus! {

/// How one character appears inside a JSON string literal written by
/// serde_json: quote and backslash are escaped, the control characters below
/// U+0020 get their short escape where JSON has one and `\u00XX` (lowercase
/// hex) otherwise; every other character is written as it is.
pub open spec fn json_escape_char(c: char) -> Seq<char> {
    if c == '"' {
        seq!['\\', '"']
    } else if c == '\\' {
        seq!['\\', '\\']
    } else if c == '\x08' {
        seq!['\\', 'b']
    } else if c == '\x0c' {
        seq!['\\', 'f']
    } else if c == '\n' {
        seq!['\\', 'n']
    } else if c == '\r' {
        seq!['\\', 'r']
    } else if c == '\t' {
        seq!['\\', 't']
    } else if (c as int) < 32 {
        seq!['\\', 'u', '0', '0', hex_digit((c as int) / 16), hex_digit((c as int) % 16)]
    } else {
        seq![c]
    }
}

/// The escaped body of a JSON string literal.
pub open spec fn json_escape(s: Seq<char>) -> Seq<char>
    decreases s.len(),
{
    if s.len() == 0 {
        Seq::empty()
    } else {
        json_escape(s.drop_last()) + json_escape_char(s.last())
    }
}

/// A JSON string literal: the escaped text between double quotes.
pub open spec fn json_string(s: Seq<char>) -> Seq<char> {
    seq!['"'] + json_escape(s) + seq!['"']
}

/// Appends the escape of one character.
fn push_escaped_char(out: &mut String, c: char)
    ensures
        final(out)@ == old(out)@ + json_escape_char(c),
{
    let code: u32 = c as u32;
    if c == '"' {
        push_char(out, '\\');
        push_char(out, '"');
    } else if c == '\\' {
        push_char(out, '\\');
        push_char(out, '\\');
    } else if c == '\x08' {
        push_char(out, '\\');
        push_char(out, 'b');
    } else if c == '\x0c' {
        push_char(out, '\\');
        push_char(out, 'f');
    } else if c == '\n' {
        push_char(out, '\\');
        push_char(out, 'n');
    } else if c == '\r' {
        push_char(out, '\\');
        push_char(out, 'r');
    } else if c == '\t' {
        push_char(out, '\\');
        push_char(out, 't');
    } else if code < 32 {
        push_char(out, '\\');
        push_char(out, 'u');
        push_char(out, '0');
        push_char(out, '0');
        let hi: u8 = (code / 16) as u8;
        let lo: u8 = (code % 16) as u8;
        push_char(out, hex_digit_char(hi));
        push_char(out, hex_digit_char(lo));
    } else {
        push_char(out, c);
    }
    assert(final(out)@ =~= old(out)@ + json_escape_char(c));
}

/// Appends `s` as a JSON string literal, quoted and escaped.
pub fn push_json_string(out: &mut String, s: &str)
    ensures
        final(out)@ == old(out)@ + json_string(s@),
{
    let chars = chars_of(s);
    let ghost start = out@;
    push_char(out, '"');
    let mut i: usize = 0;
    while i < chars.len()
        invariant
            i <= chars@.len(),
            chars@ == s@,
            out@ == start + seq!['"'] + json_escape(chars@.take(i as int)),
        decreases chars@.len() - i,
    {
        let c = chars[i];
        assert(chars@.take(i as int + 1).drop_last() =~= chars@.take(i as int));
        push_escaped_char(out, c);
        i = i + 1;
    }
    assert(chars@.take(chars@.len() as int) =~= chars@);
    push_char(out, '"');
    assert(out@ =~= start + json_string(s@));
}

/// The escape of a text, read from the front: the first character's escape,
/// then the escape of the rest.
pub proof fn lemma_json_escape_front(s: Seq<char>)
    requires
        s.len() > 0,
    ensures
        json_escape(s) == json_escape_char(s[0]) + json_escape(s.drop_first()),
    decreases s.len(),
{
    if s.len() == 1 {
        assert(s.drop_last() =~= Seq::<char>::empty());
        assert(s.drop_first() =~= Seq::<char>::empty());
        assert(json_escape(s.drop_last()) == Seq::<char>::empty());
        assert(json_escape(s.drop_first()) == Seq::<char>::empty());
        assert(s.last() == s[0]);
        assert(json_escape(s) =~= json_escape_char(s[0]) + json_escape(s.drop_first()));
    } else {
        lemma_json_escape_front(s.drop_last());
        assert(s.drop_last().drop_first() =~= s.drop_first().drop_last());
        assert(s.drop_first().last() == s.last());
        assert(json_escape(s) =~= json_escape_char(s[0]) + json_escape(s.drop_first()));
    }
}

/// The shape of one character's escape: a single character other than a
/// backslash, or a backslash escape of six characters when its second
/// character is `u` and of two otherwise.
proof fn lemma_escape_char_shape(c: char)
    ensures
        json_escape_char(c).len() >= 1,
        json_escape_char(c)[0] != '"',
        json_escape_char(c)[0] != '\\' ==> json_escape_char(c) == seq![c],
        json_escape_char(c)[0] == '\\' ==> json_escape_char(c).len() == (if json_escape_char(c)[1] == 'u' {
            6int
        } else {
            2int
        }),
{
}

/// Different characters have different escapes.
proof fn lemma_escape_char_injective(a: char, b: char)
    requires
        json_escape_char(a) == json_escape_char(b),
    ensures
        a == b,
{
    let e = json_escape_char(a);
    if e[0] == '\\' && e[1] == 'u' {
        assert((a as int) < 32 && (b as int) < 32);
        lemma_hex_digit_injective((a as int) / 16, (b as int) / 16);
        lemma_hex_digit_injective((a as int) % 16, (b as int) % 16);
        assert((a as int) == (b as int));
    }
}

/// Different texts have different escapes.
pub proof fn lemma_json_escape_injective(a: Seq<char>, b: Seq<char>)
    requires
        json_escape(a) == json_escape(b),
    ensures
        a == b,
    decreases a.len() + b.len(),
{
    if a.len() == 0 || b.len() == 0 {
        if a.len() > 0 {
            lemma_json_escape_front(a);
            lemma_escape_char_shape(a[0]);
        }
        if b.len() > 0 {
            lemma_json_escape_front(b);
            lemma_escape_char_shape(b[0]);
        }
        assert(a =~= b);
    } else {
        lemma_json_escape_front(a);
        lemma_json_escape_front(b);
        lemma_escape_char_shape(a[0]);
        lemma_escape_char_shape(b[0]);
        let e = json_escape(a);
        let ca = json_escape_char(a[0]);
        let cb = json_escape_char(b[0]);
        assert(e[0] == ca[0] && e[0] == cb[0]);
        if ca[0] == '\\' {
            assert(e[1] == ca[1] && e[1] == cb[1]);
        }
        assert(ca.len() == cb.len());
        assert(ca =~= e.subrange(0, ca.len() as int));
        assert(cb =~= e.subrange(0, cb.len() as int));
        lemma_escape_char_injective(a[0], b[0]);
        assert(json_escape(a.drop_first()) =~= e.subrange(ca.len() as int, e.len() as int));
        assert(json_escape(b.drop_first()) =~= e.subrange(cb.len() as int, e.len() as int));
        lemma_json_escape_injective(a.drop_first(), b.drop_first());
        assert(a =~= seq![a[0]] + a.drop_first());
        assert(b =~= seq![b[0]] + b.drop_first());
    }
}

/// Different texts have different JSON string literals.
pub proof fn lemma_json_string_injective(a: Seq<char>, b: Seq<char>)
    requires
        json_string(a) == json_string(b),
    ensures
        a == b,
{
    let n = json_string(a).len();
    assert(json_escape(a) =~= json_string(a).subrange(1, n - 1));
    assert(json_escape(b) =~= json_string(b).subrange(1, n - 1));
    lemma_json_escape_injective(a, b);
}

/// A JSON string literal ends at its closing quote: where two literals each
/// followed by some text make the same text, the literals and the texts after
/// them are the same.
pub proof fn lemma_json_escape_prefix_free(a: Seq<char>, b: Seq<char>, r1: Seq<char>, r2: Seq<char>)
    requires
        json_escape(a) + seq!['"'] + r1 == json_escape(b) + seq!['"'] + r2,
    ensures
        a == b,
        r1 == r2,
    decreases a.len() + b.len(),
{
    let e = json_escape(a) + seq!['"'] + r1;
    if a.len() == 0 && b.len() == 0 {
        assert(r1 =~= e.subrange(1, e.len() as int));
        assert(r2 =~= e.subrange(1, e.len() as int));
        assert(a =~= b);
    } else if a.len() == 0 {
        lemma_json_escape_front(b);
        lemma_escape_char_shape(b[0]);
        assert(e[0] == '"');
        assert(e[0] == json_escape_char(b[0])[0]);
    } else if b.len() == 0 {
        lemma_json_escape_front(a);
        lemma_escape_char_shape(a[0]);
        assert(e[0] == '"');
        assert(e[0] == json_escape_char(a[0])[0]);
    } else {
        lemma_json_escape_front(a);
        lemma_json_escape_front(b);
        lemma_escape_char_shape(a[0]);
        lemma_escape_char_shape(b[0]);
        let ca = json_escape_char(a[0]);
        let cb = json_escape_char(b[0]);
        let ta = json_escape(a.drop_first()) + seq!['"'] + r1;
        let tb = json_escape(b.drop_first()) + seq!['"'] + r2;
        assert(e =~= ca + ta);
        assert(e =~= cb + tb);
        assert(e[0] == ca[0] && e[0] == cb[0]);
        if ca[0] == '\\' {
            assert(e[1] == ca[1] && e[1] == cb[1]);
        }
        assert(ca.len() == cb.len());
        assert(ca =~= e.subrange(0, ca.len() as int));
        assert(cb =~= e.subrange(0, cb.len() as int));
        lemma_escape_char_injective(a[0], b[0]);
        assert(ta =~= e.subrange(ca.len() as int, e.len() as int));
        assert(tb =~= e.subrange(cb.len() as int, e.len() as int));
        lemma_json_escape_prefix_free(a.drop_first(), b.drop_first(), r1, r2);
        assert(a =~= seq![a[0]] + a.drop_first());
        assert(b =~= seq![b[0]] + b.drop_first());
    }
}

/// A JSON string literal followed by some text determines both.
pub proof fn lemma_json_string_prefix_free(a: Seq<char>, b: Seq<char>, r1: Seq<char>, r2: Seq<char>)
    requires
        json_string(a) + r1 == json_string(b) + r2,
    ensures
        a == b,
        r1 == r2,
{
    let e = json_string(a) + r1;
    assert(json_escape(a) + seq!['"'] + r1 =~= e.subrange(1, e.len() as int));
    assert(json_escape(b) + seq!['"'] + r2 =~= e.subrange(1, e.len() as int));
    lemma_json_escape_prefix_free(a, b, r1, r2);
}

/// A character that is neither a quote, nor a backslash, nor a control
/// character below U+0020 is written as itself.
pub proof fn lemma_plain_char_unescaped(c: char)
    requires
        c != '"',
        c != '\\',
        (c as int) >= 32,
    ensures
        json_escape_char(c) == seq![c],
{
}

/// A text without quotes, backslashes or control characters is written as
/// itself inside a JSON string literal.
pub proof fn lemma_plain_text_unescaped(s: Seq<char>)
    requires
        forall|i: int| 0 <= i < s.len() ==> #[trigger] s[i] != '"' && s[i] != '\\' && (s[i] as int) >= 32,
    ensures
        json_escape(s) == s,
    decreases s.len(),
{
    if s.len() > 0 {
        lemma_plain_text_unescaped(s.drop_last());
        lemma_plain_char_unescaped(s.last());
        assert(json_escape(s) =~= s);
    }
}

/// The value of a hex digit as written by serde_json and impl-serde: `0`-`9`
/// and lowercase `a`-`f`; `None` for any other character.
pub open spec fn hex_value(c: char) -> Option<int> {
    if '0' <= c && c <= '9' {
        Some((c as int) - 48)
    } else if 'a' <= c && c <= 'f' {
        Some((c as int) - 87)
    } else {
        None
    }
}

/// What a two-character escape `\x` stands for in JSON.
pub open spec fn short_escape(c: char) -> Option<char> {
    if c == '"' {
        Some('"')
    } else if c == '\\' {
        Some('\\')
    } else if c == '/' {
        Some('/')
    } else if c == 'b' {
        Some('\x08')
    } else if c == 'f' {
        Some('\x0c')
    } else if c == 'n' {
        Some('\n')
    } else if c == 'r' {
        Some('\r')
    } else if c == 't' {
        Some('\t')
    } else {
        None
    }
}

/// Prepends a character to a decoded rest, where the rest decoded.
pub open spec fn prepend(c: char, rest: Option<Seq<char>>) -> Option<Seq<char>> {
    match rest {
        Some(r) => Some(seq![c] + r),
        None => None,
    }
}

/// Reads the body of a JSON string literal back into its text, by the rules
/// of JSON (RFC 8259, section 7): any character but a quote, a backslash or a
/// control character stands for itself; `\` followed by one of `" \\ / b f
/// n r t` stands for the character it names; `\u` with four hex digits
/// (lowercase, as serde_json writes them) for the character of that code
/// below U+D800. `None` where the body is not well formed.
pub open spec fn json_unescape(e: Seq<char>) -> Option<Seq<char>>
    decreases e.len(),
{
    if e.len() == 0 {
        Some(Seq::empty())
    } else if e[0] != '\\' {
        if e[0] == '"' || (e[0] as int) < 32 {
            None
        } else {
            prepend(e[0], json_unescape(e.drop_first()))
        }
    } else if e.len() >= 2 && short_escape(e[1]) is Some {
        prepend(short_escape(e[1])->0, json_unescape(e.subrange(2, e.len() as int)))
    } else if e.len() >= 6 && e[1] == 'u' && hex_value(e[2]) is Some && hex_value(e[3]) is Some
        && hex_value(e[4]) is Some && hex_value(e[5]) is Some && hex_value(e[2])->0 * 4096
        + hex_value(e[3])->0 * 256 + hex_value(e[4])->0 * 16 + hex_value(e[5])->0 < 0xD800 {
        prepend(
            (hex_value(e[2])->0 * 4096 + hex_value(e[3])->0 * 256 + hex_value(e[4])->0 * 16 + hex_value(
                e[5],
            )->0) as char,
            json_unescape(e.subrange(6, e.len() as int)),
        )
    } else {
        None
    }
}

/// Every hex digit written has the value it stands for.
pub proof fn lemma_hex_digit_value(n: int)
    requires
        0 <= n < 16,
    ensures
        hex_value(hex_digit(n)) == Some(n),
{
}

proof fn lemma_unescape_code(c: char, t: Seq<char>)
    ensures
        json_unescape(json_escape_char(c) + t) == prepend(c, json_unescape(t)),
{
    let k = json_escape_char(c);
    let e = k + t;
    lemma_escape_char_shape(c);
    if k.len() == 1 {
        assert(e.drop_first() =~= t);
    } else if k.len() == 2 {
        assert(e.subrange(2, e.len() as int) =~= t);
    } else {
        let n = c as int;
        assert(n < 32);
        assert(e.subrange(6, e.len() as int) =~= t);
        lemma_hex_digit_value(n / 16);
        lemma_hex_digit_value(n % 16);
        assert(e[2] == '0' && e[3] == '0');
        assert(e[4] == hex_digit(n / 16) && e[5] == hex_digit(n % 16));
        assert((n / 16) * 16 + n % 16 == n);
        assert(0 * 4096 + 0 * 256 + (n / 16) * 16 + n % 16 == n);
        assert((n as char) == c);
    }
}

/// The escape is read back by JSON's rules to the very text: serde_json's
/// string literals stand for the text they were written from.
pub proof fn lemma_json_escape_reads_back(s: Seq<char>)
    ensures
        json_unescape(json_escape(s)) == Some(s),
    decreases s.len(),
{
    if s.len() > 0 {
        lemma_json_escape_front(s);
        lemma_json_escape_reads_back(s.drop_first());
        lemma_unescape_code(s[0], json_escape(s.drop_first()));
        assert(seq![s[0]] + s.drop_first() =~= s);
    }
}

} // verus!
