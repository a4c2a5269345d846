//! TOML basic strings: how any text is written between double quotes, and how what
//! was written reads back.

use vstd::prelude::*;

use crate::text::{self, append_hex, to_chars};

verus! {

/// Whether `c` is a control character, which a basic string cannot hold as it is.
pub open spec fn is_control(c: char) -> bool {
    c as int <= 0x1F || c as int == 0x7F
}

// ---------------------------------------------------------------------------
// Writing
// ---------------------------------------------------------------------------

/// How a character is written between the quotes.
pub open spec fn escape(c: char) -> Seq<char> {
    if c == '"' {
        seq!['\\', '"']
    } else if c == '\\' {
        seq!['\\', '\\']
    } else if c == '\n' {
        seq!['\\', 'n']
    } else if c == '\r' {
        seq!['\\', 'r']
    } else if c == '\t' {
        seq!['\\', 't']
    } else if is_control(c) {
        seq!['\\', 'u', '0', '0'] + text::hex(seq![c as u8])
    } else {
        seq![c]
    }
}

/// How `s` is written between the quotes.
pub open spec fn escaped(s: Seq<char>) -> Seq<char>
    decreases s.len(),
{
    if s.len() == 0 {
        Seq::empty()
    } else {
        escape(s[0]) + escaped(s.skip(1))
    }
}

/// Every character is written by itself but for quotes, backslashes and control
/// characters, which are written with a backslash: the usual ones with one letter,
/// the others by their number.
pub proof fn only_special_characters_are_escaped(c: char)
    ensures
        ({
            let n = c as int;
            let special = c == '"' || c == '\\' || n < 0x20 || n == 0x7F;
            &&& !special ==> escape(c) == seq![c]
            &&& special ==> escape(c).len() >= 2 && escape(c)[0] == '\\'
            &&& c == '"' || c == '\\' ==> escape(c) == seq!['\\', c]
            &&& c == '\n' || c == '\r' || c == '\t' ==> escape(c).len() == 2 && escape(c)[1] == (
            if c == '\n' {
                'n'
            } else if c == '\r' {
                'r'
            } else {
                't'
            })
            &&& (n < 0x20 || n == 0x7F) && c != '\n' && c != '\r' && c != '\t' ==> {
                &&& escape(c).len() == 6
                &&& escape(c).take(4) == seq!['\\', 'u', '0', '0']
                &&& escape(c)[4] == "0123456789abcdef"@[n / 16]
                &&& escape(c)[5] == "0123456789abcdef"@[n % 16]
            }
        }),
{
    let n = c as int;
    if (n < 0x20 || n == 0x7F) && c != '\n' && c != '\r' && c != '\t' {
        let one = seq![c as u8];
        text::hex_spells_every_byte(one);
        assert(one[0] == n);
        assert(text::hex(one)[0] == "0123456789abcdef"@[n / 16]);
        assert(escape(c).take(4) =~= seq!['\\', 'u', '0', '0']);
    }
}

/// Texts are escaped character by character, in order.
pub proof fn escapes_follow_each_other(a: Seq<char>, b: Seq<char>)
    ensures
        escaped(a + b) == escaped(a) + escaped(b),
        a.len() == 1 ==> escaped(a) == escape(a[0]),
    decreases a.len(),
{
    if a.len() > 0 {
        escapes_follow_each_other(a.skip(1), b);
        assert((a + b).skip(1) =~= a.skip(1) + b);
        assert(escaped(a + b) =~= escaped(a) + escaped(b));
        if a.len() == 1 {
            assert(escaped(a.skip(1)) =~= Seq::empty());
            assert(escaped(a) =~= escape(a[0]));
        }
    } else {
        assert(a + b =~= b);
        assert(escaped(a + b) =~= escaped(a) + escaped(b));
    }
}

fn append_escape(out: &mut String, c: char)
    ensures
        final(out)@ == old(out)@ + escape(c),
{
    let ghost before = out@;
    let u: u32 = c as u32;
    if c == '"' {
        out.push('\\');
        out.push('"');
    } else if c == '\\' {
        out.push('\\');
        out.push('\\');
    } else if c == '\n' {
        out.push('\\');
        out.push('n');
    } else if c == '\r' {
        out.push('\\');
        out.push('r');
    } else if c == '\t' {
        out.push('\\');
        out.push('t');
    } else if u <= 0x1F || u == 0x7F {
        out.push('\\');
        out.push('u');
        out.push('0');
        out.push('0');
        let byte: [u8; 1] = [u as u8];
        assert(byte@ =~= seq![c as u8]);
        append_hex(out, byte.as_slice());
    } else {
        out.push(c);
    }
    assert(out@ =~= before + escape(c));
}

/// Appends `s` as it is written between the quotes of a basic string.
pub fn append_escaped(out: &mut String, s: &str)
    ensures
        final(out)@ == old(out)@ + escaped(s@),
{
    let ghost before = out@;
    let v = to_chars(s);
    let mut i: usize = 0;
    assert(v@.skip(0) =~= v@);
    while i < v.len()
        invariant
            i <= v@.len(),
            v@ == s@,
            before + escaped(v@) == out@ + escaped(v@.skip(i as int)),
        decreases v@.len() - i,
    {
        let ghost so_far = out@;
        let ghost left = v@.skip(i as int);
        assert(left.skip(1) =~= v@.skip(i + 1));
        append_escape(out, v[i]);
        assert(so_far + (escape(left[0]) + escaped(left.skip(1))) =~= so_far + escape(left[0])
            + escaped(left.skip(1)));
        i += 1;
    }
    assert(out@ + escaped(v@.skip(i as int)) =~= out@);
}

// ---------------------------------------------------------------------------
// Reading
// ---------------------------------------------------------------------------

/// The value of a hexadecimal digit of either case.
pub open spec fn hex_digit_value(c: char) -> Option<nat> {
    if '0' <= c <= '9' {
        Some((c as int - 48) as nat)
    } else if 'a' <= c <= 'f' {
        Some((c as int - 87) as nat)
    } else if 'A' <= c <= 'F' {
        Some((c as int - 55) as nat)
    } else {
        None
    }
}

/// The number that hexadecimal digits spell.
pub open spec fn hex_value(s: Seq<char>) -> Option<nat>
    decreases s.len(),
{
    if s.len() == 0 {
        Some(0)
    } else {
        match (hex_value(s.drop_last()), hex_digit_value(s.last())) {
            (Some(high), Some(low)) => Some(high * 16 + low),
            _ => None,
        }
    }
}

/// The character with the number that `digits` spell, if there is one.
pub open spec fn char_numbered(digits: Seq<char>) -> Option<char> {
    match hex_value(digits) {
        Some(n) => if n <= 0xD7FF || 0xE000 <= n <= 0x10FFFF {
            Some(n as char)
        } else {
            None
        },
        None => None,
    }
}

/// The character that `s`, which is inside a basic string, begins with, and how
/// many characters it is written with.
pub open spec fn first_unit(s: Seq<char>) -> Option<(char, nat)> {
    if s.len() == 0 {
        None
    } else if s[0] != '\\' {
        if s[0] == '"' || (is_control(s[0]) && s[0] != '\t') {
            None
        } else {
            Some((s[0], 1))
        }
    } else if s.len() == 1 {
        None
    } else if s[1] == 'b' {
        Some(('\u{8}', 2))
    } else if s[1] == 't' {
        Some(('\t', 2))
    } else if s[1] == 'n' {
        Some(('\n', 2))
    } else if s[1] == 'f' {
        Some(('\u{c}', 2))
    } else if s[1] == 'r' {
        Some(('\r', 2))
    } else if s[1] == '"' {
        Some(('"', 2))
    } else if s[1] == '\\' {
        Some(('\\', 2))
    } else if s[1] == 'u' && s.len() >= 6 {
        match char_numbered(s.subrange(2, 6)) {
            Some(c) => Some((c, 6)),
            None => None,
        }
    } else if s[1] == 'U' && s.len() >= 10 {
        match char_numbered(s.subrange(2, 10)) {
            Some(c) => Some((c, 10)),
            None => None,
        }
    } else {
        None
    }
}

/// What a basic string says whose opening quote has just been passed, and what
/// follows its closing quote. `None` means that it is malformed.
pub open spec fn read_string(s: Seq<char>) -> Option<(Seq<char>, Seq<char>)>
    decreases s.len(),
{
    if s.len() == 0 {
        None
    } else if s[0] == '"' {
        Some((Seq::empty(), s.skip(1)))
    } else {
        match first_unit(s) {
            None => None,
            Some((c, n)) => if 0 < n <= s.len() {
                match read_string(s.skip(n as int)) {
                    Some((value, rest)) => Some((seq![c] + value, rest)),
                    None => None,
                }
            } else {
                None
            },
        }
    }
}

proof fn lemma_escape_reads_back(c: char, rest: Seq<char>)
    ensures
        first_unit(escape(c) + rest) == Some((c, escape(c).len())),
        escape(c).len() > 0,
        escape(c)[0] != '"',
{
    let s = escape(c) + rest;
    if is_control(c) && c != '\n' && c != '\r' && c != '\t' {
        let b = c as u8;
        let one = seq![b];
        assert(one.drop_last() =~= Seq::empty());
        assert(text::hex(one.drop_last()) =~= Seq::empty());
        let h = text::hex_char((b / 16) as nat);
        let l = text::hex_char((b % 16) as nat);
        assert(text::hex(one) =~= seq![h, l]);
        let digits = s.subrange(2, 6);
        assert(digits =~= seq!['0', '0', h, l]);
        assert(digits.drop_last() =~= seq!['0', '0', h]);
        assert(digits.drop_last().drop_last() =~= seq!['0', '0']);
        assert(digits.drop_last().drop_last().drop_last() =~= seq!['0']);
        assert(digits.drop_last().drop_last().drop_last().drop_last() =~= Seq::empty());
        reveal_with_fuel(hex_value, 5);
        assert(hex_digit_value(h) == Some((b / 16) as nat));
        assert(hex_digit_value(l) == Some((b % 16) as nat));
        assert(hex_value(digits) == Some(b as nat));
        assert(char_numbered(digits) == Some(c));
    }
}

/// Whatever a text holds, what is written of it reads back as the text, and reading
/// ends at the closing quote.
pub proof fn strings_read_back(value: Seq<char>, rest: Seq<char>)
    ensures
        read_string(escaped(value) + "\""@ + rest) == Some((value, rest)),
    decreases value.len(),
{
    reveal_strlit("\"");
    let s = escaped(value) + "\""@ + rest;
    if value.len() == 0 {
        assert(s.skip(1) =~= rest);
        assert(value =~= Seq::empty());
    } else {
        let c = value[0];
        let tail = escaped(value.skip(1)) + "\""@ + rest;
        assert(s =~= escape(c) + tail);
        lemma_escape_reads_back(c, tail);
        assert(s.skip(escape(c).len() as int) =~= tail);
        strings_read_back(value.skip(1), rest);
        assert(seq![c] + value.skip(1) =~= value);
    }
}

/// Text without quotes, backslashes and control characters is written as it is.
pub proof fn plain_text_is_written_as_it_is(value: Seq<char>)
    requires
        forall|i: int|
            0 <= i < value.len() ==> (#[trigger] value[i]) != '"' && value[i] != '\\'
                && !is_control(value[i]),
    ensures
        escaped(value) == value,
    decreases value.len(),
{
    if value.len() > 0 {
        let tail = value.skip(1);
        assert forall|i: int| 0 <= i < tail.len() implies (#[trigger] tail[i]) != '"' && tail[i]
            != '\\' && !is_control(tail[i]) by {
            assert(tail[i] == value[i + 1]);
        }
        plain_text_is_written_as_it_is(tail);
        assert(value[0] != '"');
        assert(seq![value[0]] + tail =~= value);
    } else {
        assert(value =~= Seq::empty());
    }
}

/// What is written stands on one line: it holds no control character.
pub proof fn strings_stay_on_one_line(value: Seq<char>)
    ensures
        forall|i: int| 0 <= i < escaped(value).len() ==> !is_control(#[trigger] escaped(value)[i]),
    decreases value.len(),
{
    if value.len() > 0 {
        strings_stay_on_one_line(value.skip(1));
        let c = value[0];
        if is_control(c) {
            let one = seq![c as u8];
            assert(one.drop_last() =~= Seq::empty());
            assert(text::hex(one.drop_last()) =~= Seq::empty());
            assert(text::hex(one).len() == 2);
        }
        assert forall|i: int| 0 <= i < escape(c).len() implies !is_control(
            #[trigger] escape(c)[i],
        ) by {
        }
        assert forall|i: int| 0 <= i < escaped(value).len() implies !is_control(
            #[trigger] escaped(value)[i],
        ) by {
            if i < escape(c).len() {
                assert(escaped(value)[i] == escape(c)[i]);
            } else {
                assert(escaped(value)[i] == escaped(value.skip(1))[i - escape(c).len()]);
            }
        }
    }
}

} // verus!
