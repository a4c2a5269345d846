//! How a configuration text reads: the part of TOML that client configurations are
//! printed in.
//!
//! A text is made of empty lines, comments, section headers and settings, one to a
//! line. A setting is a bare key, an equals sign and a string, a number or a list
//! of strings.

use vstd::prelude::*;

use crate::basic_string::{self, read_string};
use crate::text;

verus! {

/// What a setting can be set to.
#[verifier::ext_equal]
pub enum Value {
    Text(Seq<char>),
    Number(nat),
    Texts(Seq<Seq<char>>),
}

/// A setting, with the header of the section it stands in.
#[verifier::ext_equal]
pub struct Entry {
    pub section: Seq<char>,
    pub key: Seq<char>,
    pub value: Value,
}

// ---------------------------------------------------------------------------
// Reading
// ---------------------------------------------------------------------------

/// Whether `c` can stand in a bare key.
pub open spec fn is_bare(c: char) -> bool {
    'A' <= c <= 'Z' || 'a' <= c <= 'z' || '0' <= c <= '9' || c == '_' || c == '-'
}

/// How many characters of a bare key `s` begins with.
pub open spec fn bare_prefix(s: Seq<char>) -> nat
    decreases s.len(),
{
    if s.len() > 0 && is_bare(s[0]) {
        1 + bare_prefix(s.skip(1))
    } else {
        0
    }
}

/// How many digits `s` begins with.
pub open spec fn digit_prefix(s: Seq<char>) -> nat
    decreases s.len(),
{
    if s.len() > 0 && text::is_digit(s[0]) {
        1 + digit_prefix(s.skip(1))
    } else {
        0
    }
}

/// The strings of a list whose opening bracket has just been passed, and what
/// follows its closing bracket.
pub open spec fn read_texts(s: Seq<char>) -> Option<(Seq<Seq<char>>, Seq<char>)>
    decreases s.len(),
{
    if s.len() == 0 {
        None
    } else if s[0] == ']' {
        Some((Seq::empty(), s.skip(1)))
    } else if s[0] == '"' {
        match read_string(s.skip(1)) {
            None => None,
            Some((first, after)) => if after.len() > 0 && after[0] == ']' {
                Some((seq![first], after.skip(1)))
            } else if 2 < after.len() < s.len() && after[0] == ',' && after[1] == ' ' {
                match read_texts(after.skip(2)) {
                    Some((others, rest)) => Some((seq![first] + others, rest)),
                    None => None,
                }
            } else {
                None
            },
        }
    } else {
        None
    }
}

/// The value that `s` begins with, and what follows it.
pub open spec fn read_value(s: Seq<char>) -> Option<(Value, Seq<char>)> {
    if s.len() == 0 {
        None
    } else if s[0] == '"' {
        match read_string(s.skip(1)) {
            Some((value, rest)) => Some((Value::Text(value), rest)),
            None => None,
        }
    } else if s[0] == '[' {
        match read_texts(s.skip(1)) {
            Some((values, rest)) => Some((Value::Texts(values), rest)),
            None => None,
        }
    } else {
        let n = digit_prefix(s);
        if n == 0 || (n > 1 && s[0] == '0') {
            None
        } else {
            Some((Value::Number(text::digits_value(s.take(n as int))), s.skip(n as int)))
        }
    }
}

/// The setting on the line that `s` begins with, and what follows the line.
pub open spec fn read_setting(s: Seq<char>) -> Option<(Seq<char>, Value, Seq<char>)> {
    let n = bare_prefix(s);
    let after_key = s.skip(n as int);
    if n > 0 && text::has_prefix(after_key, seq![' ', '=', ' ']) {
        match read_value(after_key.skip(3)) {
            Some((value, rest)) => if rest.len() > 0 && rest[0] == '\n' {
                Some((s.take(n as int), value, rest.skip(1)))
            } else {
                None
            },
            None => None,
        }
    } else {
        None
    }
}

/// The line that `s` begins with, without its end.
pub open spec fn line_of(s: Seq<char>) -> Seq<char> {
    s.take(text::index_of(s, '\n') as int)
}

/// What follows the line that `s` begins with.
pub open spec fn after_line(s: Seq<char>) -> Seq<char> {
    s.skip(vstd::math::min(text::index_of(s, '\n') as int + 1, s.len() as int))
}

/// The settings in a text, in order, where `section` is the header of the section
/// that the text begins in. `None` means that the text is malformed.
#[verifier::opaque]
pub open spec fn read(s: Seq<char>, section: Seq<char>) -> Option<Seq<Entry>>
    decreases s.len(),
{
    if s.len() == 0 {
        Some(Seq::empty())
    } else if s[0] == '\n' {
        read(s.skip(1), section)
    } else if s[0] == '#' {
        read(after_line(s), section)
    } else if s[0] == '[' {
        let header = line_of(s);
        if header.len() > 0 && header.last() == ']' {
            read(after_line(s), header)
        } else {
            None
        }
    } else {
        match read_setting(s) {
            Some((key, value, rest)) => if rest.len() < s.len() {
                following(seq![Entry { section, key, value }], read(rest, section))
            } else {
                None
            },
            None => None,
        }
    }
}

/// Whether the key of a section is set, and to this value wherever it is set.
pub open spec fn set_to(
    entries: Seq<Entry>,
    section: Seq<char>,
    key: Seq<char>,
    value: Value,
) -> bool {
    &&& exists|k: int|
        0 <= k < entries.len() && (#[trigger] entries[k]).section == section && entries[k].key
            == key && entries[k].value == value
    &&& forall|k: int|
        0 <= k < entries.len() && (#[trigger] entries[k]).section == section && entries[k].key
            == key ==> entries[k].value == value
}

/// Whether nothing is set in a section.
pub open spec fn unset(entries: Seq<Entry>, section: Seq<char>) -> bool {
    forall|k: int| 0 <= k < entries.len() ==> (#[trigger] entries[k]).section != section
}

/// What is set in two parts, to one value wherever it is set, is set in the whole.
pub proof fn settings_add_up(
    a: Seq<Entry>,
    b: Seq<Entry>,
    section: Seq<char>,
    key: Seq<char>,
    value: Value,
)
    ensures
        unset(a, section) && unset(b, section) ==> unset(a + b, section),
        set_to(a, section, key, value) && (unset(b, section) || set_to(b, section, key, value))
            ==> set_to(a + b, section, key, value),
        unset(a, section) && set_to(b, section, key, value) ==> set_to(
            a + b,
            section,
            key,
            value,
        ),
{
    let all = a + b;
    assert forall|k: int| 0 <= k < all.len() implies #[trigger] all[k] == (if k < a.len() {
        a[k]
    } else {
        b[k - a.len()]
    }) by {}
    if set_to(a, section, key, value) {
        let k = choose|k: int|
            0 <= k < a.len() && (#[trigger] a[k]).section == section && a[k].key == key
                && a[k].value == value;
        assert(all[k] == a[k]);
    }
    if set_to(b, section, key, value) {
        let k = choose|k: int|
            0 <= k < b.len() && (#[trigger] b[k]).section == section && b[k].key == key
                && b[k].value == value;
        assert(all[k + a.len()] == b[k]);
    }
}

/// `entries` and, behind them, what the rest of the text says.
pub open spec fn following(entries: Seq<Entry>, rest: Option<Seq<Entry>>) -> Option<Seq<Entry>> {
    match rest {
        Some(others) => Some(entries + others),
        None => None,
    }
}

// ---------------------------------------------------------------------------
// What is printed reads back
// ---------------------------------------------------------------------------

/// Whether the first `n` characters of `s` are all of a kind.
pub open spec fn all_upto(s: Seq<char>, n: nat, kind: spec_fn(char) -> bool) -> bool
    decreases n,
{
    n == 0 || (kind(s[n - 1]) && all_upto(s, (n - 1) as nat, kind))
}

/// `all_upto` is about each of the characters.
pub proof fn lemma_all_upto(s: Seq<char>, n: nat, kind: spec_fn(char) -> bool)
    requires
        all_upto(s, n, kind),
    ensures
        forall|i: int| 0 <= i < n ==> kind(#[trigger] s[i]),
    decreases n,
{
    if n > 0 {
        lemma_all_upto(s, (n - 1) as nat, kind);
    }
}

/// Whether `c` can stand within a line.
pub open spec fn in_line(c: char) -> bool {
    c != '\n'
}

/// Whether `key` is a bare key.
pub open spec fn bare_key(key: Seq<char>) -> bool {
    key.len() > 0 && all_upto(key, key.len(), |c: char| is_bare(c))
}

/// Whether `line` is a comment, with the end of the line.
pub open spec fn comment(line: Seq<char>) -> bool {
    &&& line.len() > 1
    &&& line[0] == '#'
    &&& line.last() == '\n'
    &&& all_upto(line, (line.len() - 1) as nat, |c: char| in_line(c))
}

/// Whether `line` is a section header.
pub open spec fn header(line: Seq<char>) -> bool {
    &&& line.len() > 1
    &&& line[0] == '['
    &&& line.last() == ']'
    &&& all_upto(line, line.len(), |c: char| in_line(c))
}

/// An empty text says nothing.
pub proof fn lemma_empty(section: Seq<char>)
    ensures
        read(Seq::empty(), section) == Some(Seq::<Entry>::empty()),
{
    reveal(read);
}

/// An empty line says nothing.
pub proof fn lemma_empty_line(rest: Seq<char>, section: Seq<char>)
    ensures
        read(seq!['\n'] + rest, section) == read(rest, section),
{
    reveal(read);
    assert((seq!['\n'] + rest).skip(1) =~= rest);
}

/// A comment says nothing.
pub proof fn lemma_comment(line: Seq<char>, rest: Seq<char>, section: Seq<char>)
    requires
        comment(line),
    ensures
        read(line + rest, section) == read(rest, section),
{
    reveal(read);
    let s = line + rest;
    let n = line.len() - 1;
    lemma_all_upto(line, n as nat, |c: char| in_line(c));
    assert forall|k: int| 0 <= k < n implies s[k] != '\n' by {
        assert(s[k] == line[k]);
        assert((|c: char| in_line(c))(line[k]));
    }
    text::lemma_index_of_unique(s, '\n', n);
    assert(after_line(s) =~= rest);
}

/// A header opens its section.
pub proof fn lemma_header(line: Seq<char>, rest: Seq<char>, section: Seq<char>)
    requires
        header(line),
    ensures
        read(line + seq!['\n'] + rest, section) == read(rest, line),
{
    reveal(read);
    let s = line + seq!['\n'] + rest;
    let n = line.len() as int;
    lemma_all_upto(line, line.len(), |c: char| in_line(c));
    assert forall|k: int| 0 <= k < n implies s[k] != '\n' by {
        assert(s[k] == line[k]);
        assert((|c: char| in_line(c))(line[k]));
    }
    text::lemma_index_of_unique(s, '\n', n);
    assert(line_of(s) =~= line);
    assert(after_line(s) =~= rest);
}

proof fn lemma_bare_prefix(key: Seq<char>, rest: Seq<char>)
    requires
        forall|i: int| 0 <= i < key.len() ==> is_bare(#[trigger] key[i]),
        rest.len() == 0 || !is_bare(rest[0]),
    ensures
        bare_prefix(key + rest) == key.len(),
    decreases key.len(),
{
    if key.len() > 0 {
        assert(is_bare(key[0]));
        assert forall|i: int| 0 <= i < key.skip(1).len() implies is_bare(
            #[trigger] key.skip(1)[i],
        ) by {
            assert(key.skip(1)[i] == key[i + 1]);
        }
        lemma_bare_prefix(key.skip(1), rest);
        assert((key + rest).skip(1) =~= key.skip(1) + rest);
    } else {
        assert(key + rest =~= rest);
    }
}

proof fn lemma_read_setting(key: Seq<char>, written: Seq<char>, value: Value, rest: Seq<char>)
    requires
        bare_key(key),
        read_value(written + seq!['\n'] + rest) == Some((value, seq!['\n'] + rest)),
    ensures
        ({
            let s = key + seq![' ', '=', ' '] + written + seq!['\n'] + rest;
            &&& read_setting(s) == Some((key, value, rest))
            &&& is_bare(s[0])
            &&& rest.len() < s.len()
        }),
{
    let equals = seq![' ', '=', ' '];
    let tail = equals + written + seq!['\n'] + rest;
    let s = key + equals + written + seq!['\n'] + rest;
    assert(s =~= key + tail);
    lemma_all_upto(key, key.len(), |c: char| is_bare(c));
    assert forall|i: int| 0 <= i < key.len() implies is_bare(#[trigger] key[i]) by {
        assert((|c: char| is_bare(c))(key[i]));
    }
    assert(tail[0] == ' ');
    lemma_bare_prefix(key, tail);
    assert(is_bare(key[0]));
    assert(s[0] == key[0]);
    let n = key.len() as int;
    assert(s.skip(n) =~= tail);
    assert(s.take(n) =~= key);
    assert(tail.take(3) =~= equals);
    assert(tail.skip(3) =~= written + seq!['\n'] + rest);
    assert((seq!['\n'] + rest).skip(1) =~= rest);
}

/// A setting says what its value says.
pub proof fn lemma_setting(
    key: Seq<char>,
    written: Seq<char>,
    value: Value,
    rest: Seq<char>,
    section: Seq<char>,
)
    requires
        bare_key(key),
        read_value(written + seq!['\n'] + rest) == Some((value, seq!['\n'] + rest)),
    ensures
        read(key + seq![' ', '=', ' '] + written + seq!['\n'] + rest, section) == following(
            seq![Entry { section, key, value }],
            read(rest, section),
        ),
{
    reveal(read);
    lemma_read_setting(key, written, value, rest);
}

/// A string between quotes is a value.
pub proof fn lemma_text_value(value: Seq<char>, rest: Seq<char>)
    ensures
        read_value(seq!['"'] + basic_string::escaped(value) + seq!['"'] + rest) == Some(
            (Value::Text(value), rest),
        ),
{
    reveal_strlit("\"");
    let s = seq!['"'] + basic_string::escaped(value) + seq!['"'] + rest;
    assert(s.skip(1) =~= basic_string::escaped(value) + "\""@ + rest);
    basic_string::strings_read_back(value, rest);
}

proof fn lemma_decimal(n: nat)
    ensures
        text::decimal(n).len() > 0,
        text::all_digits(text::decimal(n)),
        text::digits_value(text::decimal(n)) == n,
        n > 0 ==> text::decimal(n)[0] != '0',
        n == 0 ==> text::decimal(n).len() == 1,
    decreases n,
{
    if n < 10 {
        let one = text::decimal(n);
        assert(one.drop_last() =~= Seq::empty());
        reveal_with_fuel(text::digits_value, 2);
    } else {
        lemma_decimal(n / 10);
        let front = text::decimal(n / 10);
        let all = text::decimal(n);
        assert(all.drop_last() =~= front);
        assert(all.last() == text::digit_char(n % 10));
        assert forall|k: int| 0 <= k < all.len() implies text::is_digit(#[trigger] all[k]) by {
            if k < front.len() {
                assert(text::is_digit(front[k]));
            }
        }
        assert(all[0] == front[0]);
    }
}

proof fn lemma_digit_prefix(digits: Seq<char>, rest: Seq<char>)
    requires
        text::all_digits(digits),
        rest.len() == 0 || !text::is_digit(rest[0]),
    ensures
        digit_prefix(digits + rest) == digits.len(),
    decreases digits.len(),
{
    if digits.len() > 0 {
        assert(text::is_digit(digits[0]));
        let tail = digits.skip(1);
        assert forall|k: int| 0 <= k < tail.len() implies text::is_digit(#[trigger] tail[k]) by {
            assert(text::is_digit(digits[k + 1]));
        }
        lemma_digit_prefix(tail, rest);
        assert((digits + rest).skip(1) =~= tail + rest);
    } else {
        assert(digits + rest =~= rest);
    }
}

/// A number in decimal is a value.
pub proof fn lemma_number_value(n: nat, rest: Seq<char>)
    requires
        rest.len() == 0 || !text::is_digit(rest[0]),
    ensures
        read_value(text::decimal(n) + rest) == Some((Value::Number(n), rest)),
{
    let digits = text::decimal(n);
    let s = digits + rest;
    lemma_decimal(n);
    lemma_digit_prefix(digits, rest);
    assert(text::is_digit(digits[0]));
    assert(s[0] == digits[0]);
    assert(s.take(digits.len() as int) =~= digits);
    assert(s.skip(digits.len() as int) =~= rest);
}

/// `parts`, each between quotes.
pub open spec fn between_quotes(parts: Seq<Seq<char>>) -> Seq<Seq<char>> {
    Seq::new(parts.len(), |i: int| seq!['"'] + parts[i] + seq!['"'])
}

proof fn lemma_joined_from_the_front(parts: Seq<Seq<char>>, sep: Seq<char>)
    requires
        parts.len() > 1,
    ensures
        text::joined(parts, sep) == parts[0] + sep + text::joined(parts.skip(1), sep),
    decreases parts.len(),
{
    let tail = parts.skip(1);
    reveal_with_fuel(text::joined, 2);
    if parts.len() == 2 {
        assert(parts.drop_last().len() == 1);
        assert(parts.drop_last()[0] == parts[0]);
        assert(tail[0] == parts[1]);
    } else {
        lemma_joined_from_the_front(parts.drop_last(), sep);
        assert(parts.drop_last().skip(1) =~= tail.drop_last());
        assert(tail.last() == parts.last());
        assert(text::joined(parts, sep) =~= parts[0] + sep + text::joined(tail, sep));
    }
}

#[verifier::spinoff_prover]
#[verifier::rlimit(60)]
proof fn lemma_texts(parts: Seq<Seq<char>>, rest: Seq<char>)
    requires
        forall|i: int|
            0 <= i < parts.len() ==> basic_string::escaped(#[trigger] parts[i]) == parts[i],
    ensures
        read_texts(text::joined(between_quotes(parts), seq![',', ' ']) + seq![']'] + rest) == Some(
            (parts, rest),
        ),
    decreases parts.len(),
{
    reveal_strlit("\"");
    let quoted = between_quotes(parts);
    let sep = seq![',', ' '];
    let s = text::joined(quoted, sep) + seq![']'] + rest;
    if parts.len() == 0 {
        assert(s.skip(1) =~= rest);
        assert(parts =~= Seq::empty());
    } else {
        let first = parts[0];
        assert(quoted[0] == seq!['"'] + first + seq!['"']);
        assert(basic_string::escaped(first) == first);
        if parts.len() == 1 {
            let after = seq![']'] + rest;
            assert(s.skip(1) =~= basic_string::escaped(first) + "\""@ + after);
            basic_string::strings_read_back(first, after);
            assert(after.skip(1) =~= rest);
            assert(seq![first] =~= parts);
        } else {
            let tail = parts.skip(1);
            assert(quoted.skip(1) =~= between_quotes(tail));
            lemma_joined_from_the_front(quoted, sep);
            let others = text::joined(between_quotes(tail), sep) + seq![']'] + rest;
            let after = sep + others;
            assert(s =~= quoted[0] + after);
            assert(s.skip(1) =~= basic_string::escaped(first) + "\""@ + after);
            basic_string::strings_read_back(first, after);
            assert(after.skip(2) =~= others);
            assert forall|i: int| 0 <= i < tail.len() implies basic_string::escaped(
                #[trigger] tail[i],
            ) == tail[i] by {
                assert(tail[i] == parts[i + 1]);
            }
            lemma_texts(tail, rest);
            assert(seq![first] + tail =~= parts);
        }
    }
}

/// A list of strings that need no escapes is a value.
pub proof fn lemma_texts_value(parts: Seq<Seq<char>>, rest: Seq<char>)
    requires
        forall|i: int|
            0 <= i < parts.len() ==> basic_string::escaped(#[trigger] parts[i]) == parts[i],
    ensures
        read_value(
            seq!['['] + text::joined(between_quotes(parts), seq![',', ' ']) + seq![']'] + rest,
        ) == Some((Value::Texts(parts), rest)),
{
    let list = text::joined(between_quotes(parts), seq![',', ' ']) + seq![']'] + rest;
    let s = seq!['['] + text::joined(between_quotes(parts), seq![',', ' ']) + seq![']'] + rest;
    assert(s.skip(1) =~= list);
    lemma_texts(parts, rest);
}

} // verus!
