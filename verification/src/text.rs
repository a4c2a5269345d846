//! Text primitives shared by the configuration, rendering and identity code.
//!
//! Strings are modelled by the sequence of their characters, so everything here
//! is stated over `Seq<char>`.

use vstd::prelude::*;
use vstd::utf8::*;

verus! {

/// Appends one character: `String::push`.
///
/// Claims that the string afterwards is the string before with `c` behind it.
pub assume_specification[ String::push ](s: &mut String, c: char)
    ensures
        final(s)@ == old(s)@.push(c),
;

/// The text `format!("{s:?}")` gives: `s` in double quotes, with the escapes of
/// `str`'s `Debug` formatting.
pub uninterp spec fn quoted_text(s: Seq<char>) -> Seq<char>;

/// Formats `s` with `str`'s `Debug` implementation.
///
/// Claims only that the text depends on the characters of `s` alone; which
/// characters are escaped, and how, is left to std.
#[verifier::external_body]
pub(crate) fn quoted(s: &str) -> (r: String)
    ensures
        r@ == quoted_text(s@),
{
    format!("{s:?}")
}

/// The characters of `s` as a vector.
pub fn to_chars(s: &str) -> (r: Vec<char>)
    ensures
        r@ == s@,
{
    let mut r: Vec<char> = Vec::new();
    for c in it: s.chars()
        invariant
            it.seq() == s@,
            r@ == it.seq().take(it.index() as int),
    {
        r.push(c);
    }
    r
}

/// Whether two strings hold the same characters.
pub fn same_text(a: &str, b: &str) -> (r: bool)
    ensures
        r == (a@ == b@),
{
    let x = a.as_bytes();
    let y = b.as_bytes();
    proof {
        encode_utf8_decode_utf8(a@);
        encode_utf8_decode_utf8(b@);
    }
    if x.len() != y.len() {
        return false;
    }
    let mut i: usize = 0;
    while i < x.len()
        invariant
            i <= x@.len(),
            x@.len() == y@.len(),
            x@ == encode_utf8(a@),
            y@ == encode_utf8(b@),
            forall|k: int| 0 <= k < i ==> x@[k] == y@[k],
        decreases x@.len() - i,
    {
        if x[i] != y[i] {
            return false;
        }
        i += 1;
    }
    assert(x@ == y@);
    true
}

// ---------------------------------------------------------------------------
// Whitespace
// ---------------------------------------------------------------------------

/// The Unicode `White_Space` property.
pub open spec fn is_space(c: char) -> bool {
    let u = c as int;
    ||| 9 <= u <= 13
    ||| u == 0x20
    ||| u == 0x85
    ||| u == 0xA0
    ||| u == 0x1680
    ||| 0x2000 <= u <= 0x200A
    ||| u == 0x2028
    ||| u == 0x2029
    ||| u == 0x202F
    ||| u == 0x205F
    ||| u == 0x3000
}

/// `s` without its leading whitespace.
pub open spec fn trimmed_start(s: Seq<char>) -> Seq<char>
    decreases s.len(),
{
    if s.len() > 0 && is_space(s[0]) {
        trimmed_start(s.skip(1))
    } else {
        s
    }
}

/// `s` without its trailing whitespace.
pub open spec fn trimmed_end(s: Seq<char>) -> Seq<char>
    decreases s.len(),
{
    if s.len() > 0 && is_space(s.last()) {
        trimmed_end(s.drop_last())
    } else {
        s
    }
}

/// `s` without leading and trailing whitespace.
pub open spec fn trimmed(s: Seq<char>) -> Seq<char> {
    trimmed_end(trimmed_start(s))
}

/// Trimming cuts whitespace off both ends and nothing else: what is left is one
/// stretch of the text, all before and behind it is whitespace, and it neither
/// begins nor ends with any.
pub proof fn trimming_cuts_spaces_off_both_ends(s: Seq<char>)
    ensures
        exists|i: int, j: int|
            0 <= i <= j <= s.len() && trimmed(s) == #[trigger] s.subrange(i, j) && (forall|k: int|
                (0 <= k < i || j <= k < s.len()) ==> is_space(#[trigger] s[k])),
        trimmed(s).len() > 0 ==> !is_space(trimmed(s)[0]) && !is_space(trimmed(s).last()),
{
    let i = lemma_trimmed_start(s);
    let front = trimmed_start(s);
    let n = lemma_trimmed_end(front);
    assert(trimmed(s) =~= s.subrange(i, i + n));
    assert forall|k: int| (0 <= k < i || i + n <= k < s.len()) implies is_space(
        #[trigger] s[k],
    ) by {
        if k >= i {
            assert(front[k - i] == s[k]);
        }
    }
    if trimmed(s).len() > 0 {
        assert(trimmed(s)[0] == front[0]);
    }
}

/// What is made of whitespace alone trims to nothing, and nothing else does.
pub proof fn only_spaces_trim_to_nothing(s: Seq<char>)
    ensures
        trimmed(s).len() == 0 <==> forall|k: int| 0 <= k < s.len() ==> is_space(#[trigger] s[k]),
{
    let i = lemma_trimmed_start(s);
    let front = trimmed_start(s);
    let n = lemma_trimmed_end(front);
    if trimmed(s).len() > 0 {
        assert(front[0] == s[i]);
        assert(!is_space(s[i]));
    } else {
        assert forall|k: int| 0 <= k < s.len() implies is_space(#[trigger] s[k]) by {
            if k >= i {
                assert(front[k - i] == s[k]);
            }
        }
    }
}

proof fn lemma_trimmed_start(s: Seq<char>) -> (i: int)
    ensures
        0 <= i <= s.len(),
        trimmed_start(s) == s.skip(i),
        forall|k: int| 0 <= k < i ==> is_space(#[trigger] s[k]),
        i < s.len() ==> !is_space(s[i]),
    decreases s.len(),
{
    if s.len() > 0 && is_space(s[0]) {
        let j = lemma_trimmed_start(s.skip(1));
        assert(s.skip(1).skip(j) =~= s.skip(j + 1));
        assert forall|k: int| 0 <= k < j + 1 implies is_space(#[trigger] s[k]) by {
            if k > 0 {
                assert(s.skip(1)[k - 1] == s[k]);
            }
        }
        j + 1
    } else {
        assert(s.skip(0) =~= s);
        0
    }
}

proof fn lemma_trimmed_end(s: Seq<char>) -> (n: int)
    ensures
        0 <= n <= s.len(),
        trimmed_end(s) == s.take(n),
        forall|k: int| n <= k < s.len() ==> is_space(#[trigger] s[k]),
        n > 0 ==> !is_space(s[n - 1]),
    decreases s.len(),
{
    if s.len() > 0 && is_space(s.last()) {
        let n = lemma_trimmed_end(s.drop_last());
        assert(s.drop_last().take(n) =~= s.take(n));
        assert forall|k: int| n <= k < s.len() implies is_space(#[trigger] s[k]) by {
            if k < s.len() - 1 {
                assert(s.drop_last()[k] == s[k]);
            }
        }
        n
    } else {
        assert(s.take(s.len() as int) =~= s);
        s.len() as int
    }
}

/// Whether `c` is whitespace.
pub fn space(c: char) -> (r: bool)
    ensures
        r == is_space(c),
        r <==> c == '\t' || c == '\n' || c == '\u{b}' || c == '\u{c}' || c == '\r' || c == ' ' || c
            == '\u{85}' || c == '\u{a0}' || c == '\u{1680}' || '\u{2000}' <= c <= '\u{200a}' || c
            == '\u{2028}' || c == '\u{2029}' || c == '\u{202f}' || c == '\u{205f}' || c
            == '\u{3000}',
{
    let u: u32 = c as u32;
    (9 <= u && u <= 13) || u == 0x20 || u == 0x85 || u == 0xA0 || u == 0x1680 || (0x2000 <= u && u
        <= 0x200A) || u == 0x2028 || u == 0x2029 || u == 0x202F || u == 0x205F || u == 0x3000
}

/// `s` without leading and trailing whitespace.
pub fn trim(s: &str) -> (r: &str)
    ensures
        r@ == trimmed(s@),
{
    let v = to_chars(s);
    let mut i: usize = 0;
    assert(v@.skip(0) == v@);
    while i < v.len() && space(v[i])
        invariant
            i <= v@.len(),
            v@ == s@,
            trimmed_start(v@.skip(i as int)) == trimmed_start(v@),
        decreases v@.len() - i,
    {
        assert(v@.skip(i as int).skip(1) == v@.skip(i + 1));
        i += 1;
    }
    assert(trimmed_start(v@) == v@.skip(i as int));
    let mut j: usize = v.len();
    assert(v@.subrange(i as int, j as int) == v@.skip(i as int));
    while i < j && space(v[j - 1])
        invariant
            i <= j <= v@.len(),
            v@ == s@,
            trimmed_end(v@.subrange(i as int, j as int)) == trimmed(v@),
        decreases j - i,
    {
        assert(v@.subrange(i as int, j as int).drop_last() == v@.subrange(i as int, j - 1));
        j -= 1;
    }
    s.substring_char(i, j)
}

/// Whether nothing but whitespace is left in `s`.
pub fn blank(s: &str) -> (r: bool)
    ensures
        r == (trimmed(s@).len() == 0),
        r <==> forall|k: int| 0 <= k < s@.len() ==> is_space(#[trigger] s@[k]),
{
    proof {
        only_spaces_trim_to_nothing(s@);
    }
    trim(s).is_empty()
}

/// Text that begins with something else than whitespace is not blank.
pub proof fn lemma_not_blank(s: Seq<char>)
    requires
        s.len() > 0,
        !is_space(s[0]),
    ensures
        trimmed(s).len() > 0,
{
    lemma_end_keeps_start(s);
}

proof fn lemma_end_keeps_start(s: Seq<char>)
    requires
        s.len() > 0,
        !is_space(s[0]),
    ensures
        trimmed_end(s).len() > 0,
    decreases s.len(),
{
    if is_space(s.last()) {
        lemma_end_keeps_start(s.drop_last());
    }
}

// ---------------------------------------------------------------------------
// Pieces
// ---------------------------------------------------------------------------

/// Where `c` first stands in `s`, or `s.len()`.
pub open spec fn index_of(s: Seq<char>, c: char) -> nat
    decreases s.len(),
{
    if s.len() == 0 || s[0] == c {
        0
    } else {
        1 + index_of(s.skip(1), c)
    }
}

/// `index_of` is the first position that holds `c`.
pub proof fn lemma_index_of(s: Seq<char>, c: char)
    ensures
        index_of(s, c) <= s.len(),
        index_of(s, c) < s.len() ==> s[index_of(s, c) as int] == c,
        forall|k: int| 0 <= k < index_of(s, c) ==> s[k] != c,
        index_of(s, c) == s.len() <==> !s.contains(c),
    decreases s.len(),
{
    if s.len() > 0 && s[0] != c {
        let t = s.skip(1);
        lemma_index_of(t, c);
        assert forall|k: int| 0 <= k < index_of(s, c) implies s[k] != c by {
            if k > 0 {
                assert(t[k - 1] == s[k]);
            }
        }
        if s.contains(c) {
            let k = choose|k: int| 0 <= k < s.len() && s[k] == c;
            assert(t[k - 1] == c);
        }
        if t.contains(c) {
            let k = choose|k: int| 0 <= k < t.len() && t[k] == c;
            assert(s[k + 1] == c);
        }
    }
}

/// A position that holds `c`, with none before it, is `index_of`.
pub proof fn lemma_index_of_unique(s: Seq<char>, c: char, i: int)
    requires
        0 <= i <= s.len(),
        i < s.len() ==> s[i] == c,
        forall|k: int| 0 <= k < i ==> s[k] != c,
    ensures
        index_of(s, c) == i,
{
    lemma_index_of(s, c);
}

/// The first position of `c` in `v` at or after `from`, or `v.len()`.
pub(crate) fn find_char(v: &Vec<char>, from: usize, c: char) -> (r: usize)
    requires
        from <= v@.len(),
    ensures
        from <= r <= v@.len(),
        r == from + index_of(v@.skip(from as int), c),
{
    let mut i: usize = from;
    while i < v.len() && v[i] != c
        invariant
            from <= i <= v@.len(),
            forall|k: int| from <= k < i ==> v@[k] != c,
        decreases v@.len() - i,
    {
        i += 1;
    }
    proof {
        lemma_index_of_unique(v@.skip(from as int), c, i - from);
    }
    i
}

/// Whether `s` begins with `prefix`.
pub open spec fn has_prefix(s: Seq<char>, prefix: Seq<char>) -> bool {
    prefix.len() <= s.len() && s.take(prefix.len() as int) == prefix
}

/// A text begins with another exactly if it is as long and has each of its
/// characters in the same place.
pub proof fn prefixes_match_character_by_character(s: Seq<char>, prefix: Seq<char>)
    ensures
        has_prefix(s, prefix) <==> prefix.len() <= s.len() && forall|k: int|
            0 <= k < prefix.len() ==> s[k] == #[trigger] prefix[k],
{
    if has_prefix(s, prefix) {
        assert forall|k: int| 0 <= k < prefix.len() implies s[k] == #[trigger] prefix[k] by {
            assert(s.take(prefix.len() as int)[k] == s[k]);
        }
    }
    if prefix.len() <= s.len() && forall|k: int|
        0 <= k < prefix.len() ==> s[k] == #[trigger] prefix[k] {
        assert(s.take(prefix.len() as int) =~= prefix);
    }
}

/// Whether `s` begins with `prefix`.
pub fn starts_with(s: &str, prefix: &str) -> (r: bool)
    ensures
        r == has_prefix(s@, prefix@),
        r <==> prefix@.len() <= s@.len() && forall|k: int|
            0 <= k < prefix@.len() ==> s@[k] == #[trigger] prefix@[k],
{
    proof {
        prefixes_match_character_by_character(s@, prefix@);
    }
    let n = prefix.unicode_len();
    if s.unicode_len() < n {
        return false;
    }
    same_text(s.substring_char(0, n), prefix)
}

/// The texts of `parts`, with `sep` between each two.
pub open spec fn joined(parts: Seq<Seq<char>>, sep: Seq<char>) -> Seq<char>
    decreases parts.len(),
{
    if parts.len() == 0 {
        Seq::empty()
    } else if parts.len() == 1 {
        parts[0]
    } else {
        joined(parts.drop_last(), sep) + sep + parts.last()
    }
}

/// Joining two lists is joining each and putting the separator in between; a list
/// of one is that one, and an empty list is nothing.
pub proof fn joins_fit_together(a: Seq<Seq<char>>, b: Seq<Seq<char>>, sep: Seq<char>)
    ensures
        joined(Seq::empty(), sep) == Seq::<char>::empty(),
        a.len() == 1 ==> joined(a, sep) == a[0],
        a.len() > 0 && b.len() > 0 ==> joined(a + b, sep) == joined(a, sep) + sep + joined(b, sep),
    decreases b.len(),
{
    if a.len() > 0 && b.len() > 0 {
        let all = a + b;
        assert(all.last() == b.last());
        assert(all.drop_last() =~= a + b.drop_last());
        if b.len() == 1 {
            assert(a + b.drop_last() =~= a);
            assert(b.last() == b[0]);
        } else {
            joins_fit_together(a, b.drop_last(), sep);
            assert(joined(all, sep) =~= joined(a, sep) + sep + joined(b, sep));
        }
    }
}

/// The characters of each string.
pub open spec fn texts(parts: Seq<String>) -> Seq<Seq<char>> {
    Seq::new(parts.len(), |i: int| parts[i]@)
}

/// Concatenates `parts` with `sep` between each two.
pub fn join(parts: &Vec<String>, sep: &str) -> (r: String)
    ensures
        r@ == joined(texts(parts@), sep@),
{
    let mut out = String::new();
    let mut i: usize = 0;
    assert(texts(parts@).take(0) == Seq::<Seq<char>>::empty());
    while i < parts.len()
        invariant
            i <= parts@.len(),
            out@ == joined(texts(parts@).take(i as int), sep@),
        decreases parts@.len() - i,
    {
        let ghost done = texts(parts@).take(i as int);
        if i > 0 {
            out.append(sep);
        }
        out.append(parts[i].as_str());
        assert(texts(parts@).take(i + 1).drop_last() == done);
        assert(i == 0 ==> Seq::<char>::empty() + parts@[0]@ == parts@[0]@);
        i += 1;
    }
    assert(texts(parts@).take(i as int) == texts(parts@));
    out
}

// ---------------------------------------------------------------------------
// Repetitions
// ---------------------------------------------------------------------------

/// Whether what stands at `i` also stands further in front.
pub open spec fn repeats(names: Seq<Seq<char>>, i: int) -> bool {
    exists|j: int| 0 <= j < i && #[trigger] names[j] == names[i]
}

/// The first position at or after `from` whose text stands further in front too,
/// or `names.len()`.
pub open spec fn first_repeated_from(names: Seq<Seq<char>>, from: nat) -> nat
    decreases names.len() - from,
{
    if from >= names.len() || repeats(names, from as int) {
        from
    } else {
        first_repeated_from(names, from + 1)
    }
}

/// The first position whose text stands further in front too, or `names.len()`.
pub open spec fn first_repeated(names: Seq<Seq<char>>) -> nat {
    first_repeated_from(names, 0)
}

proof fn lemma_first_repeated_from(names: Seq<Seq<char>>, from: nat)
    requires
        from <= names.len(),
    ensures
        from <= first_repeated_from(names, from) <= names.len(),
        first_repeated_from(names, from) < names.len() ==> repeats(
            names,
            first_repeated_from(names, from) as int,
        ),
        forall|i: int| from <= i < first_repeated_from(names, from) ==> !#[trigger] repeats(
            names,
            i,
        ),
    decreases names.len() - from,
{
    if from < names.len() && !repeats(names, from as int) {
        lemma_first_repeated_from(names, from + 1);
    }
}

/// No position before `first_repeated` repeats one in front of it.
pub proof fn lemma_first_repeated(names: Seq<Seq<char>>)
    ensures
        first_repeated(names) <= names.len(),
        first_repeated(names) < names.len() ==> repeats(names, first_repeated(names) as int),
        forall|i: int| 0 <= i < first_repeated(names) ==> !#[trigger] repeats(names, i),
{
    lemma_first_repeated_from(names, 0);
}

/// The characters of each string.
pub open spec fn strs(parts: Seq<&str>) -> Seq<Seq<char>> {
    Seq::new(parts.len(), |i: int| parts[i]@)
}

/// The first position whose text stands further in front too, or `names.len()`.
pub fn first_repeat(names: &Vec<&str>) -> (r: usize)
    ensures
        r == first_repeated(strs(names@)),
        r <= names@.len(),
{
    let ghost all = strs(names@);
    let mut i: usize = 0;
    while i < names.len()
        invariant
            i <= names@.len(),
            all == strs(names@),
            first_repeated_from(all, i as nat) == first_repeated(all),
        decreases names@.len() - i,
    {
        let mut j: usize = 0;
        while j < i
            invariant
                j <= i < names@.len(),
                all == strs(names@),
                first_repeated_from(all, i as nat) == first_repeated(all),
                forall|k: int| 0 <= k < j ==> #[trigger] all[k] != all[i as int],
            decreases i - j,
        {
            if same_text(names[j], names[i]) {
                assert(all[j as int] == all[i as int]);
                return i;
            }
            j += 1;
        }
        i += 1;
    }
    i
}

// ---------------------------------------------------------------------------
// Numbers
// ---------------------------------------------------------------------------

/// The decimal digit for `d`.
pub open spec fn digit_char(d: nat) -> char {
    (48 + d) as char
}

/// `n` in decimal, without leading zeros.
pub open spec fn decimal(n: nat) -> Seq<char>
    decreases n,
{
    if n < 10 {
        seq![digit_char(n)]
    } else {
        decimal(n / 10).push(digit_char(n % 10))
    }
}

/// `n` in decimal.
pub fn number(n: u64) -> (r: String)
    ensures
        r@ == decimal(n as nat),
    decreases n,
{
    let last: u8 = (n % 10) as u8;
    let mut out = if n < 10 {
        String::new()
    } else {
        number(n / 10)
    };
    out.push((48u8 + last) as char);
    assert(n < 10 ==> out@ == seq![digit_char(n as nat)]);
    out
}

/// Whether `c` is an ASCII decimal digit.
pub open spec fn is_digit(c: char) -> bool {
    '0' <= c && c <= '9'
}

/// The number that the decimal digits `s` spell.
pub open spec fn digits_value(s: Seq<char>) -> nat
    decreases s.len(),
{
    if s.len() == 0 {
        0
    } else {
        digits_value(s.drop_last()) * 10 + (s.last() as nat - 48) as nat
    }
}

/// Whether every character is a decimal digit.
pub open spec fn all_digits(s: Seq<char>) -> bool {
    forall|k: int| 0 <= k < s.len() ==> is_digit(#[trigger] s[k])
}

/// `s` without a leading `+`.
pub open spec fn unsigned(s: Seq<char>) -> Seq<char> {
    if s.len() > 0 && s[0] == '+' {
        s.skip(1)
    } else {
        s
    }
}

/// The port number that `s` spells: an optional `+`, then at least one decimal
/// digit, with a value of at most 65535.
pub open spec fn port_of(s: Seq<char>) -> Option<u16> {
    let t = unsigned(s);
    if t.len() > 0 && all_digits(t) && digits_value(t) <= 65535 {
        Some(digits_value(t) as u16)
    } else {
        None
    }
}

/// A number in decimal is made of digits, begins with a zero only if it is zero,
/// and spells the number.
pub proof fn decimals_spell_their_number(n: nat)
    ensures
        decimal(n).len() > 0,
        all_digits(decimal(n)),
        digits_value(decimal(n)) == n,
        n > 0 ==> decimal(n)[0] != '0',
        n == 0 ==> decimal(n) == seq!['0'],
    decreases n,
{
    if n < 10 {
        let one = decimal(n);
        assert(one.drop_last() =~= Seq::empty());
        reveal_with_fuel(digits_value, 2);
        assert(n == 0 ==> one =~= seq!['0']);
    } else {
        decimals_spell_their_number(n / 10);
        let front = decimal(n / 10);
        let all = decimal(n);
        assert(all.drop_last() =~= front);
        assert(all.last() == digit_char(n % 10));
        assert forall|k: int| 0 <= k < all.len() implies is_digit(#[trigger] all[k]) by {
            if k < front.len() {
                assert(is_digit(front[k]));
            }
        }
        assert(all[0] == front[0]);
    }
}

/// Digits are read in base ten, most significant first: each further digit counts
/// ones, and what stood before it ten times as much.
pub proof fn digits_are_read_in_base_ten(s: Seq<char>, c: char)
    requires
        '0' <= c <= '9',
    ensures
        digits_value(s.push(c)) == 10 * digits_value(s) + (c as int - '0' as int),
        digits_value(Seq::empty()) == 0,
{
    assert(s.push(c).drop_last() =~= s);
}

/// A port is spelled by decimal digits, with or without a plus sign in front, whose
/// value is at most 65535; nothing else spells a port.
pub proof fn ports_are_small_decimal_numbers(s: Seq<char>, t: Seq<char>)
    requires
        s == seq!['+'] + t || (s == t && (t.len() > 0 ==> t[0] != '+')),
    ensures
        port_of(s) is Some <==> t.len() > 0 && digits_value(t) <= 65535 && forall|k: int|
            0 <= k < t.len() ==> '0' <= #[trigger] t[k] && t[k] <= '9',
        port_of(s) is Some ==> port_of(s)->0 == digits_value(t),
{
    if s == seq!['+'] + t {
        assert(s[0] == '+');
        assert(s.skip(1) =~= t);
    }
    assert(t == unsigned(s));
    if all_digits(t) {
        assert forall|k: int| 0 <= k < t.len() implies '0' <= #[trigger] t[k] && t[k] <= '9' by {
            assert(is_digit(t[k]));
        }
    } else {
        let k = choose|k: int| 0 <= k < t.len() && !is_digit(#[trigger] t[k]);
        assert(!('0' <= t[k] && t[k] <= '9'));
    }
}

/// Every port is read back from its decimal form.
pub proof fn ports_read_back(port: u16)
    ensures
        port_of(decimal(port as nat)) == Some(port),
{
    decimals_spell_their_number(port as nat);
    assert(is_digit(decimal(port as nat)[0]));
}

/// More digits never make the value smaller.
proof fn lemma_digits_grow(s: Seq<char>, i: int)
    requires
        0 <= i <= s.len(),
        all_digits(s),
    ensures
        digits_value(s.take(i)) <= digits_value(s),
    decreases s.len() - i,
{
    if i < s.len() {
        lemma_digits_grow(s, i + 1);
        assert(s.take(i + 1).drop_last() == s.take(i));
    } else {
        assert(s.take(i) == s);
    }
}

/// The port number that `s` spells, if it does.
pub fn parse_port(s: &str) -> (r: Option<u16>)
    ensures
        r == port_of(s@),
{
    let v = to_chars(s);
    let start: usize = if v.len() > 0 && v[0] == '+' {
        1
    } else {
        0
    };
    let ghost t = unsigned(s@);
    assert(t == v@.skip(start as int));
    if start == v.len() {
        return None;
    }
    let mut value: u32 = 0;
    let mut i: usize = start;
    while i < v.len()
        invariant
            v@ == s@,
            start <= i <= v@.len(),
            start <= 1,
            t == v@.skip(start as int),
            t == unsigned(s@),
            start < v@.len(),
            value <= 65535,
            value == digits_value(t.take(i - start)),
            forall|k: int| 0 <= k < i - start ==> is_digit(#[trigger] t[k]),
        decreases v@.len() - i,
    {
        let c = v[i];
        assert(t[i - start] == c);
        if c < '0' || c > '9' {
            return None;
        }
        assert(t.take(i + 1 - start).drop_last() == t.take(i - start));
        value = value * 10 + (c as u32 - 48);
        if value > 65535 {
            proof {
                if all_digits(t) {
                    lemma_digits_grow(t, i + 1 - start);
                }
            }
            return None;
        }
        i += 1;
    }
    assert(t.take(i - start) == t);
    Some(value as u16)
}

/// The lowercase hexadecimal digit for `d`.
pub open spec fn hex_char(d: nat) -> char {
    if d < 10 {
        (48 + d) as char
    } else {
        (87 + d) as char
    }
}

/// `bytes` in lowercase hexadecimal, two digits each.
pub open spec fn hex(bytes: Seq<u8>) -> Seq<char>
    decreases bytes.len(),
{
    if bytes.len() == 0 {
        Seq::empty()
    } else {
        hex(bytes.drop_last()).push(hex_char((bytes.last() / 16) as nat)).push(
            hex_char((bytes.last() % 16) as nat),
        )
    }
}

/// Every byte takes two digits, in the order of the bytes: the first counts
/// sixteens and the second ones.
pub proof fn hex_spells_every_byte(bytes: Seq<u8>)
    ensures
        hex(bytes).len() == 2 * bytes.len(),
        forall|i: int|
            0 <= i < bytes.len() ==> hex(bytes)[2 * i] == "0123456789abcdef"@[(
            #[trigger] bytes[i]) as int / 16] && hex(bytes)[2 * i + 1]
                == "0123456789abcdef"@[bytes[i] as int % 16],
    decreases bytes.len(),
{
    reveal_strlit("0123456789abcdef");
    if bytes.len() > 0 {
        let init = bytes.drop_last();
        hex_spells_every_byte(init);
        assert forall|i: int| 0 <= i < bytes.len() implies hex(bytes)[2 * i]
            == "0123456789abcdef"@[(#[trigger] bytes[i]) as int / 16] && hex(bytes)[2 * i + 1]
            == "0123456789abcdef"@[bytes[i] as int % 16] by {
            if i < init.len() {
                assert(init[i] == bytes[i]);
            } else {
                lemma_hex_char((bytes[i] / 16) as nat);
                lemma_hex_char((bytes[i] % 16) as nat);
            }
        }
    }
}

proof fn lemma_hex_char(d: nat)
    requires
        d < 16,
    ensures
        hex_char(d) == "0123456789abcdef"@[d as int],
{
    reveal_strlit("0123456789abcdef");
}

/// Whether `c` is a lowercase hexadecimal digit.
pub open spec fn is_hex_digit(c: char) -> bool {
    '0' <= c <= '9' || 'a' <= c <= 'f'
}

/// Every byte becomes two hexadecimal digits.
pub proof fn lemma_hex(bytes: Seq<u8>)
    ensures
        hex(bytes).len() == 2 * bytes.len(),
        forall|i: int| 0 <= i < hex(bytes).len() ==> is_hex_digit(#[trigger] hex(bytes)[i]),
    decreases bytes.len(),
{
    if bytes.len() > 0 {
        lemma_hex(bytes.drop_last());
        assert forall|i: int| 0 <= i < hex(bytes).len() implies is_hex_digit(
            #[trigger] hex(bytes)[i],
        ) by {
            if i < hex(bytes).len() - 2 {
                assert(hex(bytes)[i] == hex(bytes.drop_last())[i]);
            }
        }
    }
}

fn hex_digit(d: u8) -> (c: char)
    requires
        d < 16,
    ensures
        c == hex_char(d as nat),
{
    if d < 10 {
        (48u8 + d) as char
    } else {
        (87u8 + d) as char
    }
}

/// Appends `bytes` in lowercase hexadecimal.
pub fn append_hex(out: &mut String, bytes: &[u8])
    ensures
        final(out)@ == old(out)@ + hex(bytes@),
{
    let ghost before = out@;
    let mut i: usize = 0;
    assert(before + hex(bytes@.take(0)) == before);
    while i < bytes.len()
        invariant
            i <= bytes@.len(),
            out@ == before + hex(bytes@.take(i as int)),
        decreases bytes@.len() - i,
    {
        let b = bytes[i];
        assert(bytes@.take(i + 1).drop_last() == bytes@.take(i as int));
        out.push(hex_digit(b / 16));
        out.push(hex_digit(b % 16));
        assert(out@ == before + hex(bytes@.take(i + 1)));
        i += 1;
    }
    assert(bytes@.take(i as int) == bytes@);
}

} // verus!
