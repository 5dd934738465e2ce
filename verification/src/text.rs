//! Text as sequences of characters: words, trimming, searching, numbers.

use vstd::prelude::*;
use vstd::string::*;

verus! {

// ---------------------------------------------------------------------------
// Models
// ---------------------------------------------------------------------------

/// The contents of a list of strings.
pub open spec fn texts(list: Seq<String>) -> Seq<Seq<char>> {
    list.map_values(|s: String| s@)
}

/// The contents of an optional string.
pub open spec fn opt_text(value: Option<String>) -> Option<Seq<char>> {
    match value {
        Some(s) => Some(s@),
        None => None,
    }
}

/// Unicode's `White_Space` property.
pub open spec fn is_white_space(c: char) -> bool {
    let n = c as u32;
    ||| 0x9 <= n <= 0xd
    ||| n == 0x20
    ||| n == 0x85
    ||| n == 0xa0
    ||| n == 0x1680
    ||| 0x2000 <= n <= 0x200a
    ||| n == 0x2028
    ||| n == 0x2029
    ||| n == 0x202f
    ||| n == 0x205f
    ||| n == 0x3000
}

pub open spec fn is_digit(c: char) -> bool {
    '0' <= c <= '9'
}

pub open spec fn is_upper(c: char) -> bool {
    'A' <= c <= 'Z'
}

pub open spec fn is_lower(c: char) -> bool {
    'a' <= c <= 'z'
}

pub open spec fn is_letter(c: char) -> bool {
    is_upper(c) || is_lower(c)
}

pub open spec fn lower_char(c: char) -> char {
    if is_upper(c) {
        ((c as u32) + 32) as char
    } else {
        c
    }
}

pub open spec fn upper_char(c: char) -> char {
    if is_lower(c) {
        ((c as u32) - 32) as char
    } else {
        c
    }
}

/// `s` with its ASCII letters in lower case.
pub open spec fn ascii_lower(s: Seq<char>) -> Seq<char> {
    s.map_values(|c: char| lower_char(c))
}

/// `s` with its ASCII letters in capitals.
pub open spec fn ascii_upper(s: Seq<char>) -> Seq<char> {
    s.map_values(|c: char| upper_char(c))
}

/// Every character of `s` is in the ASCII range.
pub open spec fn all_ascii(s: Seq<char>) -> bool {
    forall|i: int| 0 <= i < s.len() ==> (#[trigger] s[i] as u32) < 0x80
}

/// The maximal runs of characters of `s` that are not white space, in order.
pub open spec fn words(s: Seq<char>) -> Seq<Seq<char>>
    decreases s.len(),
{
    if s.len() == 0 {
        Seq::empty()
    } else {
        let before = words(s.drop_last());
        let c = s.last();
        if is_white_space(c) {
            before
        } else if s.len() >= 2 && !is_white_space(s[s.len() - 2]) {
            before.drop_last().push(before.last().push(c))
        } else {
            before.push(seq![c])
        }
    }
}

/// The parts of `s` between occurrences of `separator`; one more than there
/// are occurrences.
pub open spec fn split_on(s: Seq<char>, separator: char) -> Seq<Seq<char>>
    decreases s.len(),
{
    if s.len() == 0 {
        seq![Seq::empty()]
    } else {
        let before = split_on(s.drop_last(), separator);
        if s.last() == separator {
            before.push(Seq::empty())
        } else {
            before.drop_last().push(before.last().push(s.last()))
        }
    }
}

/// The parts one after the other, with `separator` between neighbours.
pub open spec fn join(parts: Seq<Seq<char>>, separator: Seq<char>) -> Seq<char>
    decreases parts.len(),
{
    if parts.len() == 0 {
        Seq::empty()
    } else if parts.len() == 1 {
        parts[0]
    } else {
        join(parts.drop_last(), separator) + separator + parts.last()
    }
}

/// The words of `s` with one space between neighbours.
pub open spec fn spaced(s: Seq<char>) -> Seq<char> {
    join(words(s), seq![' '])
}

/// Sets of characters that are cut off the ends of a text.
#[derive(Clone, Copy)]
pub enum CharClass {
    /// White space.
    Space,
    /// `-`, `.`, `_` and the space: what may not stand at the ends of a title.
    TitleEdge,
    /// `.`, `_` and `-`: what may not stand at the ends of a release group.
    GroupEdge,
}

impl CharClass {
    pub open spec fn has(self, c: char) -> bool {
        match self {
            CharClass::Space => is_white_space(c),
            CharClass::TitleEdge => c == '-' || c == '.' || c == '_' || c == ' ',
            CharClass::GroupEdge => c == '.' || c == '_' || c == '-',
        }
    }

    pub fn contains(self, c: char) -> (r: bool)
        ensures
            r == self.has(c),
    {
        match self {
            CharClass::Space => c.is_whitespace(),
            CharClass::TitleEdge => c == '-' || c == '.' || c == '_' || c == ' ',
            CharClass::GroupEdge => c == '.' || c == '_' || c == '-',
        }
    }
}

/// `s` without its longest prefix made of characters of `class`.
pub open spec fn trim_start(s: Seq<char>, class: CharClass) -> Seq<char>
    decreases s.len(),
{
    if s.len() > 0 && class.has(s[0]) {
        trim_start(s.drop_first(), class)
    } else {
        s
    }
}

/// `s` without its longest suffix made of characters of `class`.
pub open spec fn trim_end(s: Seq<char>, class: CharClass) -> Seq<char>
    decreases s.len(),
{
    if s.len() > 0 && class.has(s.last()) {
        trim_end(s.drop_last(), class)
    } else {
        s
    }
}

/// `s` with the characters of `class` cut off both ends.
pub open spec fn trimmed(s: Seq<char>, class: CharClass) -> Seq<char> {
    trim_end(trim_start(s, class), class)
}

/// `s` is empty or all white space.
pub open spec fn is_blank(s: Seq<char>) -> bool {
    trimmed(s, CharClass::Space).len() == 0
}

/// `needle` occurs in `s` as a run of neighbouring characters.
pub open spec fn has_text(s: Seq<char>, needle: Seq<char>) -> bool {
    exists|i: int| occurs_at(s, needle, i)
}

pub open spec fn occurs_at(s: Seq<char>, needle: Seq<char>, i: int) -> bool {
    0 <= i && i + needle.len() <= s.len() && s.subrange(i, i + needle.len()) == needle
}

/// `s` with `.` and `_` turned into spaces.
pub open spec fn separated(s: Seq<char>) -> Seq<char> {
    s.map_values(|c: char| if c == '.' || c == '_' { ' ' } else { c })
}

/// `s` with every `from` turned into `to`.
pub open spec fn swapped(s: Seq<char>, from: char, to: char) -> Seq<char> {
    s.map_values(|c: char| if c == from { to } else { c })
}

pub open spec fn digit_char(d: int) -> char {
    ('0' as u32 + d) as char
}

/// The decimal digits of `n`, without leading zeros.
pub open spec fn decimal_nat(n: nat) -> Seq<char>
    decreases n,
{
    if n < 10 {
        seq![digit_char(n as int)]
    } else {
        decimal_nat(n / 10).push(digit_char((n % 10) as int))
    }
}

/// `n` in decimal notation, with a minus sign if it is negative.
pub open spec fn decimal(n: int) -> Seq<char> {
    if n < 0 {
        seq!['-'] + decimal_nat((-n) as nat)
    } else {
        decimal_nat(n as nat)
    }
}

pub open spec fn zeros(count: int) -> Seq<char> {
    Seq::new(
        if count < 0 {
            0
        } else {
            count as nat
        },
        |i: int| '0',
    )
}

/// `n` in decimal notation, filled up with zeros behind the sign until it is
/// `width` characters long.
pub open spec fn padded(n: int, width: int) -> Seq<char> {
    if n < 0 {
        seq!['-'] + zeros(width - 1 - decimal_nat((-n) as nat).len()) + decimal_nat((-n) as nat)
    } else {
        zeros(width - decimal_nat(n as nat).len()) + decimal_nat(n as nat)
    }
}

pub open spec fn all_digits(s: Seq<char>) -> bool {
    forall|i: int| 0 <= i < s.len() ==> is_digit(#[trigger] s[i])
}

/// The number that a row of decimal digits denotes.
pub open spec fn digits_value(s: Seq<char>) -> nat
    decreases s.len(),
{
    if s.len() == 0 {
        0
    } else {
        digits_value(s.drop_last()) * 10 + (s.last() as u32 - '0' as u32) as nat
    }
}

/// The 64-bit signed number that `s` denotes: an optional sign and at least
/// one digit, within range.
pub open spec fn number_of(s: Seq<char>) -> Option<i64> {
    let signed = s.len() > 0 && (s[0] == '-' || s[0] == '+');
    let digits = if signed {
        s.drop_first()
    } else {
        s
    };
    let value = if signed && s[0] == '-' {
        -(digits_value(digits) as int)
    } else {
        digits_value(digits) as int
    };
    if digits.len() == 0 || !all_digits(digits) || value < i64::MIN || value > i64::MAX {
        None
    } else {
        Some(value as i64)
    }
}

/// `a` stands before `b` in the order of their characters, or equals it.
pub open spec fn text_le(a: Seq<char>, b: Seq<char>) -> bool
    decreases a.len(),
{
    if a.len() == 0 {
        true
    } else if b.len() == 0 {
        false
    } else if a[0] == b[0] {
        text_le(a.drop_first(), b.drop_first())
    } else {
        a[0] < b[0]
    }
}

// ---------------------------------------------------------------------------
// Characters and strings
// ---------------------------------------------------------------------------

/// Whether two texts are the same.
pub fn same_text(a: &str, b: &str) -> (r: bool)
    ensures
        r == (a@ == b@),
{
    *a == *b
}

/// The characters of a text.
pub fn chars_of(s: &str) -> (r: Vec<char>)
    ensures
        r@ == s@,
{
    let mut out: Vec<char> = Vec::new();
    for c in it: s.chars()
        invariant
            out@ == it.seq().take(it.index() as int),
            it.seq() == s@,
    {
        out.push(c);
    }
    out
}

/// The text made of the characters `from..to` of a list.
pub fn text_of(chars: &Vec<char>, from: usize, to: usize) -> (r: String)
    requires
        from <= to <= chars@.len(),
    ensures
        r@ == chars@.subrange(from as int, to as int),
{
    let mut out = String::new();
    let mut i: usize = from;
    while i < to
        invariant
            from <= i <= to <= chars@.len(),
            out@ == chars@.subrange(from as int, i as int),
        decreases to - i,
    {
        out.push(chars[i]);
        i += 1;
    }
    out
}

pub fn is_ascii_digit(c: char) -> (r: bool)
    ensures
        r == is_digit(c),
{
    '0' <= c && c <= '9'
}

pub fn is_ascii_upper(c: char) -> (r: bool)
    ensures
        r == is_upper(c),
{
    'A' <= c && c <= 'Z'
}

pub fn is_ascii_letter(c: char) -> (r: bool)
    ensures
        r == is_letter(c),
{
    ('A' <= c && c <= 'Z') || ('a' <= c && c <= 'z')
}

pub fn to_lower_char(c: char) -> (r: char)
    ensures
        r == lower_char(c),
{
    if 'A' <= c && c <= 'Z' {
        (c as u8 + 32) as char
    } else {
        c
    }
}

pub fn to_upper_char(c: char) -> (r: char)
    ensures
        r == upper_char(c),
{
    if 'a' <= c && c <= 'z' {
        (c as u8 - 32) as char
    } else {
        c
    }
}

/// A text with its ASCII letters in lower case.
pub fn to_ascii_lower(s: &str) -> (r: String)
    ensures
        r@ == ascii_lower(s@),
{
    let mut out = String::new();
    for c in it: s.chars()
        invariant
            it.seq() == s@,
            out@ == ascii_lower(s@.take(it.index() as int)),
    {
        out.push(to_lower_char(c));
        proof {
            assert(ascii_lower(s@.take(it.index() + 1)) =~= ascii_lower(
                s@.take(it.index() as int),
            ).push(lower_char(c)));
        }
    }
    proof {
        assert(s@.take(s@.len() as int) == s@);
    }
    out
}

/// A text with `.` and `_` turned into spaces.
pub fn separate(s: &str) -> (r: String)
    ensures
        r@ == separated(s@),
{
    let mut out = String::new();
    for c in it: s.chars()
        invariant
            it.seq() == s@,
            out@ == separated(s@.take(it.index() as int)),
    {
        out.push(
            if c == '.' || c == '_' {
                ' '
            } else {
                c
            },
        );
        proof {
            assert(separated(s@.take(it.index() + 1)) =~= separated(
                s@.take(it.index() as int),
            ).push(
                if c == '.' || c == '_' {
                    ' '
                } else {
                    c
                },
            ));
        }
    }
    proof {
        assert(s@.take(s@.len() as int) == s@);
    }
    out
}

/// A text with every `from` turned into `to`.
pub fn swap_char(s: &str, from: char, to: char) -> (r: String)
    ensures
        r@ == swapped(s@, from, to),
{
    let mut out = String::new();
    for c in it: s.chars()
        invariant
            it.seq() == s@,
            out@ == swapped(s@.take(it.index() as int), from, to),
    {
        out.push(
            if c == from {
                to
            } else {
                c
            },
        );
        proof {
            assert(swapped(s@.take(it.index() + 1), from, to) =~= swapped(
                s@.take(it.index() as int),
                from,
                to,
            ).push(
                if c == from {
                    to
                } else {
                    c
                },
            ));
        }
    }
    proof {
        assert(s@.take(s@.len() as int) == s@);
    }
    out
}

// ---------------------------------------------------------------------------
// Words and parts
// ---------------------------------------------------------------------------

/// The words of a text.
pub fn split_words(s: &str) -> (r: Vec<String>)
    ensures
        texts(r@) == words(s@),
{
    let mut out: Vec<String> = Vec::new();
    let mut word = String::new();
    for c in it: s.chars()
        invariant
            it.seq() == s@,
            word@.len() == 0 ==> texts(out@) == words(s@.take(it.index() as int)),
            word@.len() > 0 ==> texts(out@).push(word@) == words(s@.take(it.index() as int)),
            word@.len() > 0 <==> it.index() > 0 && !is_white_space(s@[it.index() - 1]),
    {
        let ghost n = it.index() as int;
        let ghost old_out = texts(out@);
        let ghost old_word = word@;
        proof {
            assert(s@.take(n + 1).drop_last() == s@.take(n));
        }
        if c.is_whitespace() {
            if !word.as_str().is_empty() {
                out.push(word);
                word = String::new();
                proof {
                    assert(texts(out@) =~= old_out.push(old_word));
                }
            }
        } else {
            word.push(c);
            proof {
                if old_word.len() > 0 {
                    assert(old_out.push(old_word).drop_last() =~= old_out);
                } else {
                    assert(word@ =~= seq![c]);
                }
            }
        }
    }
    proof {
        assert(s@.take(s@.len() as int) == s@);
    }
    if !word.as_str().is_empty() {
        let ghost old_out = texts(out@);
        let ghost old_word = word@;
        out.push(word);
        proof {
            assert(texts(out@) =~= old_out.push(old_word));
        }
    }
    out
}

/// The parts of a text between occurrences of a separator.
pub fn split_parts(s: &str, separator: char) -> (r: Vec<String>)
    ensures
        texts(r@) == split_on(s@, separator),
{
    let mut out: Vec<String> = Vec::new();
    let mut part = String::new();
    for c in it: s.chars()
        invariant
            it.seq() == s@,
            texts(out@).push(part@) =~= split_on(s@.take(it.index() as int), separator),
    {
        let ghost n = it.index() as int;
        let ghost old_out = texts(out@);
        let ghost old_part = part@;
        proof {
            assert(s@.take(n + 1).drop_last() == s@.take(n));
            assert(old_out.push(old_part).drop_last() =~= old_out);
        }
        if c == separator {
            out.push(part);
            part = String::new();
            proof {
                assert(texts(out@) =~= old_out.push(old_part));
            }
        } else {
            part.push(c);
        }
    }
    proof {
        assert(s@.take(s@.len() as int) == s@);
    }
    let ghost old_out = texts(out@);
    let ghost old_part = part@;
    out.push(part);
    proof {
        assert(texts(out@) =~= old_out.push(old_part));
    }
    out
}

/// The parts one after the other, with a separator between neighbours.
pub fn join_texts(parts: &Vec<String>, separator: &str) -> (r: String)
    ensures
        r@ == join(texts(parts@), separator@),
{
    let mut out = String::new();
    let ghost all = texts(parts@);
    let mut i: usize = 0;
    while i < parts.len()
        invariant
            i <= parts@.len(),
            all == texts(parts@),
            out@ =~= join(all.take(i as int), separator@),
        decreases parts@.len() - i,
    {
        proof {
            assert(all.take(i + 1).drop_last() =~= all.take(i as int));
        }
        if i > 0 {
            out.append(separator);
        }
        out.append(parts[i].as_str());
        i += 1;
    }
    proof {
        assert(all.take(parts@.len() as int) =~= all);
    }
    out
}

/// The words of a text with one space between neighbours.
pub fn collapse_spaces(s: &str) -> (r: String)
    ensures
        r@ == spaced(s@),
{
    let parts = split_words(s);
    proof {
        reveal_strlit(" ");
        assert(" "@ =~= seq![' ']);
    }
    join_texts(&parts, " ")
}

// ---------------------------------------------------------------------------
// Trimming and searching
// ---------------------------------------------------------------------------

/// A text with the characters of a class cut off both ends.
pub fn trim_class(s: &str, class: CharClass) -> (r: String)
    ensures
        r@ == trimmed(s@, class),
{
    let chars = chars_of(s);
    let mut from: usize = 0;
    proof {
        assert(chars@.skip(0) == chars@);
    }
    while from < chars.len() && class.contains(chars[from])
        invariant
            from <= chars@.len(),
            trim_start(chars@, class) == trim_start(chars@.skip(from as int), class),
        decreases chars@.len() - from,
    {
        proof {
            assert(chars@.skip(from as int).drop_first() =~= chars@.skip(from + 1));
        }
        from += 1;
    }
    let ghost kept = chars@.skip(from as int);
    let mut to: usize = chars.len();
    proof {
        assert(chars@.subrange(from as int, to as int) =~= kept);
    }
    while to > from && class.contains(chars[to - 1])
        invariant
            from <= to <= chars@.len(),
            trim_end(kept, class) == trim_end(chars@.subrange(from as int, to as int), class),
        decreases to,
    {
        proof {
            assert(chars@.subrange(from as int, to as int).drop_last() =~= chars@.subrange(
                from as int,
                to - 1,
            ));
        }
        to -= 1;
    }
    text_of(&chars, from, to)
}

/// A text without white space at its ends.
pub fn trim_text(s: &str) -> (r: String)
    ensures
        r@ == trimmed(s@, CharClass::Space),
{
    trim_class(s, CharClass::Space)
}

/// Whether a text is empty or all white space.
pub fn blank(s: &str) -> (r: bool)
    ensures
        r == is_blank(s@),
{
    trim_text(s).as_str().is_empty()
}

/// Whether `needle` stands in `chars` at position `at`.
fn stands_at(chars: &Vec<char>, needle: &Vec<char>, at: usize) -> (r: bool)
    requires
        at + needle@.len() <= chars@.len(),
    ensures
        r == occurs_at(chars@, needle@, at as int),
{
    let ghost part = chars@.subrange(at as int, at + needle@.len());
    let size = chars.len();
    let mut i: usize = 0;
    while i < needle.len()
        invariant
            i <= needle@.len(),
            size == chars@.len(),
            at + needle@.len() <= size,
            part == chars@.subrange(at as int, at + needle@.len()),
            forall|j: int| 0 <= j < i ==> part[j] == needle@[j],
        decreases needle@.len() - i,
    {
        if chars[at + i] != needle[i] {
            proof {
                assert(part[i as int] != needle@[i as int]);
            }
            return false;
        }
        i += 1;
    }
    proof {
        assert(part =~= needle@);
    }
    true
}

/// Whether a text begins with another.
pub fn begins_with(s: &str, prefix: &str) -> (r: bool)
    ensures
        r == prefix@.is_prefix_of(s@),
{
    let chars = chars_of(s);
    let start = chars_of(prefix);
    if start.len() > chars.len() {
        return false;
    }
    let r = stands_at(&chars, &start, 0);
    proof {
        assert(s@.subrange(0, prefix@.len() as int) =~= prefix@ <==> prefix@.is_prefix_of(s@));
    }
    r
}

/// What follows `prefix` in a text that begins with it.
pub fn without_prefix(s: &str, prefix: &str) -> (r: Option<String>)
    ensures
        r is Some <==> prefix@.is_prefix_of(s@),
        r matches Some(rest) ==> rest@ == s@.skip(prefix@.len() as int),
{
    if !begins_with(s, prefix) {
        return None;
    }
    let chars = chars_of(s);
    let start = chars_of(prefix);
    let rest = text_of(&chars, start.len(), chars.len());
    proof {
        assert(rest@ =~= s@.skip(prefix@.len() as int));
    }
    Some(rest)
}

/// Whether `needle` occurs in a text.
pub fn contains_text(s: &str, needle: &str) -> (r: bool)
    ensures
        r == has_text(s@, needle@),
{
    let chars = chars_of(s);
    let wanted = chars_of(needle);
    if wanted.len() > chars.len() {
        return false;
    }
    let last: usize = chars.len() - wanted.len();
    let mut i: usize = 0;
    loop
        invariant_except_break
            i <= last,
            forall|j: int| 0 <= j < i ==> !occurs_at(s@, needle@, j),
        invariant
            chars@ == s@,
            wanted@ == needle@,
            last == chars@.len() - wanted@.len(),
        ensures
            forall|j: int| 0 <= j <= last ==> !occurs_at(s@, needle@, j),
        decreases last - i,
    {
        if stands_at(&chars, &wanted, i) {
            return true;
        }
        if i == last {
            break;
        }
        i += 1;
    }
    proof {
        assert forall|j: int| !occurs_at(s@, needle@, j) by {
            if occurs_at(s@, needle@, j) {
                assert(0 <= j <= last);
            }
        }
    }
    false
}

/// Whether one of `list` is the text `s`.
pub fn is_among(s: &str, list: &Vec<String>) -> (r: bool)
    ensures
        r == texts(list@).contains(s@),
{
    let mut i: usize = 0;
    while i < list.len()
        invariant
            i <= list@.len(),
            forall|j: int| 0 <= j < i ==> texts(list@)[j] != s@,
        decreases list@.len() - i,
    {
        if same_text(list[i].as_str(), s) {
            proof {
                assert(texts(list@)[i as int] == s@);
            }
            return true;
        }
        i += 1;
    }
    false
}

// ---------------------------------------------------------------------------
// Numbers
// ---------------------------------------------------------------------------

fn push_digits(n: u64, out: &mut String)
    ensures
        final(out)@ == old(out)@ + decimal_nat(n as nat),
    decreases n,
{
    if n >= 10 {
        push_digits(n / 10, out);
    }
    let d = (n % 10) as u8;
    out.push((48 + d) as char);
    proof {
        assert(out@ =~= old(out)@ + decimal_nat(n as nat));
    }
}

/// The distance of a number from zero.
fn magnitude(n: i64) -> (r: u64)
    ensures
        r == (if n < 0 {
            -(n as int)
        } else {
            n as int
        }),
{
    if n < 0 {
        (-(n + 1)) as u64 + 1
    } else {
        n as u64
    }
}

/// A number in decimal notation.
pub fn decimal_text(n: i64) -> (r: String)
    ensures
        r@ == decimal(n as int),
{
    let mut out = String::new();
    if n < 0 {
        out.push('-');
    }
    push_digits(magnitude(n), &mut out);
    proof {
        assert(out@ =~= decimal(n as int));
    }
    out
}

/// A count in decimal notation.
pub fn count_text(n: usize) -> (r: String)
    ensures
        r@ == decimal(n as int),
{
    let mut out = String::new();
    push_digits(n as u64, &mut out);
    proof {
        assert(out@ =~= decimal(n as int));
    }
    out
}

/// A number in decimal notation, filled up with zeros behind the sign.
pub fn padded_text(n: i64, width: usize) -> (r: String)
    ensures
        r@ == padded(n as int, width as int),
{
    let mut digits = String::new();
    push_digits(magnitude(n), &mut digits);
    let taken = chars_of(digits.as_str()).len();
    let mut out = String::new();
    let mut room: usize = width;
    if n < 0 {
        out.push('-');
        if room > 0 {
            room = room - 1;
        }
    }
    let ghost head = out@;
    let mut filled: usize = 0;
    while taken < room && filled < room - taken
        invariant
            filled <= room,
            taken < room ==> filled <= room - taken,
            taken >= room ==> filled == 0,
            out@ =~= head + zeros(filled as int),
        decreases room - filled,
    {
        out.push('0');
        filled += 1;
    }
    out.append(digits.as_str());
    proof {
        assert(digits@.len() == taken);
        assert(out@ =~= padded(n as int, width as int));
    }
    out
}

/// The number that a text denotes.
#[verifier::loop_isolation(false)]
pub fn parse_number(s: &str) -> (r: Option<i64>)
    ensures
        r == number_of(s@),
{
    let chars = chars_of(s);
    let signed = chars.len() > 0 && (chars[0] == '-' || chars[0] == '+');
    let negative = signed && chars[0] == '-';
    let from: usize = if signed {
        1
    } else {
        0
    };
    let ghost digits = chars@.skip(from as int);
    proof {
        if signed {
            assert(digits =~= chars@.drop_first());
        } else {
            assert(digits =~= chars@);
        }
    }
    if from == chars.len() {
        return None;
    }
    let limit: u64 = if negative {
        0x8000_0000_0000_0000
    } else {
        0x7fff_ffff_ffff_ffff
    };
    let mut value: u64 = 0;
    let mut too_large = false;
    let mut i: usize = from;
    while i < chars.len()
        invariant
            from <= i <= chars@.len(),
            digits == chars@.skip(from as int),
            limit <= 0x8000_0000_0000_0000,
            all_digits(digits.take(i - from)),
            !too_large ==> value == digits_value(digits.take(i - from)) && value <= limit,
            too_large ==> digits_value(digits.take(i - from)) > limit,
        decreases chars@.len() - i,
    {
        let c = chars[i];
        let ghost n = i - from;
        proof {
            assert(digits.take(n + 1).drop_last() =~= digits.take(n));
            assert(digits[n] == c);
        }
        if !is_ascii_digit(c) {
            proof {
                assert(!is_digit(digits[n]));
            }
            return None;
        }
        let d: u64 = (c as u8 - 48) as u64;
        proof {
            assert(digits_value(digits.take(n + 1)) == digits_value(digits.take(n)) * 10 + d);
            assert forall|j: int| 0 <= j < n + 1 implies is_digit(
                #[trigger] digits.take(n + 1)[j],
            ) by {
                if j < n {
                    assert(digits.take(n + 1)[j] == digits.take(n)[j]);
                }
            }
        }
        if !too_large {
            if value > (limit - d) / 10 {
                too_large = true;
            } else {
                value = value * 10 + d;
            }
        }
        i += 1;
    }
    proof {
        assert(digits.take(chars@.len() - from) =~= digits);
    }
    if too_large {
        return None;
    }
    if negative {
        if value == 0x8000_0000_0000_0000 {
            Some(i64::MIN)
        } else {
            Some(-(value as i64))
        }
    } else {
        Some(value as i64)
    }
}

// ---------------------------------------------------------------------------
// Laws
// ---------------------------------------------------------------------------

proof fn lemma_trim_start(s: Seq<char>, class: CharClass)
    ensures
        trim_start(s, class).len() > 0 ==> !class.has(trim_start(s, class)[0]),
    decreases s.len(),
{
    if s.len() > 0 && class.has(s[0]) {
        lemma_trim_start(s.drop_first(), class);
    }
}

proof fn lemma_trim_end(s: Seq<char>, class: CharClass)
    ensures
        trim_end(s, class).is_prefix_of(s),
        trim_end(s, class).len() > 0 ==> !class.has(trim_end(s, class).last()),
    decreases s.len(),
{
    if s.len() > 0 && class.has(s.last()) {
        lemma_trim_end(s.drop_last(), class);
    }
}

/// A trimmed text begins and ends with a character that stays.
pub proof fn trimmed_text_has_no_edges(s: Seq<char>, class: CharClass)
    ensures
        trimmed(s, class).len() > 0 ==> !class.has(trimmed(s, class)[0]) && !class.has(
            trimmed(s, class).last(),
        ),
{
    let front = trim_start(s, class);
    lemma_trim_start(s, class);
    lemma_trim_end(front, class);
    if trimmed(s, class).len() > 0 {
        assert(trimmed(s, class)[0] == front[0]);
    }
}

/// A text that was trimmed is not changed by trimming it again.
pub proof fn trimming_again_changes_nothing(s: Seq<char>, class: CharClass)
    ensures
        trimmed(trimmed(s, class), class) == trimmed(s, class),
{
    trimmed_text_has_no_edges(s, class);
}

/// A word: something, and no white space in it.
pub open spec fn is_word(w: Seq<char>) -> bool {
    w.len() > 0 && forall|i: int| 0 <= i < w.len() ==> !is_white_space(#[trigger] w[i])
}

pub open spec fn all_words(parts: Seq<Seq<char>>) -> bool {
    forall|i: int| 0 <= i < parts.len() ==> is_word(#[trigger] parts[i])
}

/// White space in `s` is single spaces, each right behind something else.
pub open spec fn spaces_follow(s: Seq<char>) -> bool {
    forall|i: int|
        0 <= i < s.len() && is_white_space(#[trigger] s[i]) ==> s[i] == ' ' && i > 0
            && !is_white_space(s[i - 1])
}

/// White space in `s` is single spaces between other characters.
pub open spec fn is_spaced(s: Seq<char>) -> bool {
    spaces_follow(s) && (s.len() > 0 ==> !is_white_space(s.last()))
}

/// The words of a text are words, and there is one at the end where the text
/// ends in one.
pub proof fn words_are_words(s: Seq<char>)
    ensures
        all_words(words(s)),
        s.len() > 0 && !is_white_space(s.last()) ==> words(s).len() > 0,
    decreases s.len(),
{
    if s.len() > 0 {
        let shorter = s.drop_last();
        let before = words(shorter);
        words_are_words(shorter);
        let c = s.last();
        if !is_white_space(c) {
            if s.len() >= 2 && !is_white_space(s[s.len() - 2]) {
                assert(shorter.last() == s[s.len() - 2]);
                let longer = before.last().push(c);
                assert(is_word(before[before.len() - 1]));
                assert forall|i: int| 0 <= i < longer.len() implies !is_white_space(
                    #[trigger] longer[i],
                ) by {
                    if i < longer.len() - 1 {
                        assert(longer[i] == before.last()[i]);
                    }
                }
                assert forall|i: int| 0 <= i < words(s).len() implies is_word(
                    #[trigger] words(s)[i],
                ) by {
                    if i < words(s).len() - 1 {
                        assert(words(s)[i] == before[i]);
                    }
                }
            } else {
                assert(is_word(seq![c]));
                assert forall|i: int| 0 <= i < words(s).len() implies is_word(
                    #[trigger] words(s)[i],
                ) by {
                    if i < words(s).len() - 1 {
                        assert(words(s)[i] == before[i]);
                    }
                }
            }
        }
    }
}

pub open spec fn is_in_part(parts: Seq<Seq<char>>, c: char) -> bool {
    exists|i: int| 0 <= i < parts.len() && (#[trigger] parts[i]).contains(c)
}

proof fn lemma_in_pushed_part(parts: Seq<Seq<char>>, part: Seq<char>, c: char)
    ensures
        is_in_part(parts.push(part), c) <==> is_in_part(parts, c) || part.contains(c),
{
    let all = parts.push(part);
    if is_in_part(all, c) {
        let i = choose|i: int| 0 <= i < all.len() && (#[trigger] all[i]).contains(c);
        if i < parts.len() {
            assert(parts[i].contains(c));
        }
    }
    if is_in_part(parts, c) {
        let i = choose|i: int| 0 <= i < parts.len() && (#[trigger] parts[i]).contains(c);
        assert(all[i].contains(c));
    }
    if part.contains(c) {
        assert(all[parts.len() as int].contains(c));
    }
}

proof fn lemma_in_pushed_text(s: Seq<char>, last: char, c: char)
    ensures
        s.push(last).contains(c) <==> s.contains(c) || c == last,
{
    if s.push(last).contains(c) {
        let i = choose|i: int| 0 <= i < s.push(last).len() && s.push(last)[i] == c;
        if i < s.len() {
            assert(s[i] == c);
        }
    }
    if s.contains(c) {
        let i = choose|i: int| 0 <= i < s.len() && s[i] == c;
        assert(s.push(last)[i] == c);
    }
    assert(s.push(last)[s.len() as int] == last);
}

/// The characters of the words of a text are its characters other than white
/// space.
pub proof fn words_hold_the_characters(s: Seq<char>, c: char)
    ensures
        is_in_part(words(s), c) <==> s.contains(c) && !is_white_space(c),
    decreases s.len(),
{
    if s.len() > 0 {
        let shorter = s.drop_last();
        let before = words(shorter);
        let last = s.last();
        words_hold_the_characters(shorter, c);
        words_are_words(shorter);
        assert(s =~= shorter.push(last));
        lemma_in_pushed_text(shorter, last, c);
        if !is_white_space(last) {
            if s.len() >= 2 && !is_white_space(s[s.len() - 2]) {
                assert(shorter.last() == s[s.len() - 2]);
                assert(before =~= before.drop_last().push(before.last()));
                lemma_in_pushed_part(before.drop_last(), before.last(), c);
                lemma_in_pushed_part(before.drop_last(), before.last().push(last), c);
                lemma_in_pushed_text(before.last(), last, c);
            } else {
                lemma_in_pushed_part(before, seq![last], c);
                assert(Seq::<char>::empty().push(last) =~= seq![last]);
                lemma_in_pushed_text(Seq::empty(), last, c);
            }
        }
    }
}

/// The characters of joined parts are those of the parts, and the separator.
pub proof fn joined_text_holds_the_parts(parts: Seq<Seq<char>>, separator: char, c: char)
    ensures
        c != separator ==> (join(parts, seq![separator]).contains(c) <==> is_in_part(parts, c)),
        join(parts, seq![separator]).contains(c) ==> c == separator || is_in_part(parts, c),
    decreases parts.len(),
{
    if parts.len() == 1 {
        if parts[0].contains(c) {
            assert(is_in_part(parts, c));
        }
    } else if parts.len() > 1 {
        let before = parts.drop_last();
        joined_text_holds_the_parts(before, separator, c);
        assert(parts =~= before.push(parts.last()));
        lemma_in_pushed_part(before, parts.last(), c);
        let front = join(before, seq![separator]);
        let whole = front + seq![separator] + parts.last();
        if whole.contains(c) {
            let i = choose|i: int| 0 <= i < whole.len() && whole[i] == c;
            if i < front.len() {
                assert(front[i] == c);
            } else if i > front.len() {
                assert(parts.last()[i - front.len() - 1] == c);
            }
        }
        if front.contains(c) {
            let i = choose|i: int| 0 <= i < front.len() && front[i] == c;
            assert(whole[i] == c);
        }
        if parts.last().contains(c) {
            let i = choose|i: int| 0 <= i < parts.last().len() && parts.last()[i] == c;
            assert(whole[front.len() + 1 + i] == c);
        }
    }
}

proof fn lemma_words_behind(s: Seq<char>, w: Seq<char>)
    requires
        s.len() == 0 || is_white_space(s.last()),
        is_word(w),
    ensures
        words(s + w) == words(s).push(w),
    decreases w.len(),
{
    let whole = s + w;
    if w.len() == 1 {
        assert(whole.drop_last() =~= s);
        assert(w =~= seq![w[0]]);
        if s.len() > 0 {
            assert(whole[whole.len() - 2] == s.last());
        }
    } else {
        let shorter = w.drop_last();
        assert(whole.drop_last() =~= s + shorter);
        assert forall|i: int| 0 <= i < shorter.len() implies !is_white_space(
            #[trigger] shorter[i],
        ) by {
            assert(shorter[i] == w[i]);
        }
        lemma_words_behind(s, shorter);
        assert(whole[whole.len() - 2] == w[w.len() - 2]);
        assert(words(s).push(shorter).drop_last() =~= words(s));
        assert(shorter.push(w.last()) =~= w);
        assert(whole.last() == w[w.len() - 1]);
    }
}

/// Words that are joined by spaces are the words of the text that they make.
pub proof fn joined_words_are_found_again(parts: Seq<Seq<char>>)
    requires
        all_words(parts),
    ensures
        words(join(parts, seq![' '])) == parts,
    decreases parts.len(),
{
    if parts.len() == 1 {
        assert(is_word(parts[0]));
        lemma_words_behind(Seq::empty(), parts[0]);
        assert(Seq::<char>::empty() + parts[0] =~= parts[0]);
        assert(Seq::<Seq<char>>::empty().push(parts[0]) =~= parts);
    } else if parts.len() > 1 {
        let before = parts.drop_last();
        assert forall|i: int| 0 <= i < before.len() implies is_word(#[trigger] before[i]) by {
            assert(before[i] == parts[i]);
        }
        joined_words_are_found_again(before);
        let front = join(before, seq![' ']);
        let opening = front + seq![' '];
        assert(opening.drop_last() =~= front);
        assert(words(opening) == before);
        assert(is_word(parts[parts.len() - 1]));
        lemma_words_behind(opening, parts.last());
        assert(before.push(parts.last()) =~= parts);
    } else {
        assert(parts =~= Seq::empty());
    }
}

/// Joined words are single-spaced.
pub proof fn joined_words_are_spaced(parts: Seq<Seq<char>>)
    requires
        all_words(parts),
    ensures
        is_spaced(join(parts, seq![' '])),
        parts.len() > 0 ==> join(parts, seq![' ']).len() > 0,
    decreases parts.len(),
{
    let whole = join(parts, seq![' ']);
    if parts.len() == 1 {
        assert(is_word(parts[0]));
        assert(!is_white_space(whole[whole.len() - 1]));
    } else if parts.len() > 1 {
        let before = parts.drop_last();
        assert forall|i: int| 0 <= i < before.len() implies is_word(#[trigger] before[i]) by {
            assert(before[i] == parts[i]);
        }
        joined_words_are_spaced(before);
        let front = join(before, seq![' ']);
        let last = parts.last();
        assert(is_word(parts[parts.len() - 1]));
        assert forall|i: int| 0 <= i < whole.len() && is_white_space(#[trigger] whole[i]) implies
            whole[i] == ' ' && i > 0 && !is_white_space(whole[i - 1]) by {
            if i < front.len() {
                assert(whole[i] == front[i]);
                assert(whole[i - 1] == front[i - 1]);
            } else if i > front.len() {
                assert(whole[i] == last[i - front.len() - 1]);
            } else {
                assert(whole[i - 1] == front.last());
            }
        }
        assert(whole.last() == last[last.len() - 1]);
    }
}

proof fn lemma_join_longer(parts: Seq<Seq<char>>, c: char)
    requires
        parts.len() > 0,
    ensures
        join(parts.drop_last().push(parts.last().push(c)), seq![' ']) == join(
            parts,
            seq![' '],
        ).push(c),
{
    let longer = parts.drop_last().push(parts.last().push(c));
    assert(longer.drop_last() =~= parts.drop_last());
    if parts.len() == 1 {
        assert(longer[0] == parts[0].push(c));
    } else {
        assert(join(longer, seq![' ']) =~= join(parts, seq![' ']).push(c));
    }
}

proof fn lemma_spaced(s: Seq<char>)
    requires
        spaces_follow(s),
    ensures
        spaced(s) == (if s.len() > 0 && is_white_space(s.last()) {
            s.drop_last()
        } else {
            s
        }),
    decreases s.len(),
{
    if s.len() > 0 {
        let shorter = s.drop_last();
        let before = words(shorter);
        let c = s.last();
        assert forall|i: int| 0 <= i < shorter.len() && is_white_space(#[trigger] shorter[i]) implies
            shorter[i] == ' ' && i > 0 && !is_white_space(shorter[i - 1]) by {
            assert(shorter[i] == s[i]);
            assert(shorter[i - 1] == s[i - 1]);
        }
        lemma_spaced(shorter);
        words_are_words(shorter);
        if is_white_space(c) {
            assert(is_white_space(s[s.len() - 1]));
            assert(shorter.last() == s[s.len() - 2]);
        } else if s.len() == 1 {
            assert(shorter =~= Seq::empty());
            assert(words(s) =~= seq![seq![c]]);
            assert(s =~= seq![c]);
        } else if !is_white_space(s[s.len() - 2]) {
            assert(shorter.last() == s[s.len() - 2]);
            lemma_join_longer(before, c);
            assert(shorter.push(c) =~= s);
        } else {
            assert(shorter.last() == s[s.len() - 2]);
            assert(is_white_space(shorter[shorter.len() - 1]));
            let front = shorter.drop_last();
            assert(spaced(shorter) == front);
            assert(front.len() > 0);
            assert(before.len() > 0);
            assert(words(s) == before.push(seq![c]));
            assert(before.push(seq![c]).drop_last() =~= before);
            assert(front + seq![' '] + seq![c] =~= s);
        }
    } else {
        assert(s =~= Seq::empty());
    }
}

/// A single-spaced text is not changed by collapsing its white space, and every
/// text is single-spaced after that.
pub proof fn spaced_text_stays(s: Seq<char>)
    ensures
        is_spaced(spaced(s)),
        is_spaced(s) ==> spaced(s) == s,
        spaced(spaced(s)) == spaced(s),
{
    words_are_words(s);
    joined_words_are_spaced(words(s));
    lemma_spaced(spaced(s));
    if is_spaced(s) {
        lemma_spaced(s);
    }
}

/// Nothing is left of a text by trimming exactly if it consists of what is cut
/// off.
pub proof fn trimmed_text_is_empty(s: Seq<char>, class: CharClass)
    ensures
        trimmed(s, class).len() == 0 <==> forall|i: int|
            0 <= i < s.len() ==> class.has(#[trigger] s[i]),
{
    lemma_trim_start_cuts(s, class);
    let front = trim_start(s, class);
    lemma_trim_end_cuts(front, class);
    if forall|i: int| 0 <= i < s.len() ==> class.has(#[trigger] s[i]) {
        lemma_trim_start(s, class);
        if front.len() > 0 {
            assert(front[0] == s[s.len() - front.len()]);
        }
    } else if trimmed(s, class).len() == 0 {
        let i = choose|i: int| 0 <= i < s.len() && !class.has(#[trigger] s[i]);
        if i >= s.len() - front.len() {
            assert(front[i - (s.len() - front.len())] == s[i]);
        }
    }
}

proof fn lemma_trim_start_cuts(s: Seq<char>, class: CharClass)
    ensures
        trim_start(s, class).len() <= s.len(),
        trim_start(s, class) == s.skip(s.len() - trim_start(s, class).len()),
        forall|i: int|
            0 <= i < s.len() - trim_start(s, class).len() ==> class.has(#[trigger] s[i]),
    decreases s.len(),
{
    if s.len() > 0 && class.has(s[0]) {
        let rest = s.drop_first();
        lemma_trim_start_cuts(rest, class);
        let cut = s.len() - trim_start(s, class).len();
        assert(rest.skip(cut - 1) =~= s.skip(cut));
        assert forall|i: int| 0 <= i < cut implies class.has(#[trigger] s[i]) by {
            if i > 0 {
                assert(rest[i - 1] == s[i]);
            }
        }
    } else {
        assert(s.skip(0) =~= s);
    }
}

proof fn lemma_trim_end_cuts(s: Seq<char>, class: CharClass)
    ensures
        trim_end(s, class).len() <= s.len(),
        trim_end(s, class) == s.take(trim_end(s, class).len() as int),
        forall|i: int| trim_end(s, class).len() <= i < s.len() ==> class.has(#[trigger] s[i]),
    decreases s.len(),
{
    if s.len() > 0 && class.has(s.last()) {
        let rest = s.drop_last();
        lemma_trim_end_cuts(rest, class);
        let kept = trim_end(s, class).len() as int;
        assert(rest.take(kept) =~= s.take(kept));
        assert forall|i: int| kept <= i < s.len() implies class.has(#[trigger] s[i]) by {
            if i < s.len() - 1 {
                assert(rest[i] == s[i]);
            }
        }
    } else {
        assert(s.take(s.len() as int) =~= s);
    }
}

/// A trimmed text is a run of neighbouring characters of the text.
pub proof fn trimmed_text_is_a_part(s: Seq<char>, class: CharClass) -> (from: int)
    ensures
        0 <= from,
        from + trimmed(s, class).len() <= s.len(),
        trimmed(s, class) == s.subrange(from, from + trimmed(s, class).len()),
{
    lemma_trim_start_cuts(s, class);
    let front = trim_start(s, class);
    lemma_trim_end_cuts(front, class);
    let from = s.len() - front.len();
    assert(trimmed(s, class) =~= s.subrange(from, from + trimmed(s, class).len()));
    from
}

// ---------------------------------------------------------------------------
// Splitting and joining
// ---------------------------------------------------------------------------

pub open spec fn none_holds(parts: Seq<Seq<char>>, c: char) -> bool {
    forall|i: int| 0 <= i < parts.len() ==> !(#[trigger] parts[i]).contains(c)
}

/// The parts of a text do not hold the separator, and make the text when they
/// are joined by it.
pub proof fn split_text_is_joined_again(s: Seq<char>, separator: char)
    ensures
        split_on(s, separator).len() > 0,
        none_holds(split_on(s, separator), separator),
        join(split_on(s, separator), seq![separator]) == s,
    decreases s.len(),
{
    if s.len() == 0 {
        assert(s =~= Seq::empty());
    } else {
        let shorter = s.drop_last();
        let before = split_on(shorter, separator);
        split_text_is_joined_again(shorter, separator);
        let c = s.last();
        let parts = split_on(s, separator);
        assert(shorter.push(c) =~= s);
        if c == separator {
            assert(parts.drop_last() =~= before);
            assert forall|i: int| 0 <= i < parts.len() implies !(#[trigger] parts[i]).contains(
                separator,
            ) by {
                if i < before.len() {
                    assert(parts[i] == before[i]);
                }
            }
            assert(shorter + seq![separator] + Seq::<char>::empty() =~= s);
        } else {
            assert(parts.drop_last() =~= before.drop_last());
            assert forall|i: int| 0 <= i < parts.len() implies !(#[trigger] parts[i]).contains(
                separator,
            ) by {
                if i < parts.len() - 1 {
                    assert(parts[i] == before[i]);
                } else {
                    assert(!before[before.len() - 1].contains(separator));
                    lemma_in_pushed_text(before.last(), c, separator);
                }
            }
            if before.len() == 1 {
                assert(parts[0] == before[0].push(c));
            } else {
                assert(join(parts, seq![separator]) =~= shorter.push(c));
            }
        }
    }
}

proof fn lemma_split_behind(s: Seq<char>, part: Seq<char>, separator: char)
    requires
        !part.contains(separator),
    ensures
        split_on(s + seq![separator] + part, separator) == split_on(s, separator).push(part),
        split_on(part, separator) == seq![part],
    decreases part.len(),
{
    let whole = s + seq![separator] + part;
    if part.len() == 0 {
        assert(whole.drop_last() =~= s);
        assert(part =~= Seq::empty());
    } else {
        let shorter = part.drop_last();
        if shorter.contains(separator) {
            let i = choose|i: int| 0 <= i < shorter.len() && shorter[i] == separator;
            assert(part[i] == separator);
        }
        lemma_split_behind(s, shorter, separator);
        assert(whole.drop_last() =~= s + seq![separator] + shorter);
        assert(whole.last() == part[part.len() - 1]);
        assert(part[part.len() - 1] != separator);
        assert(split_on(s, separator).push(shorter).drop_last() =~= split_on(s, separator));
        assert(shorter.push(part.last()) =~= part);
        assert(seq![shorter].drop_last().push(part) =~= seq![part]);
    }
}

/// Parts without the separator are found again in the text that they make when
/// they are joined by it.
pub proof fn joined_parts_are_found_again(parts: Seq<Seq<char>>, separator: char)
    requires
        parts.len() > 0,
        none_holds(parts, separator),
    ensures
        split_on(join(parts, seq![separator]), separator) == parts,
    decreases parts.len(),
{
    if parts.len() == 1 {
        lemma_split_behind(Seq::empty(), parts[0], separator);
        assert(seq![parts[0]] =~= parts);
    } else {
        let before = parts.drop_last();
        assert forall|i: int| 0 <= i < before.len() implies !(#[trigger] before[i]).contains(
            separator,
        ) by {
            assert(before[i] == parts[i]);
        }
        joined_parts_are_found_again(before, separator);
        assert(!parts[parts.len() - 1].contains(separator));
        lemma_split_behind(join(before, seq![separator]), parts.last(), separator);
        assert(before.push(parts.last()) =~= parts);
    }
}

/// The ASCII letters of joined parts are lowered part by part.
pub proof fn joined_parts_are_lowered(parts: Seq<Seq<char>>, separator: char)
    requires
        !is_upper(separator),
    ensures
        ascii_lower(join(parts, seq![separator])) == join(
            parts.map_values(|p: Seq<char>| ascii_lower(p)),
            seq![separator],
        ),
    decreases parts.len(),
{
    let lowered = parts.map_values(|p: Seq<char>| ascii_lower(p));
    if parts.len() == 0 {
        assert(ascii_lower(join(parts, seq![separator])) =~= Seq::empty());
    } else if parts.len() > 1 {
        let before = parts.drop_last();
        joined_parts_are_lowered(before, separator);
        assert(before.map_values(|p: Seq<char>| ascii_lower(p)) =~= lowered.drop_last());
        assert(ascii_lower(join(parts, seq![separator])) =~= join(lowered, seq![separator]));
    }
}

} // verus!
