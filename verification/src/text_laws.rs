//! What is done to texts: laws on trimming, on numbers, on the case of letters,
//! on the order of texts and on keys.

use vstd::prelude::*;

use crate::paths::{is_below, is_excluded, keys_of, path_key, ResolvedPath};
use crate::pattern::{group, Captures, Found};
use crate::text::{
    all_ascii, all_digits, ascii_lower, ascii_upper, decimal, decimal_nat, digit_char,
    digits_value, is_digit, is_word, join, joined_words_are_found_again, lower_char, number_of,
    opt_text, padded, swapped, text_le, texts, trim_end, trim_start, trimmed, upper_char,
    CharClass,
};
use crate::titles::{lower_key, marked, title_key};
use crate::unicode::{alphanumeric, lowercase, uppercase};

verus! {

// ---------------------------------------------------------------------------
// Characters
// ---------------------------------------------------------------------------

/// What is cut off the ends of a title is `-`, `.`, `_` and the space, and off
/// the ends of a release group `.`, `_` and `-`.
pub proof fn edges_are_separators(c: char)
    ensures
        CharClass::TitleEdge.has(c) <==> c == '-' || c == '.' || c == '_' || c == ' ',
        CharClass::GroupEdge.has(c) <==> c == '-' || c == '.' || c == '_',
{
}

/// Blanks, tabs and the ends of lines are white space; letters, digits and
/// punctuation of ASCII are not.
pub proof fn blanks_are_white_space(c: char)
    ensures
        CharClass::Space.has(' '),
        CharClass::Space.has('\t'),
        CharClass::Space.has('\n'),
        CharClass::Space.has('\r'),
        CharClass::Space.has('\u{a0}'),
        CharClass::Space.has('\u{3000}'),
        '!' <= c <= '~' ==> !CharClass::Space.has(c),
{
}

/// Letters of ASCII have their case changed, each to the same letter of the
/// other case, and nothing else changes.
pub proof fn letters_change_their_case(s: Seq<char>, i: int)
    requires
        0 <= i < s.len(),
    ensures
        ascii_lower(s).len() == s.len(),
        ascii_upper(s).len() == s.len(),
        'A' <= s[i] <= 'Z' ==> ascii_lower(s)[i] as int - 'a' as int == s[i] as int - 'A' as int,
        !('A' <= s[i] <= 'Z') ==> ascii_lower(s)[i] == s[i],
        'a' <= s[i] <= 'z' ==> ascii_upper(s)[i] as int - 'A' as int == s[i] as int - 'a' as int,
        !('a' <= s[i] <= 'z') ==> ascii_upper(s)[i] == s[i],
{
    assert(ascii_lower(s)[i] == lower_char(s[i]));
    assert(ascii_upper(s)[i] == upper_char(s[i]));
}

/// A character is put in the place of each other one and nothing else changes.
pub proof fn characters_are_swapped(s: Seq<char>, from: char, to: char, i: int)
    requires
        0 <= i < s.len(),
    ensures
        swapped(s, from, to).len() == s.len(),
        s[i] == from ==> swapped(s, from, to)[i] == to,
        s[i] != from ==> swapped(s, from, to)[i] == s[i],
{
}

// ---------------------------------------------------------------------------
// Trimming
// ---------------------------------------------------------------------------

proof fn lemma_trim_before(before: Seq<char>, core: Seq<char>, class: CharClass)
    requires
        forall|i: int| 0 <= i < before.len() ==> class.has(#[trigger] before[i]),
        core.len() > 0,
        !class.has(core[0]),
    ensures
        trim_start(before + core, class) == core,
    decreases before.len(),
{
    if before.len() == 0 {
        assert(before + core =~= core);
    } else {
        let rest = before.drop_first();
        assert((before + core)[0] == before[0]);
        assert((before + core).drop_first() =~= rest + core);
        assert forall|i: int| 0 <= i < rest.len() implies class.has(#[trigger] rest[i]) by {
            assert(rest[i] == before[i + 1]);
        }
        lemma_trim_before(rest, core, class);
    }
}

proof fn lemma_trim_behind(core: Seq<char>, behind: Seq<char>, class: CharClass)
    requires
        forall|i: int| 0 <= i < behind.len() ==> class.has(#[trigger] behind[i]),
        core.len() > 0,
        !class.has(core.last()),
    ensures
        trim_end(core + behind, class) == core,
    decreases behind.len(),
{
    if behind.len() == 0 {
        assert(core + behind =~= core);
    } else {
        let rest = behind.drop_last();
        assert((core + behind).last() == behind[behind.len() - 1]);
        assert((core + behind).drop_last() =~= core + rest);
        assert forall|i: int| 0 <= i < rest.len() implies class.has(#[trigger] rest[i]) by {
            assert(rest[i] == behind[i]);
        }
        lemma_trim_behind(core, rest, class);
    }
}

/// Trimming cuts off what is to be cut off at both ends, and nothing else.
pub proof fn trimming_leaves_the_core(
    before: Seq<char>,
    core: Seq<char>,
    behind: Seq<char>,
    class: CharClass,
)
    requires
        forall|i: int| 0 <= i < before.len() ==> class.has(#[trigger] before[i]),
        forall|i: int| 0 <= i < behind.len() ==> class.has(#[trigger] behind[i]),
        core.len() > 0,
        !class.has(core[0]),
        !class.has(core.last()),
    ensures
        trimmed(before + core + behind, class) == core,
{
    assert(before + core + behind =~= before + (core + behind));
    assert((core + behind)[0] == core[0]);
    lemma_trim_before(before, core + behind, class);
    lemma_trim_behind(core, behind, class);
}

// ---------------------------------------------------------------------------
// Numbers
// ---------------------------------------------------------------------------

proof fn lemma_decimal(n: nat)
    ensures
        decimal_nat(n).len() > 0,
        all_digits(decimal_nat(n)),
        digits_value(decimal_nat(n)) == n,
        n > 0 ==> decimal_nat(n)[0] != '0',
    decreases n,
{
    let last = digit_char((n % 10) as int);
    assert(is_digit(last));
    assert(last as u32 - '0' as u32 == n % 10);
    if n < 10 {
        let s = seq![last];
        assert(decimal_nat(n) =~= s);
        assert(s.drop_last() =~= Seq::empty());
        assert(digits_value(Seq::empty()) == 0);
        assert(digits_value(s) == n);
    } else {
        lemma_decimal(n / 10);
        let s = decimal_nat(n / 10).push(last);
        assert(s.drop_last() =~= decimal_nat(n / 10));
        assert(n == (n / 10) * 10 + n % 10);
        assert forall|i: int| 0 <= i < s.len() implies is_digit(#[trigger] s[i]) by {
            if i < s.len() - 1 {
                assert(s[i] == decimal_nat(n / 10)[i]);
            }
        }
    }
}

/// A number in decimals is read again as the number, and has no leading zeros.
pub proof fn decimals_are_read_again(n: i64)
    ensures
        number_of(decimal(n as int)) == Some(n),
        n > 0 ==> decimal(n as int)[0] != '0',
        n < 0 ==> decimal(n as int)[0] == '-' && decimal(n as int)[1] != '0',
{
    if n < 0 {
        let digits = decimal_nat((-(n as int)) as nat);
        lemma_decimal((-(n as int)) as nat);
        let s = decimal(n as int);
        assert(s[0] == '-');
        assert(s.drop_first() =~= digits);
    } else {
        lemma_decimal(n as nat);
        let s = decimal(n as int);
        assert(is_digit(s[0]));
    }
}

proof fn lemma_zeros(count: nat, digits: Seq<char>)
    requires
        all_digits(digits),
    ensures
        digits_value(Seq::new(count, |i: int| '0') + digits) == digits_value(digits),
        all_digits(Seq::new(count, |i: int| '0') + digits),
    decreases digits.len(), count,
{
    let zeros = Seq::new(count, |i: int| '0');
    let s = zeros + digits;
    if digits.len() > 0 {
        let rest = digits.drop_last();
        assert(s.drop_last() =~= zeros + rest);
        assert(s.last() == digits.last());
        assert forall|i: int| 0 <= i < rest.len() implies is_digit(#[trigger] rest[i]) by {
            assert(rest[i] == digits[i]);
        }
        lemma_zeros(count, rest);
        assert(is_digit(digits[digits.len() - 1]));
    } else if count > 0 {
        assert(s =~= zeros);
        assert(s.drop_last() =~= Seq::new((count - 1) as nat, |i: int| '0') + digits);
        lemma_zeros((count - 1) as nat, digits);
        assert(digits_value(s) == digits_value(s.drop_last()) * 10);
        assert(digits_value(Seq::<char>::empty()) == 0);
        assert(digits =~= Seq::empty());
    } else {
        assert(s =~= digits);
    }
    assert forall|i: int| 0 <= i < s.len() implies is_digit(#[trigger] s[i]) by {
        if i >= count {
            assert(s[i] == digits[i - count]);
        }
    }
}

/// A padded number has zeros in front up to its width, and is read again as the
/// number.
pub proof fn padded_numbers_have_their_width(n: i64, width: int)
    requires
        n >= 0,
        width >= 0,
    ensures
        number_of(padded(n as int, width)) == Some(n),
        decimal(n as int).len() <= width ==> padded(n as int, width).len() == width,
        decimal(n as int).len() >= width ==> padded(n as int, width) == decimal(n as int),
        forall|i: int|
            0 <= i < padded(n as int, width).len() - decimal(n as int).len() ==> #[trigger] padded(
                n as int,
                width,
            )[i] == '0',
{
    let digits = decimal_nat(n as nat);
    lemma_decimal(n as nat);
    let count = if width < digits.len() {
        0
    } else {
        (width - digits.len()) as nat
    };
    let s = padded(n as int, width);
    assert(s =~= Seq::new(count, |i: int| '0') + digits);
    lemma_zeros(count, digits);
    assert(is_digit(s[0]));
    if count == 0 {
        assert(s =~= digits);
    }
}

/// A text is a number if it consists of digits, with one sign in front or none,
/// and fits; the sign is that of the number.
pub proof fn signs_belong_to_numbers(digits: Seq<char>, other: Seq<char>)
    requires
        digits.len() > 0,
        all_digits(digits),
        digits_value(digits) <= i64::MAX,
    ensures
        number_of(digits) == Some(digits_value(digits) as i64),
        number_of(seq!['+'] + digits) == Some(digits_value(digits) as i64),
        number_of(seq!['-'] + digits) == Some((-(digits_value(digits) as int)) as i64),
        number_of(Seq::empty()) is None,
        !all_digits(other) && (other[0] != '-' && other[0] != '+') ==> number_of(other) is None,
{
    assert(is_digit(digits[0]));
    assert((seq!['+'] + digits).drop_first() =~= digits);
    assert((seq!['-'] + digits).drop_first() =~= digits);
}

// ---------------------------------------------------------------------------
// The order of texts
// ---------------------------------------------------------------------------

/// Texts are compared by the first character in which they differ, and what is
/// the beginning of another comes before it.
pub proof fn the_first_difference_decides(
    shared: Seq<char>,
    x: char,
    y: char,
    a: Seq<char>,
    b: Seq<char>,
)
    ensures
        x < y ==> text_le(shared + seq![x] + a, shared + seq![y] + b) && !text_le(
            shared + seq![y] + b,
            shared + seq![x] + a,
        ),
        text_le(shared, shared + a),
        a.len() > 0 ==> !text_le(shared + a, shared),
    decreases shared.len(),
{
    let first = shared + seq![x] + a;
    let second = shared + seq![y] + b;
    if shared.len() == 0 {
        assert(first[0] == x);
        assert(second[0] == y);
        assert(shared + a =~= a);
    } else {
        let rest = shared.drop_first();
        the_first_difference_decides(rest, x, y, a, b);
        assert(first.drop_first() =~= rest + seq![x] + a);
        assert(second.drop_first() =~= rest + seq![y] + b);
        assert((shared + a).drop_first() =~= rest + a);
        assert(first[0] == shared[0] && second[0] == shared[0] && (shared + a)[0] == shared[0]);
    }
}

// ---------------------------------------------------------------------------
// Keys
// ---------------------------------------------------------------------------

/// The key of a name is its runs of letters and digits, all of them in their
/// order and with a dash between neighbours.
pub proof fn keys_are_runs_with_dashes(runs: Seq<Seq<char>>)
    requires
        forall|i: int| 0 <= i < runs.len() ==> (#[trigger] runs[i]).len() > 0,
        forall|i: int, j: int|
            0 <= i < runs.len() && 0 <= j < runs[i].len() ==> alphanumeric(#[trigger] runs[i][j]),
    ensures
        lower_key(join(runs, seq![' '])) == join(runs, seq!['-']),
{
    let text = join(runs, seq![' ']);
    assert forall|i: int| 0 <= i < runs.len() implies is_word(#[trigger] runs[i]) by {
        assert forall|j: int| 0 <= j < runs[i].len() implies !crate::text::is_white_space(
            #[trigger] runs[i][j],
        ) by {
            assert(alphanumeric(runs[i][j]));
        }
    }
    joined_words_are_found_again(runs);
    assert(marked(text) =~= text) by {
        assert forall|k: int| 0 <= k < text.len() implies alphanumeric(text[k]) || text[k] == ' ' by {
            crate::text::joined_text_holds_the_parts(runs, ' ', text[k]);
            assert(text.contains(text[k]));
            if text[k] != ' ' {
                assert(crate::text::is_in_part(runs, text[k]));
                let i = choose|i: int|
                    0 <= i < runs.len() && (#[trigger] runs[i]).contains(text[k]);
                let j = choose|j: int| 0 <= j < runs[i].len() && runs[i][j] == text[k];
                assert(alphanumeric(runs[i][j]));
            }
        }
    }
}

/// Whatever stands between letters and digits does not matter for a key.
pub proof fn separators_do_not_matter(a: Seq<char>, b: Seq<char>)
    requires
        a.len() == b.len(),
        forall|i: int|
            0 <= i < a.len() ==> (#[trigger] a[i]) == b[i] || (!alphanumeric(a[i]) && !alphanumeric(
                b[i],
            )),
    ensures
        lower_key(a) == lower_key(b),
{
    assert(marked(a) =~= marked(b)) by {
        assert forall|i: int| 0 <= i < a.len() implies marked(a)[i] == marked(b)[i] by {
            assert(a[i] == b[i] || (!alphanumeric(a[i]) && !alphanumeric(b[i])));
        }
    }
}

/// The key of a name is that of the name in lower case. Of a name in ASCII this
/// is the name with its capitals made small.
pub proof fn keys_are_in_lower_case(name: Seq<char>)
    ensures
        title_key(name) == lower_key(lowercase(name)),
        all_ascii(name) ==> lowercase(name) == ascii_lower(name),
        all_ascii(name) ==> uppercase(name) == ascii_upper(name),
{
    reveal(lowercase);
    reveal(uppercase);
}

// ---------------------------------------------------------------------------
// Matches and lists
// ---------------------------------------------------------------------------

/// The groups of a match are told by their number, the whole match being the
/// first of them.
pub proof fn groups_have_their_number(found: Found, captures: Captures, i: int)
    ensures
        0 <= i < found.1.len() ==> group(found, i) == found.1[i],
        i < 0 || i >= found.1.len() ==> group(found, i) is None,
        captures@.0 == captures.before@,
        captures@.1.len() == captures.groups@.len(),
        0 <= i < captures.groups@.len() ==> captures@.1[i] == opt_text(captures.groups@[i]),
{
}

/// A list of texts and an optional text are what they hold.
pub proof fn texts_are_what_they_hold(list: Seq<String>, i: int, text: String)
    ensures
        texts(list).len() == list.len(),
        0 <= i < list.len() ==> texts(list)[i] == list[i]@,
        opt_text(Some(text)) == Some(text@),
        opt_text(None) is None,
{
}

// ---------------------------------------------------------------------------
// What a scan leaves out
// ---------------------------------------------------------------------------

/// A directory is left out if it is one of those that are to be left out or
/// lies below one of them, and no other is.
pub proof fn left_out_directories_are_excluded(
    paths: Seq<ResolvedPath>,
    key: Seq<char>,
    windows: bool,
)
    ensures
        is_excluded(key, keys_of(paths, windows)) <==> exists|i: int|
            0 <= i < paths.len() && trimmed((#[trigger] paths[i]).given@, CharClass::Space).len() > 0
                && (key == path_key(paths[i].resolved@, windows) || is_below(
                key,
                path_key(paths[i].resolved@, windows),
            )),
    decreases paths.len(),
{
    let keys = keys_of(paths, windows);
    if paths.len() > 0 {
        let rest = paths.drop_last();
        let before = keys_of(rest, windows);
        let last = paths[paths.len() - 1];
        left_out_directories_are_excluded(rest, key, windows);
        if trimmed(last.given@, CharClass::Space).len() > 0 {
            assert(keys[before.len() as int] == path_key(last.resolved@, windows));
        }
        if is_excluded(key, before) {
            let i = choose|i: int|
                0 <= i < before.len() && (key == #[trigger] before[i] || is_below(key, before[i]));
            assert(keys[i] == before[i]);
            let j = choose|j: int|
                0 <= j < rest.len() && trimmed((#[trigger] rest[j]).given@, CharClass::Space).len()
                    > 0 && (key == path_key(rest[j].resolved@, windows) || is_below(
                    key,
                    path_key(rest[j].resolved@, windows),
                ));
            assert(paths[j] == rest[j]);
        } else {
            assert forall|j: int|
                0 <= j < paths.len() - 1 && trimmed(
                    (#[trigger] paths[j]).given@,
                    CharClass::Space,
                ).len() > 0 implies key != path_key(paths[j].resolved@, windows) && !is_below(
                key,
                path_key(paths[j].resolved@, windows),
            ) by {
                assert(rest[j] == paths[j]);
            }
            if is_excluded(key, keys) {
                let i = choose|i: int|
                    0 <= i < keys.len() && (key == #[trigger] keys[i] || is_below(key, keys[i]));
                if i < before.len() {
                    assert(keys[i] == before[i]);
                }
                assert(i == before.len());
                assert(trimmed(last.given@, CharClass::Space).len() > 0);
            }
        }
    }
}

} // verus!
