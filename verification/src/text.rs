//! Texts: putting them together, taking them apart, and reading numbers from them.
use vstd::prelude::*;
use vstd::string::{StrSliceExecFns, StringExecFns};
use crate::order::{Linear, Rank, Ranked, rank_texts};

verus! {

/// One text after the other.
pub fn cat(a: &str, b: &str) -> (r: String)
    ensures
        r@ == a@ + b@,
{
    let mut out = a.to_owned();
    out.append(b);
    out
}

/// Three texts, one after the other.
pub fn cat3(a: &str, b: &str, c: &str) -> (r: String)
    ensures
        r@ == a@ + b@ + c@,
{
    let mut out = cat(a, b);
    out.append(c);
    out
}

/// Whether two texts are the same.
pub fn text_is(a: &str, b: &str) -> (r: bool)
    ensures
        r == (a@ == b@),
{
    let outcome = rank_texts(a, b);
    proof {
        <String as Ranked>::rank_reflexive(a@);
        if outcome == Rank::Equal {
            <String as Linear>::rank_separates(a@, b@);
        }
    }
    matches!(outcome, Rank::Equal)
}

/// The character of a decimal digit.
pub open spec fn digit(d: int) -> char {
    (('0' as int) + d) as char
}

/// A natural number in decimal digits.
pub open spec fn digits(n: nat) -> Seq<char>
    decreases n,
{
    if n < 10 {
        seq![digit(n as int)]
    } else {
        digits(n / 10).push(digit((n % 10) as int))
    }
}

/// An integer in decimal digits, with a minus sign where it is negative.
pub open spec fn decimal(n: int) -> Seq<char> {
    if n < 0 {
        seq!['-'] + digits((-n) as nat)
    } else {
        digits(n as nat)
    }
}

fn digit_text(d: u64) -> (r: &'static str)
    requires
        d < 10,
    ensures
        r@ == seq![digit(d as int)],
{
    proof {
        reveal_strlit("0");
        reveal_strlit("1");
        reveal_strlit("2");
        reveal_strlit("3");
        reveal_strlit("4");
        reveal_strlit("5");
        reveal_strlit("6");
        reveal_strlit("7");
        reveal_strlit("8");
        reveal_strlit("9");
    }
    let r = match d {
        0 => "0",
        1 => "1",
        2 => "2",
        3 => "3",
        4 => "4",
        5 => "5",
        6 => "6",
        7 => "7",
        8 => "8",
        _ => "9",
    };
    assert(r@ =~= seq![digit(d as int)]);
    r
}

fn digits_text(n: u64) -> (r: String)
    ensures
        r@ == digits(n as nat),
    decreases n,
{
    if n < 10 {
        digit_text(n).to_owned()
    } else {
        let mut out = digits_text(n / 10);
        out.append(digit_text(n % 10));
        assert(out@ =~= digits(n as nat));
        out
    }
}

/// Writes an integer in decimal digits.
pub fn decimal_text(n: i64) -> (r: String)
    requires
        n > i64::MIN,
    ensures
        r@ == decimal(n as int),
{
    if n < 0 {
        proof {
            reveal_strlit("-");
        }
        let m: i64 = 0 - n;
        let out = cat("-", digits_text(m as u64).as_str());
        assert("-"@ =~= seq!['-']);
        out
    } else {
        digits_text(n as u64)
    }
}

/// Writes a count in decimal digits.
pub fn count_text(n: usize) -> (r: String)
    ensures
        r@ == decimal(n as int),
{
    digits_text(n as u64)
}

/// The text in lower case.
pub uninterp spec fn lowercase(text: Seq<char>) -> Seq<char>;

/// The text in upper case.
pub uninterp spec fn uppercase(text: Seq<char>) -> Seq<char>;

/// A character with an ASCII capital made small.
pub open spec fn ascii_small(c: char) -> char {
    if 'A' <= c <= 'Z' {
        ((c as int) + 32) as char
    } else {
        c
    }
}

/// A character with a small ASCII letter made a capital.
pub open spec fn ascii_capital(c: char) -> char {
    if 'a' <= c <= 'z' {
        ((c as int) - 32) as char
    } else {
        c
    }
}

/// `str::to_lowercase`: the result is a function of the text, and on ASCII text it exchanges each
/// capital for the small letter and keeps all else.
#[verifier::external_body]
pub(crate) fn to_lowercase(text: &str) -> (r: String)
    ensures
        r@ == lowercase(text@),
        vstd::string::is_ascii(text) ==> r@ == text@.map_values(|c: char| ascii_small(c)),
{
    text.to_lowercase()
}

/// `str::to_uppercase`: the result is a function of the text, and on ASCII text it exchanges each
/// small letter for the capital and keeps all else.
#[verifier::external_body]
pub(crate) fn to_uppercase(text: &str) -> (r: String)
    ensures
        r@ == uppercase(text@),
        vstd::string::is_ascii(text) ==> r@ == text@.map_values(|c: char| ascii_capital(c)),
{
    text.to_uppercase()
}

/// The text without the slashes at its end.
pub open spec fn without_end_slashes(text: Seq<char>) -> Seq<char>
    decreases text.len(),
{
    if text.len() > 0 && text.last() == '/' {
        without_end_slashes(text.drop_last())
    } else {
        text
    }
}

/// A path as it is matched: longer than one character, it loses the slashes at its end.
pub open spec fn trimmed_path(text: Seq<char>) -> Seq<char> {
    if text.len() > 1 {
        without_end_slashes(text)
    } else {
        text
    }
}

/// Computes `trimmed_path`.
pub fn trim_path(text: &str) -> (r: String)
    ensures
        r@ == trimmed_path(text@),
{
    let mut n: usize = text.unicode_len();
    if n <= 1 {
        return text.to_owned();
    }
    assert(text@.take(n as int) =~= text@);
    while n > 0 && text.get_char(n - 1) == '/'
        invariant
            n <= text@.len(),
            without_end_slashes(text@) == without_end_slashes(text@.take(n as int)),
        decreases n,
    {
        assert(text@.take(n as int).drop_last() =~= text@.take(n - 1));
        n = n - 1;
    }
    assert(text@.take(n as int) =~= text@.subrange(0, n as int));
    text.substring_char(0, n).to_owned()
}

/// The pieces of a text between the places where a separator stands.
pub open spec fn pieces(text: Seq<char>, separator: char) -> Seq<Seq<char>>
    decreases text.len(),
{
    if text.len() == 0 {
        seq![Seq::empty()]
    } else {
        let before = pieces(text.drop_last(), separator);
        if text.last() == separator {
            before.push(Seq::empty())
        } else {
            before.drop_last().push(before.last().push(text.last()))
        }
    }
}

/// Splits a text at a separator.
pub fn split(text: &str, separator: char) -> (r: Vec<String>)
    ensures
        r.deep_view() == pieces(text@, separator),
{
    let n: usize = text.unicode_len();
    let mut out: Vec<String> = Vec::new();
    let mut start: usize = 0;
    let mut i: usize = 0;
    let ghost mut done: Seq<Seq<char>> = Seq::empty();
    assert(text@.take(0) =~= Seq::<char>::empty());
    assert(text@.subrange(0, 0) =~= Seq::<char>::empty());
    assert(done.push(text@.subrange(0, 0)) =~= pieces(text@.take(0), separator));
    assert(out.deep_view() =~= done);
    while i < n
        invariant
            start <= i <= n,
            n == text@.len(),
            out.deep_view() == done,
            done.push(text@.subrange(start as int, i as int)) == pieces(
                text@.take(i as int),
                separator,
            ),
        decreases n - i,
    {
        let c = text.get_char(i);
        let ghost piece = text@.subrange(start as int, i as int);
        assert(text@.take(i + 1).drop_last() =~= text@.take(i as int));
        assert(done.push(piece).drop_last() =~= done);
        if c == separator {
            let token = text.substring_char(start, i).to_owned();
            out.push(token);
            proof {
                assert(out.deep_view() =~= done.push(piece));
                done = done.push(piece);
            }
            start = i + 1;
            assert(text@.subrange(start as int, i + 1) =~= Seq::<char>::empty());
        } else {
            assert(text@.subrange(start as int, i + 1) =~= piece.push(c));
        }
        i = i + 1;
    }
    let token = text.substring_char(start, n).to_owned();
    out.push(token);
    assert(text@.take(n as int) =~= text@);
    assert(out.deep_view() =~= done.push(text@.subrange(start as int, n as int)));
    out
}

/// Whether a character is a decimal digit.
pub open spec fn is_digit(c: char) -> bool {
    '0' <= c <= '9'
}

/// The number that a sequence of digits spells.
pub open spec fn number(text: Seq<char>) -> nat
    decreases text.len(),
{
    if text.len() == 0 {
        0
    } else {
        number(text.drop_last()) * 10 + ((text.last() as int) - ('0' as int)) as nat
    }
}

/// A text without the plus sign at its start.
pub open spec fn unsigned_part(text: Seq<char>) -> Seq<char> {
    if text.len() > 0 && text[0] == '+' {
        text.skip(1)
    } else {
        text
    }
}

/// Whether a text holds digits alone.
pub open spec fn all_digits(text: Seq<char>) -> bool {
    forall|i: int| 0 <= i < text.len() ==> is_digit(#[trigger] text[i])
}

/// The unsigned number of 32 bits that a text spells: digits, at least one, that may stand behind a
/// plus sign.
pub open spec fn read_u32(text: Seq<char>) -> Option<u32> {
    let ds = unsigned_part(text);
    if ds.len() > 0 && all_digits(ds) && number(ds) <= u32::MAX {
        Some(number(ds) as u32)
    } else {
        None
    }
}

proof fn number_grows(text: Seq<char>, n: int)
    requires
        0 <= n <= text.len(),
    ensures
        number(text.take(n)) <= number(text),
    decreases text.len(),
{
    if n < text.len() {
        number_grows(text.drop_last(), n);
        assert(text.drop_last().take(n) =~= text.take(n));
    } else {
        assert(text.take(n) =~= text);
    }
}

/// Computes `read_u32`.
pub fn parse_u32(text: &str) -> (r: Option<u32>)
    ensures
        r == read_u32(text@),
{
    let n: usize = text.unicode_len();
    let mut i: usize = 0;
    if n > 0 && text.get_char(0) == '+' {
        i = 1;
    }
    let ghost start: int = i as int;
    let ghost ds = text@.skip(start);
    assert(start == 0 ==> ds =~= text@);
    if i == n {
        return None;
    }
    let mut value: u64 = 0;
    assert(ds.take(0) =~= Seq::<char>::empty());
    while i < n
        invariant
            0 <= start <= i <= n,
            start < n,
            n == text@.len(),
            ds == text@.skip(start),
            ds == unsigned_part(text@),
            forall|j: int| 0 <= j < i - start ==> is_digit(#[trigger] ds[j]),
            value == number(ds.take(i - start)),
            value <= u32::MAX,
        decreases n - i,
    {
        let c = text.get_char(i);
        assert(ds[i - start] == c);
        if !('0' <= c && c <= '9') {
            assert(!is_digit(ds[i - start]));
            return None;
        }
        let d: u64 = (c as u64) - ('0' as u64);
        value = value * 10 + d;
        assert(ds.take(i + 1 - start).drop_last() =~= ds.take(i - start));
        i = i + 1;
        if value > 0xffff_ffff {
            proof {
                number_grows(ds, i - start);
            }
            return None;
        }
    }
    assert(ds.take(n - start) =~= ds);
    Some(value as u32)
}

/// A number in decimal digits reads back as the number, and holds digits alone. A negative number is
/// its opposite behind a minus sign.
pub proof fn law_digits_read_back(n: nat)
    ensures
        number(digits(n)) == n,
        all_digits(digits(n)),
        digits(n).len() > 0,
        n > 0 ==> digits(n)[0] != '0',
        decimal(n as int) == digits(n),
        n > 0 ==> decimal(-n) == seq!['-'] + decimal(n as int),
    decreases n,
{
    if n < 10 {
        let one = digits(n);
        assert(one.drop_last() =~= Seq::<char>::empty());
        assert(one.last() == digit(n as int));
        assert(number(one.drop_last()) == 0);
    } else {
        law_digits_read_back(n / 10);
        let all = digits(n);
        assert(all.drop_last() =~= digits(n / 10));
        assert(all.last() == digit((n % 10) as int));
        assert(number(all) == number(all.drop_last()) * 10 + (n % 10));
        assert(n == (n / 10) * 10 + n % 10);
    }
}

/// The number that digits spell is read where it fits in 32 bits, with or without a plus sign before
/// it. A text with anything else in it spells none.
pub proof fn law_number_is_read(n: u32, text: Seq<char>)
    ensures
        read_u32(decimal(n as int)) == Some(n),
        read_u32(seq!['+'] + decimal(n as int)) == Some(n),
        text.len() == 0 ==> read_u32(text) is None,
        text == seq!['+'] ==> read_u32(text) is None,
        forall|i: int|
            0 <= i < text.len() && !is_digit(#[trigger] text[i]) && !(i == 0 && text[i] == '+')
                ==> read_u32(text) is None,
{
    law_digits_read_back(n as nat);
    let ds = digits(n as nat);
    assert(is_digit(ds[0]));
    assert((seq!['+'] + ds).skip(1) =~= ds);
    assert(seq!['+'].skip(1) =~= Seq::<char>::empty());
    assert forall|i: int|
        0 <= i < text.len() && !is_digit(#[trigger] text[i]) && !(i == 0 && text[i] == '+') implies read_u32(
        text,
    ) is None by {
        if text[0] == '+' {
            assert(text.skip(1)[i - 1] == text[i]);
        }
    }
}

/// A path that is longer than one character loses the slashes at its end, all of them and nothing else;
/// a shorter one is kept.
pub proof fn law_path_is_trimmed(text: Seq<char>)
    ensures
        text.len() <= 1 ==> trimmed_path(text) == text,
        trimmed_path(text).len() <= text.len(),
        trimmed_path(text) == text.take(trimmed_path(text).len() as int),
        forall|i: int| trimmed_path(text).len() <= i < text.len() ==> #[trigger] text[i] == '/',
        text.len() > 1 && trimmed_path(text).len() > 0 ==> trimmed_path(text).last() != '/',
{
    slashes_are_left_out(text);
    assert(text.take(text.len() as int) =~= text);
}

proof fn slashes_are_left_out(text: Seq<char>)
    ensures
        without_end_slashes(text).len() <= text.len(),
        without_end_slashes(text) == text.take(without_end_slashes(text).len() as int),
        forall|i: int|
            without_end_slashes(text).len() <= i < text.len() ==> #[trigger] text[i] == '/',
        without_end_slashes(text).len() > 0 ==> without_end_slashes(text).last() != '/',
    decreases text.len(),
{
    if text.len() > 0 && text.last() == '/' {
        let shorter = text.drop_last();
        slashes_are_left_out(shorter);
        let n = without_end_slashes(text).len();
        assert(shorter.take(n as int) =~= text.take(n as int));
        assert forall|i: int| n <= i < text.len() implies #[trigger] text[i] == '/' by {
            if i < shorter.len() {
                assert(shorter[i] == text[i]);
            }
        }
    } else {
        assert(text.take(text.len() as int) =~= text);
    }
}

/// A text is split at each separator: two texts with a separator between them have the pieces of the
/// one and then those of the other, and a text without a separator is one piece.
pub proof fn law_text_is_split(first: Seq<char>, second: Seq<char>, separator: char)
    ensures
        pieces(first + seq![separator] + second, separator) == pieces(first, separator) + pieces(
            second,
            separator,
        ),
        !first.contains(separator) ==> pieces(first, separator) == seq![first],
        pieces(first, separator).len() > 0,
    decreases second.len(), first.len(),
{
    pieces_are_some(first, separator);
    if second.len() == 0 {
        let both = first + seq![separator] + second;
        assert(both.drop_last() =~= first);
        assert(both.last() == separator);
        assert(pieces(both, separator) =~= pieces(first, separator) + pieces(second, separator));
    } else {
        let both = first + seq![separator] + second;
        law_text_is_split(first, second.drop_last(), separator);
        pieces_are_some(second.drop_last(), separator);
        assert(both.drop_last() =~= first + seq![separator] + second.drop_last());
        assert(both.last() == second.last());
        assert(pieces(both, separator) =~= pieces(first, separator) + pieces(second, separator));
    }
    if !first.contains(separator) {
        whole_is_one_piece(first, separator);
    }
}

proof fn pieces_are_some(text: Seq<char>, separator: char)
    ensures
        pieces(text, separator).len() > 0,
    decreases text.len(),
{
    if text.len() > 0 {
        pieces_are_some(text.drop_last(), separator);
    }
}

proof fn whole_is_one_piece(text: Seq<char>, separator: char)
    requires
        !text.contains(separator),
    ensures
        pieces(text, separator) == seq![text],
    decreases text.len(),
{
    if text.len() > 0 {
        let shorter = text.drop_last();
        assert forall|i: int| 0 <= i < shorter.len() implies shorter[i] != separator by {
            assert(text[i] == shorter[i]);
            assert(text.contains(text[i]));
        }
        whole_is_one_piece(shorter, separator);
        assert(text.contains(text[text.len() - 1]));
        assert(text =~= shorter.push(text.last()));
        assert(pieces(text, separator) =~= seq![text]);
    } else {
        assert(text =~= Seq::<char>::empty());
    }
}

/// ASCII letters have a small and a capital form, and each leads back to the other. All other characters
/// stay as they are.
pub proof fn law_ascii_letters(c: char)
    ensures
        'a' <= c <= 'z' ==> 'A' <= ascii_capital(c) <= 'Z' && ascii_small(ascii_capital(c)) == c
            && ascii_small(c) == c,
        'A' <= c <= 'Z' ==> 'a' <= ascii_small(c) <= 'z' && ascii_capital(ascii_small(c)) == c
            && ascii_capital(c) == c,
        !('a' <= c <= 'z') && !('A' <= c <= 'Z') ==> ascii_small(c) == c && ascii_capital(c) == c,
        ascii_capital('a') == 'A' && ascii_small('Z') == 'z',
{
}

} // verus!
