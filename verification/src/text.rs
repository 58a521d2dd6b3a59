//! Text helpers on sequences of characters.

use vstd::prelude::*;

verus! {

/// The characters of a string, in order.
pub fn chars_of(s: &str) -> (chars: Vec<char>)
    ensures
        chars@ == s@,
{
    let mut chars: Vec<char> = Vec::new();
    for c in it: s.chars()
        invariant
            chars@ == it.seq().take(it.index() as int),
            it.seq() == s@,
    {
        chars.push(c);
        assert(chars@ =~= it.seq().take(it.index() + 1));
    }
    assert(chars@ =~= s@);
    chars
}

/// Calls `String::from_iter` on the characters, which makes the string that
/// holds them in order.
#[verifier::external_body]
pub(crate) fn string_of(chars: &[char]) -> (s: String)
    ensures
        s@ == chars@,
{
    String::from_iter(chars.iter())
}


/// Appends the characters of `s` to `out`.
pub fn push_str(out: &mut Vec<char>, s: &str)
    ensures
        final(out)@ == old(out)@ + s@,
{
    let ghost before = out@;
    for c in it: s.chars()
        invariant
            out@ == before + it.seq().take(it.index() as int),
            it.seq() == s@,
    {
        out.push(c);
        assert(out@ =~= before + it.seq().take(it.index() + 1));
    }
    assert(out@ =~= before + s@);
}

/// Appends the characters of `chars` to `out`.
pub fn push_chars(out: &mut Vec<char>, chars: &[char])
    ensures
        final(out)@ == old(out)@ + chars@,
{
    let ghost before = out@;
    let mut i: usize = 0;
    while i < chars.len()
        invariant
            i <= chars@.len(),
            out@ == before + chars@.take(i as int),
        decreases chars.len() - i,
    {
        out.push(chars[i]);
        i += 1;
        assert(out@ =~= before + chars@.take(i as int));
    }
    assert(chars@.take(i as int) =~= chars@);
}

/// The character of a decimal digit.
pub open spec fn spec_digit_char(d: int) -> char {
    if d == 0 {
        '0'
    } else if d == 1 {
        '1'
    } else if d == 2 {
        '2'
    } else if d == 3 {
        '3'
    } else if d == 4 {
        '4'
    } else if d == 5 {
        '5'
    } else if d == 6 {
        '6'
    } else if d == 7 {
        '7'
    } else if d == 8 {
        '8'
    } else {
        '9'
    }
}

/// The decimal digits of a natural number, without leading zeros.
pub open spec fn spec_digits(n: nat) -> Seq<char>
    decreases n,
{
    if n < 10 {
        seq![spec_digit_char(n as int)]
    } else {
        spec_digits(n / 10).push(spec_digit_char((n % 10) as int))
    }
}

/// The decimal text of an integer: a minus sign for a negative one, then the
/// digits of its magnitude.
pub open spec fn spec_decimal(n: int) -> Seq<char> {
    if n < 0 {
        seq!['-'] + spec_digits((-n) as nat)
    } else {
        spec_digits(n as nat)
    }
}

fn digit_char(d: u64) -> (c: char)
    requires
        d < 10,
    ensures
        c == spec_digit_char(d as int),
{
    if d == 0 {
        '0'
    } else if d == 1 {
        '1'
    } else if d == 2 {
        '2'
    } else if d == 3 {
        '3'
    } else if d == 4 {
        '4'
    } else if d == 5 {
        '5'
    } else if d == 6 {
        '6'
    } else if d == 7 {
        '7'
    } else if d == 8 {
        '8'
    } else {
        '9'
    }
}

/// The decimal digits of `n`.
pub fn digits(n: u64) -> (text: Vec<char>)
    ensures
        text@ == spec_digits(n as nat),
    decreases n,
{
    if n < 10 {
        let mut text: Vec<char> = Vec::new();
        text.push(digit_char(n));
        assert(text@ =~= seq![spec_digit_char(n as int)]);
        text
    } else {
        let mut text = digits(n / 10);
        text.push(digit_char(n % 10));
        text
    }
}

/// The decimal text of `n`.
pub fn decimal(n: i64) -> (text: Vec<char>)
    ensures
        text@ == spec_decimal(n as int),
{
    if n < 0 {
        let magnitude: u64 = ((-(n + 1)) as u64) + 1;
        let mut text: Vec<char> = Vec::new();
        text.push('-');
        let tail = digits(magnitude);
        push_chars(&mut text, tail.as_slice());
        assert(text@ =~= seq!['-'] + spec_digits((-n) as nat));
        text
    } else {
        digits(n as u64)
    }
}

/// The decimal digits of `n`, with zeros in front of fewer than four.
pub open spec fn spec_padded4(n: nat) -> Seq<char> {
    let text = spec_digits(n);
    if text.len() >= 4 {
        text
    } else {
        Seq::new((4 - text.len()) as nat, |i: int| '0') + text
    }
}

/// The decimal digits of `n`, padded with zeros to four characters.
pub fn padded4(n: u64) -> (text: Vec<char>)
    ensures
        text@ == spec_padded4(n as nat),
{
    let tail = digits(n);
    if tail.len() >= 4 {
        return tail;
    }
    let mut text: Vec<char> = Vec::new();
    let pad = 4 - tail.len();
    let mut i: usize = 0;
    while i < pad
        invariant
            i <= pad,
            text@ == Seq::new(i as nat, |k: int| '0'),
        decreases pad - i,
    {
        text.push('0');
        i += 1;
        assert(text@ =~= Seq::new(i as nat, |k: int| '0'));
    }
    push_chars(&mut text, tail.as_slice());
    text
}

/// The value of a character as a digit in `radix`, as `char::to_digit` gives it.
pub open spec fn spec_digit_value(c: char, radix: int) -> Option<int> {
    let v = if '0' <= c <= '9' {
        c as int - '0' as int
    } else if 'a' <= c <= 'z' {
        c as int - 'a' as int + 10
    } else if 'A' <= c <= 'Z' {
        c as int - 'A' as int + 10
    } else {
        radix
    };
    if v < radix {
        Some(v)
    } else {
        None
    }
}

/// The positional value of digits in `radix`; what is no digit counts as zero.
pub open spec fn spec_digits_value(text: Seq<char>, radix: int) -> int
    decreases text.len(),
{
    if text.len() == 0 {
        0
    } else {
        spec_digits_value(text.drop_last(), radix) * radix + match spec_digit_value(
            text.last(),
            radix,
        ) {
            Some(v) => v,
            None => 0,
        }
    }
}

/// Every character is a digit in `radix`.
pub open spec fn all_digits(text: Seq<char>, radix: int) -> bool {
    forall|i: int| 0 <= i < text.len() ==> spec_digit_value(#[trigger] text[i], radix) is Some
}

/// The `i32` that a text denotes in `radix`: an optional sign, then at least
/// one digit and nothing else, with a value that an `i32` can hold.
pub open spec fn spec_parse_i32(text: Seq<char>, radix: int) -> Option<i32> {
    let signed = text.len() > 0 && (text[0] == '-' || text[0] == '+');
    let body = if signed {
        text.drop_first()
    } else {
        text
    };
    let magnitude = spec_digits_value(body, radix);
    let value = if text.len() > 0 && text[0] == '-' {
        -magnitude
    } else {
        magnitude
    };
    if body.len() > 0 && all_digits(body, radix) && i32::MIN <= value <= i32::MAX {
        Some(value as i32)
    } else {
        None
    }
}

fn digit_value(c: char, radix: u32) -> (v: Option<u32>)
    requires
        2 <= radix <= 36,
    ensures
        match v {
            Some(d) => spec_digit_value(c, radix as int) == Some(d as int) && d < radix,
            None => spec_digit_value(c, radix as int) is None,
        },
{
    let code = c as u32;
    let d: u32 = if '0' <= c && c <= '9' {
        code - ('0' as u32)
    } else if 'a' <= c && c <= 'z' {
        code - ('a' as u32) + 10
    } else if 'A' <= c && c <= 'Z' {
        code - ('A' as u32) + 10
    } else {
        radix
    };
    if d < radix {
        Some(d)
    } else {
        None
    }
}

/// Parses an `i32` written in `radix`, as `i32::from_str_radix` reads it.
pub fn parse_i32(text: &[char], radix: u32) -> (value: Option<i32>)
    requires
        2 <= radix <= 36,
    ensures
        value == spec_parse_i32(text@, radix as int),
{
    if text.len() == 0 {
        return None;
    }
    let negative = text[0] == '-';
    let start: usize = if text[0] == '-' || text[0] == '+' {
        1
    } else {
        0
    };
    let ghost body = if start == 1 {
        text@.drop_first()
    } else {
        text@
    };
    if start == text.len() {
        return None;
    }
    let limit: u64 = 0x8000_0000;
    let mut acc: u64 = 0;
    let mut over = false;
    let mut i: usize = start;
    assert(body.take(0) =~= Seq::<char>::empty());
    while i < text.len()
        invariant
            start <= i <= text@.len(),
            start <= 1,
            2 <= radix <= 36,
            limit == 0x8000_0000,
            text@.len() > 0,
            (start == 1) == (text@[0] == '-' || text@[0] == '+'),
            body == if start == 1 {
                text@.drop_first()
            } else {
                text@
            },
            forall|k: int|
                0 <= k < i - start ==> spec_digit_value(#[trigger] body[k], radix as int) is Some,
            !over ==> acc == spec_digits_value(body.take(i - start), radix as int) && acc <= limit,
            over ==> spec_digits_value(body.take(i - start), radix as int) > limit,
        decreases text.len() - i,
    {
        let d = match digit_value(text[i], radix) {
            Some(d) => d,
            None => {
                assert(body[i - start] == text@[i as int]);
                assert(spec_digit_value(body[i - start], radix as int) is None);
                return None;
            },
        };
        proof {
            let prefix = body.take(i - start + 1);
            assert(prefix.drop_last() =~= body.take(i - start));
            assert(prefix.last() == text@[i as int]);
            let before = spec_digits_value(body.take(i - start), radix as int);
            assert(spec_digits_value(prefix, radix as int) == before * radix + d);
            if over {
                assert(before * radix >= before) by (nonlinear_arith)
                    requires
                        before > 0,
                        radix >= 2,
                ;
            }
        }
        if !over {
            assert(acc * radix + d <= 0x8000_0000 * 36 + 36) by (nonlinear_arith)
                requires
                    acc <= 0x8000_0000,
                    radix <= 36,
                    d < 36,
            ;
            let next = acc * (radix as u64) + (d as u64);
            if next > limit {
                over = true;
            } else {
                acc = next;
            }
        }
        i += 1;
    }
    assert(body.take(i - start) =~= body);
    if over {
        return None;
    }
    if negative {
        if acc == limit {
            Some(i32::MIN)
        } else {
            Some(-(acc as i32))
        }
    } else if acc == limit {
        None
    } else {
        Some(acc as i32)
    }
}


/// Whether a character has the Unicode property White_Space.
pub uninterp spec fn is_white_space(c: char) -> bool;

/// Calls `char::is_whitespace`, which tells whether the character has the
/// Unicode property White_Space.
#[verifier::external_body]
pub(crate) fn char_is_whitespace(c: char) -> (white: bool)
    ensures
        white == is_white_space(c),
{
    c.is_whitespace()
}

/// The lowercase form of a text by the Unicode case mapping.
pub uninterp spec fn lowercase_of(text: Seq<char>) -> Seq<char>;

/// Calls `str::to_lowercase`, which maps the text to lowercase by the
/// Unicode case mapping.
#[verifier::external_body]
pub(crate) fn lowercase(s: &str) -> (lower: String)
    ensures
        lower@ == lowercase_of(s@),
{
    s.to_lowercase()
}

/// The text without the white space at its start.
pub open spec fn skip_white_start(text: Seq<char>) -> Seq<char>
    decreases text.len(),
{
    if text.len() > 0 && is_white_space(text[0]) {
        skip_white_start(text.drop_first())
    } else {
        text
    }
}

/// The text without the white space at its end.
pub open spec fn skip_white_end(text: Seq<char>) -> Seq<char>
    decreases text.len(),
{
    if text.len() > 0 && is_white_space(text.last()) {
        skip_white_end(text.drop_last())
    } else {
        text
    }
}

/// The text without the full stops at its end.
pub open spec fn skip_dots_end(text: Seq<char>) -> Seq<char>
    decreases text.len(),
{
    if text.len() > 0 && text.last() == '.' {
        skip_dots_end(text.drop_last())
    } else {
        text
    }
}

/// The text without white space at either end.
pub open spec fn spec_trim(text: Seq<char>) -> Seq<char> {
    skip_white_end(skip_white_start(text))
}

/// A text is trimmed when neither its first nor its last character is white
/// space.
pub open spec fn is_trimmed(text: Seq<char>) -> bool {
    text.len() > 0 ==> !is_white_space(text[0]) && !is_white_space(text.last())
}

/// Copies the characters of `text` from `from` up to `to`.
pub fn slice_chars(text: &[char], from: usize, to: usize) -> (out: Vec<char>)
    requires
        from <= to <= text@.len(),
    ensures
        out@ == text@.subrange(from as int, to as int),
{
    let mut out: Vec<char> = Vec::new();
    let mut i: usize = from;
    while i < to
        invariant
            from <= i <= to <= text@.len(),
            out@ == text@.subrange(from as int, i as int),
        decreases to - i,
    {
        out.push(text[i]);
        i += 1;
        assert(out@ =~= text@.subrange(from as int, i as int));
    }
    out
}

/// The first position from `from` on that holds no white space.
fn skip_white(text: &[char], from: usize) -> (at: usize)
    requires
        from <= text@.len(),
    ensures
        from <= at <= text@.len(),
        skip_white_start(text@.skip(from as int)) == text@.skip(at as int),
        at < text@.len() ==> !is_white_space(text@[at as int]),
{
    let mut at: usize = from;
    while at < text.len() && char_is_whitespace(text[at])
        invariant
            from <= at <= text@.len(),
            skip_white_start(text@.skip(from as int)) == skip_white_start(text@.skip(at as int)),
        decreases text.len() - at,
    {
        assert(text@.skip(at as int).drop_first() =~= text@.skip(at + 1));
        at += 1;
    }
    at
}

/// Where the white space at the end of `text[from..]` begins.
fn skip_white_back(text: &[char], from: usize) -> (to: usize)
    requires
        from <= text@.len(),
    ensures
        from <= to <= text@.len(),
        skip_white_end(text@.skip(from as int)) == text@.subrange(from as int, to as int),
        to > from ==> !is_white_space(text@[to - 1]),
{
    let mut to: usize = text.len();
    assert(text@.skip(from as int) =~= text@.subrange(from as int, to as int));
    while to > from && char_is_whitespace(text[to - 1])
        invariant
            from <= to <= text@.len(),
            skip_white_end(text@.skip(from as int)) == skip_white_end(
                text@.subrange(from as int, to as int),
            ),
        decreases to,
    {
        assert(text@.subrange(from as int, to as int).drop_last() =~= text@.subrange(
            from as int,
            to - 1,
        ));
        to -= 1;
    }
    to
}

/// The text without white space at either end.
pub fn trim(text: &[char]) -> (out: Vec<char>)
    ensures
        out@ == spec_trim(text@),
        is_trimmed(out@),
{
    assert(text@.skip(0) =~= text@);
    let from = skip_white(text, 0);
    let to = skip_white_back(text, from);
    slice_chars(text, from, to)
}

/// The text without the full stops at its end.
pub fn trim_end_dots(text: &[char]) -> (out: Vec<char>)
    ensures
        out@ == skip_dots_end(text@),
{
    let mut to: usize = text.len();
    assert(text@.take(to as int) =~= text@);
    while to > 0 && text[to - 1] == '.'
        invariant
            to <= text@.len(),
            skip_dots_end(text@) == skip_dots_end(text@.take(to as int)),
        decreases to,
    {
        assert(text@.take(to as int).drop_last() =~= text@.take(to - 1));
        to -= 1;
    }
    slice_chars(text, 0, to)
}

/// The text with every `from` replaced by `to`.
pub open spec fn spec_replace_char(text: Seq<char>, from: char, to: char) -> Seq<char> {
    text.map_values(|c: char| if c == from { to } else { c })
}

/// Replaces every `from` in the text by `to`.
pub fn replace_char(text: &[char], from: char, to: char) -> (out: Vec<char>)
    ensures
        out@ == spec_replace_char(text@, from, to),
{
    let mut out: Vec<char> = Vec::new();
    let mut i: usize = 0;
    while i < text.len()
        invariant
            i <= text@.len(),
            out@ == spec_replace_char(text@.take(i as int), from, to),
        decreases text.len() - i,
    {
        let c = text[i];
        out.push(if c == from { to } else { c });
        i += 1;
        assert(out@ =~= spec_replace_char(text@.take(i as int), from, to));
    }
    assert(text@.take(i as int) =~= text@);
    out
}

/// The first position of `c` in the text; the length of the text where `c`
/// does not occur.
pub open spec fn first_index(text: Seq<char>, c: char) -> int
    decreases text.len(),
{
    if text.len() == 0 || text[0] == c {
        0
    } else {
        1 + first_index(text.drop_first(), c)
    }
}

proof fn lemma_first_index(text: Seq<char>, c: char, i: int)
    requires
        0 <= i < text.len(),
        text[i] == c,
        forall|k: int| 0 <= k < i ==> text[k] != c,
    ensures
        first_index(text, c) == i,
    decreases i,
{
    if i > 0 {
        let rest = text.drop_first();
        assert forall|k: int| 0 <= k < i - 1 implies rest[k] != c by {
            assert(rest[k] == text[k + 1]);
        }
        lemma_first_index(rest, c, i - 1);
    }
}

/// The first position of `c` in the text, if it occurs.
pub fn find_char(text: &[char], c: char) -> (at: Option<usize>)
    ensures
        match at {
            Some(i) => i < text@.len() && text@[i as int] == c && i == first_index(text@, c)
                && text@.contains(c),
            None => !text@.contains(c),
        },
{
    let mut i: usize = 0;
    while i < text.len()
        invariant
            i <= text@.len(),
            !text@.take(i as int).contains(c),
        decreases text.len() - i,
    {
        if text[i] == c {
            proof {
                assert forall|k: int| 0 <= k < i implies text@[k] != c by {
                    assert(text@.take(i as int)[k] == text@[k]);
                    assert(text@.take(i as int).contains(text@[k]));
                }
                lemma_first_index(text@, c, i as int);
            }
            return Some(i);
        }
        proof {
            let next = text@.take(i + 1);
            assert forall|k: int| 0 <= k < next.len() implies next[k] != c by {
                if k < i {
                    assert(text@.take(i as int)[k] == next[k]);
                    assert(text@.take(i as int).contains(next[k]));
                }
            }
        }
        i += 1;
    }
    assert(text@.take(i as int) =~= text@);
    None
}


/// The character sequences that a list of texts holds.
pub open spec fn text_views(texts: Seq<Vec<char>>) -> Seq<Seq<char>> {
    texts.map_values(|t: Vec<char>| t@)
}

/// The character sequences that a list of strings holds.
pub open spec fn string_views(texts: Seq<String>) -> Seq<Seq<char>> {
    texts.map_values(|t: String| t@)
}

/// Number of characters at the start of the text that are no white space.
pub open spec fn word_len(text: Seq<char>) -> int
    decreases text.len(),
{
    if text.len() > 0 && !is_white_space(text[0]) {
        1 + word_len(text.drop_first())
    } else {
        0
    }
}

/// The words of a text: its longest runs of characters that are no white
/// space, in order.
pub open spec fn spec_words(text: Seq<char>) -> Seq<Seq<char>>
    decreases text.len(),
{
    let rest = skip_white_start(text);
    let n = word_len(rest);
    if 0 < n <= rest.len() <= text.len() {
        seq![rest.take(n)] + spec_words(rest.skip(n))
    } else {
        Seq::empty()
    }
}

proof fn lemma_word_len_bounds(text: Seq<char>)
    ensures
        0 <= word_len(text) <= text.len(),
    decreases text.len(),
{
    if text.len() > 0 && !is_white_space(text[0]) {
        lemma_word_len_bounds(text.drop_first());
    }
}

/// The end of the word that begins at `from`.
fn word_end(text: &[char], from: usize) -> (to: usize)
    requires
        from <= text@.len(),
    ensures
        from <= to <= text@.len(),
        word_len(text@.skip(from as int)) == to - from,
{
    let mut to: usize = from;
    while to < text.len() && !char_is_whitespace(text[to])
        invariant
            from <= to <= text@.len(),
            word_len(text@.skip(from as int)) == (to - from) + word_len(text@.skip(to as int)),
        decreases text.len() - to,
    {
        assert(text@.skip(to as int).drop_first() =~= text@.skip(to + 1));
        to += 1;
    }
    to
}

/// Splits a text at white space into its words.
pub fn words(text: &[char]) -> (out: Vec<Vec<char>>)
    ensures
        text_views(out@) == spec_words(text@),
        forall|i: int| 0 <= i < out@.len() ==> (#[trigger] out@[i])@.len() > 0,
{
    let mut out: Vec<Vec<char>> = Vec::new();
    let mut pos: usize = 0;
    proof {
        assert(text@.skip(0) =~= text@);
        assert(text_views(out@) =~= Seq::<Seq<char>>::empty());
        assert(Seq::<Seq<char>>::empty() + spec_words(text@) =~= spec_words(text@));
    }
    loop
        invariant
            pos <= text@.len(),
            spec_words(text@) == text_views(out@) + spec_words(text@.skip(pos as int)),
            forall|i: int| 0 <= i < out@.len() ==> (#[trigger] out@[i])@.len() > 0,
        decreases text@.len() - pos,
    {
        let from = skip_white(text, pos);
        if from == text.len() {
            proof {
                assert(text@.skip(from as int) =~= Seq::<char>::empty());
                assert(spec_words(text@.skip(pos as int)) =~= Seq::<Seq<char>>::empty());
                assert(text_views(out@) + Seq::<Seq<char>>::empty() =~= text_views(out@));
            }
            return out;
        }
        let to = word_end(text, from);
        let word = slice_chars(text, from, to);
        proof {
            let tail = text@.skip(pos as int);
            let rest = text@.skip(from as int);
            assert(rest.len() > 0 && !is_white_space(rest[0]));
            lemma_word_len_bounds(rest.drop_first());
            assert(to - from >= 1);
            assert(rest.take(to - from) =~= word@);
            assert(rest.skip(to - from) =~= text@.skip(to as int));
            assert(spec_words(tail) == seq![word@] + spec_words(text@.skip(to as int)));
            assert(text_views(out@.push(word)) =~= text_views(out@).push(word@));
            assert(text_views(out@) + (seq![word@] + spec_words(text@.skip(to as int)))
                =~= text_views(out@).push(word@) + spec_words(text@.skip(to as int)));
        }
        out.push(word);
        pos = to;
    }
}

/// The texts joined with `sep` between neighbours.
pub open spec fn spec_join(texts: Seq<Seq<char>>, sep: Seq<char>) -> Seq<char>
    decreases texts.len(),
{
    if texts.len() == 0 {
        Seq::empty()
    } else if texts.len() == 1 {
        texts[0]
    } else {
        spec_join(texts.drop_last(), sep) + sep + texts.last()
    }
}

/// Joins strings with `sep` between neighbours.
pub fn join(texts: &[String], sep: &str) -> (out: Vec<char>)
    ensures
        out@ == spec_join(string_views(texts@), sep@),
{
    let mut out: Vec<char> = Vec::new();
    let mut i: usize = 0;
    proof {
        assert(string_views(texts@).take(0) =~= Seq::<Seq<char>>::empty());
    }
    while i < texts.len()
        invariant
            i <= texts@.len(),
            out@ == spec_join(string_views(texts@).take(i as int), sep@),
        decreases texts.len() - i,
    {
        proof {
            let next = string_views(texts@).take(i + 1);
            assert(next.drop_last() =~= string_views(texts@).take(i as int));
            assert(next.last() == texts@[i as int]@);
            if i == 0 {
                assert(out@ + texts@[i as int]@ =~= texts@[i as int]@);
            }
        }
        if i > 0 {
            push_str(&mut out, sep);
        }
        push_str(&mut out, texts[i].as_str());
        i += 1;
    }
    assert(string_views(texts@).take(i as int) =~= string_views(texts@));
    out
}


/// Whether two strings hold the same characters.
pub fn same_text(a: &str, b: &str) -> (same: bool)
    ensures
        same == (a@ == b@),
{
    let x = chars_of(a);
    let y = chars_of(b);
    if x.len() != y.len() {
        return false;
    }
    let mut i: usize = 0;
    while i < x.len()
        invariant
            i <= x@.len(),
            x@.len() == y@.len(),
            x@ == a@,
            y@ == b@,
            forall|k: int| 0 <= k < i ==> x@[k] == y@[k],
        decreases x.len() - i,
    {
        if x[i] != y[i] {
            return false;
        }
        i += 1;
    }
    assert(x@ =~= y@);
    true
}

/// The part of a text after its last full stop; the whole text where it has
/// none.
pub open spec fn spec_last_segment(text: Seq<char>) -> Seq<char>
    decreases text.len(),
{
    if text.len() == 0 || text.last() == '.' {
        Seq::empty()
    } else {
        spec_last_segment(text.drop_last()).push(text.last())
    }
}

/// The part of a text after its last full stop.
pub fn last_segment(text: &[char]) -> (out: Vec<char>)
    ensures
        out@ == spec_last_segment(text@),
{
    let mut from: usize = text.len();
    proof {
        assert(text@.take(from as int) =~= text@);
        assert(text@.skip(from as int) =~= Seq::<char>::empty());
        lemma_last_segment_split(text@, from as int);
    }
    while from > 0 && text[from - 1] != '.'
        invariant
            from <= text@.len(),
            forall|k: int| from <= k < text@.len() ==> text@[k] != '.',
        decreases from,
    {
        from -= 1;
    }
    proof {
        lemma_last_segment_split(text@, from as int);
    }
    slice_chars(text, from, text.len())
}

proof fn lemma_last_segment_split(text: Seq<char>, from: int)
    requires
        0 <= from <= text.len(),
        forall|k: int| from <= k < text.len() ==> text[k] != '.',
    ensures
        spec_last_segment(text) == spec_last_segment(text.take(from)) + text.skip(from),
    decreases text.len() - from,
{
    if from == text.len() {
        assert(text.take(from) =~= text);
        assert(spec_last_segment(text) + text.skip(from) =~= spec_last_segment(text));
    } else {
        let head = text.drop_last();
        lemma_last_segment_split(head, from);
        assert(head.take(from) =~= text.take(from));
        assert(head.skip(from).push(text.last()) =~= text.skip(from));
        assert((spec_last_segment(head.take(from)) + head.skip(from)).push(text.last())
            =~= spec_last_segment(text.take(from)) + text.skip(from));
    }
}


/// The `i32` with the same low 32 bits as `value`.
pub open spec fn spec_wrap_i32(value: int) -> int {
    let low = value % 0x1_0000_0000;
    if low >= 0x8000_0000 {
        low - 0x1_0000_0000
    } else {
        low
    }
}

/// Narrows an `i64` to the `i32` with the same low 32 bits.
pub fn wrap_i32(value: i64) -> (out: i32)
    ensures
        out as int == spec_wrap_i32(value as int),
{
    let shifted: u128 = ((value as i128) + 0x8000_0000_0000_0000) as u128;
    let low: u128 = shifted % 0x1_0000_0000;
    proof {
        vstd::arithmetic::div_mod::lemma_mod_multiples_vanish(
            0x8000_0000,
            value as int,
            0x1_0000_0000,
        );
    }
    if low >= 0x8000_0000 {
        ((low as i64) - 0x1_0000_0000) as i32
    } else {
        low as i32
    }
}

/// The text in which every occurrence of `from`, found from the left and
/// without overlap, is replaced by `to`.
pub uninterp spec fn replaced_text(text: Seq<char>, from: Seq<char>, to: Seq<char>) -> Seq<char>;

/// Calls `str::replace`, which replaces all matches of a pattern with
/// another string.
#[verifier::external_body]
pub(crate) fn replace_text(text: &str, from: &str, to: &str) -> (out: String)
    ensures
        out@ == replaced_text(text@, from@, to@),
{
    text.replace(from, to)
}

} // verus!
