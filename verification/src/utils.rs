use crate::text::{
    chars_of, is_trimmed, is_white_space, skip_dots_end, skip_white_end, skip_white_start,
    spec_trim, string_of, trim, trim_end_dots,
};
use vstd::prelude::*;

verus! {

/// The character that stands for `c` in a file name: characters that a file
/// system refuses are replaced by a blank or by a look-alike.
pub open spec fn spec_filter_char(c: char) -> char {
    if c == '\\' || c == '/' || c == '\n' {
        ' '
    } else if c == ':' {
        '\u{ff1a}'
    } else if c == '*' {
        '\u{2b50}'
    } else if c == '?' {
        '\u{ff1f}'
    } else if c == '"' {
        '\''
    } else if c == '<' {
        '\u{300a}'
    } else if c == '>' {
        '\u{300b}'
    } else if c == '|' {
        '\u{4e28}'
    } else {
        c
    }
}

/// The text with every character replaced by the one that stands for it in
/// a file name.
pub open spec fn spec_filter_chars(text: Seq<char>) -> Seq<char> {
    text.map_values(|c: char| spec_filter_char(c))
}

/// The file name made of a text: refused characters replaced, then white
/// space trimmed, then full stops at the end removed, then white space
/// trimmed again.
pub open spec fn spec_filename_filter(text: Seq<char>) -> Seq<char> {
    spec_trim(skip_dots_end(spec_trim(spec_filter_chars(text))))
}

fn filter_char(c: char) -> (out: char)
    ensures
        out == spec_filter_char(c),
{
    if c == '\\' || c == '/' || c == '\n' {
        ' '
    } else if c == ':' {
        '\u{ff1a}'
    } else if c == '*' {
        '\u{2b50}'
    } else if c == '?' {
        '\u{ff1f}'
    } else if c == '"' {
        '\''
    } else if c == '<' {
        '\u{300a}'
    } else if c == '>' {
        '\u{300b}'
    } else if c == '|' {
        '\u{4e28}'
    } else {
        c
    }
}

/// Makes a text usable as the name of a file or directory.
pub fn filename_filter(s: &str) -> (name: String)
    ensures
        name@ == spec_filename_filter(s@),
{
    let chars = chars_of(s);
    let mut mapped: Vec<char> = Vec::new();
    let mut i: usize = 0;
    while i < chars.len()
        invariant
            i <= chars@.len(),
            mapped@ == spec_filter_chars(chars@.take(i as int)),
        decreases chars.len() - i,
    {
        mapped.push(filter_char(chars[i]));
        i += 1;
        assert(mapped@ =~= spec_filter_chars(chars@.take(i as int)));
    }
    assert(chars@.take(i as int) =~= chars@);
    let trimmed = trim(mapped.as_slice());
    let cut = trim_end_dots(trimmed.as_slice());
    let name = trim(cut.as_slice());
    string_of(name.as_slice())
}

/// Every character of the text stands for itself in a file name.
pub open spec fn all_kept(text: Seq<char>) -> bool {
    forall|i: int| 0 <= i < text.len() ==> spec_filter_char(#[trigger] text[i]) == text[i]
}

proof fn lemma_skip_white_start_keeps(text: Seq<char>)
    requires
        all_kept(text),
    ensures
        all_kept(skip_white_start(text)),
        skip_white_start(text).len() > 0 ==> !is_white_space(skip_white_start(text)[0]),
    decreases text.len(),
{
    if text.len() > 0 && is_white_space(text[0]) {
        let rest = text.drop_first();
        assert forall|i: int| 0 <= i < rest.len() implies spec_filter_char(#[trigger] rest[i])
            == rest[i] by {
            assert(rest[i] == text[i + 1]);
        }
        lemma_skip_white_start_keeps(rest);
    }
}

proof fn lemma_skip_white_end_keeps(text: Seq<char>)
    requires
        all_kept(text),
    ensures
        all_kept(skip_white_end(text)),
        skip_white_end(text).len() > 0 ==> !is_white_space(skip_white_end(text).last())
            && skip_white_end(text)[0] == text[0],
    decreases text.len(),
{
    if text.len() > 0 && is_white_space(text.last()) {
        let rest = text.drop_last();
        assert forall|i: int| 0 <= i < rest.len() implies spec_filter_char(#[trigger] rest[i])
            == rest[i] by {
            assert(rest[i] == text[i]);
        }
        lemma_skip_white_end_keeps(rest);
    }
}

proof fn lemma_skip_dots_end_keeps(text: Seq<char>)
    requires
        all_kept(text),
    ensures
        all_kept(skip_dots_end(text)),
    decreases text.len(),
{
    if text.len() > 0 && text.last() == '.' {
        let rest = text.drop_last();
        assert forall|i: int| 0 <= i < rest.len() implies spec_filter_char(#[trigger] rest[i])
            == rest[i] by {
            assert(rest[i] == text[i]);
        }
        lemma_skip_dots_end_keeps(rest);
    }
}

proof fn lemma_trim_keeps(text: Seq<char>)
    requires
        all_kept(text),
    ensures
        all_kept(spec_trim(text)),
        is_trimmed(spec_trim(text)),
{
    lemma_skip_white_start_keeps(text);
    lemma_skip_white_end_keeps(skip_white_start(text));
}

/// A file name comes out of the filter trimmed and made of characters that
/// stand for themselves.
pub proof fn lemma_filename_filter_shape(text: Seq<char>)
    ensures
        all_kept(spec_filename_filter(text)),
        is_trimmed(spec_filename_filter(text)),
{
    let mapped = spec_filter_chars(text);
    assert(all_kept(mapped));
    lemma_trim_keeps(mapped);
    lemma_skip_dots_end_keeps(spec_trim(mapped));
    lemma_trim_keeps(skip_dots_end(spec_trim(mapped)));
}

/// Whether a file name may not hold the character.
pub open spec fn is_refused(c: char) -> bool {
    c == '\\' || c == '/' || c == '\n' || c == ':' || c == '*' || c == '?' || c == '"' || c == '<'
        || c == '>' || c == '|'
}

/// A file name that comes out of the filter holds no refused character, so
/// that it can stand as one segment of a path.
pub proof fn lemma_filename_filter_safe(text: Seq<char>)
    ensures
        forall|i: int|
            0 <= i < spec_filename_filter(text).len() ==> !is_refused(
                #[trigger] spec_filename_filter(text)[i],
            ),
{
    lemma_filename_filter_shape(text);
    let name = spec_filename_filter(text);
    assert forall|i: int| 0 <= i < name.len() implies !is_refused(#[trigger] name[i]) by {
        assert(spec_filter_char(name[i]) == name[i]);
    }
}

/// The filter is idempotent on every text whose file name does not end in a
/// full stop: to filter the name again changes nothing.
pub proof fn lemma_filename_filter_idempotent(text: Seq<char>)
    requires
        spec_filename_filter(text).len() > 0 ==> spec_filename_filter(text).last() != '.',
    ensures
        spec_filename_filter(spec_filename_filter(text)) == spec_filename_filter(text),
{
    let name = spec_filename_filter(text);
    lemma_filename_filter_shape(text);
    assert(spec_filter_chars(name) =~= name);
    assert(spec_trim(name) == name);
    assert(skip_dots_end(name) == name);
}

} // verus!
