use crate::text::{
    chars_of, digits, last_segment, lowercase, lowercase_of, push_chars, push_str, same_text,
    spec_digits, spec_last_segment, string_of, string_views,
};
use vstd::prelude::*;

verus! {

/// A chain of error messages, the outermost first.
#[derive(Debug)]
pub struct ErrorChain {
    pub messages: Vec<String>,
}

/// The text of a chain of messages: one line for each, made of its number
/// from 0 on, a colon, a blank and the message.
pub open spec fn spec_string_chain(messages: Seq<Seq<char>>) -> Seq<char>
    decreases messages.len(),
{
    if messages.len() == 0 {
        Seq::empty()
    } else {
        spec_string_chain(messages.drop_last()) + spec_digits((messages.len() - 1) as nat) + ": "@
            + messages.last() + seq!['\n']
    }
}

/// The name of a file with an extension: it holds a full stop, and not only
/// as its first character.
pub open spec fn has_extension(name: Seq<char>) -> bool {
    exists|i: int| 0 < i < name.len() && name[i] == '.'
}

/// A file is an image when its extension, in lowercase, is `webp` or `avif`.
pub open spec fn spec_is_img(name: Seq<char>) -> bool {
    has_extension(name) && (lowercase_of(spec_last_segment(name)) == "webp"@ || lowercase_of(
        spec_last_segment(name),
    ) == "avif"@)
}

pub trait AnyhowErrorToStringChain {
    /// The messages of the chain as text, one numbered line for each.
    fn to_string_chain(&self) -> String;
}

pub trait PathIsImg {
    /// Whether the name is that of an image file.
    fn is_img(&self) -> bool;
}

impl AnyhowErrorToStringChain for ErrorChain {
    fn to_string_chain(&self) -> (text: String)
        ensures
            text@ == spec_string_chain(string_views(self.messages@)),
    {
        let ghost all = string_views(self.messages@);
        let mut text: Vec<char> = Vec::new();
        let mut i: usize = 0;
        assert(all.take(0) =~= Seq::<Seq<char>>::empty());
        while i < self.messages.len()
            invariant
                i <= self.messages@.len(),
                all == string_views(self.messages@),
                text@ == spec_string_chain(all.take(i as int)),
            decreases self.messages.len() - i,
        {
            proof {
                assert(all.take(i + 1).drop_last() =~= all.take(i as int));
                assert(all.take(i + 1).last() == self.messages@[i as int]@);
            }
            let number = digits(i as u64);
            push_chars(&mut text, number.as_slice());
            push_str(&mut text, ": ");
            push_str(&mut text, self.messages[i].as_str());
            text.push('\n');
            i += 1;
        }
        assert(all.take(i as int) =~= all);
        string_of(text.as_slice())
    }
}

impl PathIsImg for String {
    fn is_img(&self) -> (img: bool)
        ensures
            img == spec_is_img(self@),
    {
        let name = chars_of(self.as_str());
        let mut dotted = false;
        let mut i: usize = 1;
        while i < name.len()
            invariant
                1 <= i,
                dotted == exists|k: int| 0 < k < i && k < name@.len() && name@[k] == '.',
            decreases name.len() - i,
        {
            if name[i] == '.' {
                dotted = true;
            }
            i += 1;
        }
        if !dotted {
            return false;
        }
        let ext = last_segment(name.as_slice());
        let lower = lowercase(string_of(ext.as_slice()).as_str());
        same_text(lower.as_str(), "webp") || same_text(lower.as_str(), "avif")
    }
}

} // verus!
