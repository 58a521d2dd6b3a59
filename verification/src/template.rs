//! Brace templates, rendered by the `strfmt` crate.

use crate::text::string_views;
use std::collections::HashMap;
use vstd::prelude::*;

verus! {

/// `strfmt::FmtError`, the error of a template that `strfmt` refuses.
#[verifier::external_type_specification]
#[verifier::external_body]
pub struct ExFmtError(strfmt::FmtError);

/// What `strfmt` makes of a template and of variables, given as names and
/// values side by side; `None` where it refuses the template or a name.
pub uninterp spec fn template_rendered(
    template: Seq<char>,
    names: Seq<Seq<char>>,
    values: Seq<Seq<char>>,
) -> Option<Seq<char>>;

/// Calls `strfmt::strfmt` with the map from each name to the value at its
/// place: the result is a function of the template and the variables alone.
#[verifier::external_body]
pub(crate) fn render_template(template: &str, names: &Vec<String>, values: &Vec<String>) -> (r:
    Result<String, strfmt::FmtError>)
    ensures
        match r {
            Ok(out) => template_rendered(template@, string_views(names@), string_views(values@))
                == Some(out@),
            Err(_) => template_rendered(template@, string_views(names@), string_views(values@))
                is None,
        },
{
    let vars: HashMap<String, String> = names.iter().cloned().zip(values.iter().cloned()).collect();
    strfmt::strfmt(template, &vars)
}

} // verus!
