use crate::errors::HitomiError;
use crate::hitomi::id_set::{common, without, IdSet};
use crate::hitomi::search::{NozomiRequest, NozomiRequestView};
use crate::pattern::{regex_is_match, regex_matches, regex_replace, regex_replaced};
use crate::text::{
    chars_of, lowercase, lowercase_of, replace_char, slice_chars, spec_replace_char, spec_trim,
    spec_words, string_of, string_views, trim, words,
};
use vstd::prelude::*;

verus! {

/// Matches a term that begins with a minus sign.
pub const NEGATIVE_PATTERN: &'static str = "^-";

/// The terms of a query: those to find and those to leave out.
#[derive(Debug)]
pub struct ParsedQuery {
    pub positive_terms: Vec<String>,
    pub negative_terms: Vec<String>,
}

/// Mathematical content of a [`ParsedQuery`].
pub struct ParsedQueryView {
    pub positive_terms: Seq<Seq<char>>,
    pub negative_terms: Seq<Seq<char>>,
}

impl View for ParsedQuery {
    type V = ParsedQueryView;

    open spec fn view(&self) -> ParsedQueryView {
        ParsedQueryView {
            positive_terms: string_views(self.positive_terms@),
            negative_terms: string_views(self.negative_terms@),
        }
    }
}

/// The lists after one more term: a term with a negative form goes, in that
/// form, to the negative terms; any other that is not empty goes to the
/// positive terms.
pub open spec fn spec_add_term(
    parsed: ParsedQueryView,
    term: Seq<char>,
    negative: Option<Seq<char>>,
) -> ParsedQueryView {
    match negative {
        Some(stripped) => ParsedQueryView {
            positive_terms: parsed.positive_terms,
            negative_terms: parsed.negative_terms.push(stripped),
        },
        None => if term.len() > 0 {
            ParsedQueryView {
                positive_terms: parsed.positive_terms.push(term),
                negative_terms: parsed.negative_terms,
            }
        } else {
            parsed
        },
    }
}

/// The negative form of a term: the term without its leading minus sign
/// where it has one. The outer `None` stands for a refused pattern.
pub open spec fn spec_negative_form(term: Seq<char>) -> Option<Option<Seq<char>>> {
    match regex_matches(NEGATIVE_PATTERN@, term) {
        None => None,
        Some(false) => Some(None),
        Some(true) => match regex_replaced(NEGATIVE_PATTERN@, term, Seq::empty()) {
            None => None,
            Some(stripped) => Some(Some(stripped)),
        },
    }
}

/// The terms sorted into positive and negative ones, in their order.
pub open spec fn spec_sort_terms(terms: Seq<Seq<char>>) -> Result<ParsedQueryView, HitomiError>
    decreases terms.len(),
{
    if terms.len() == 0 {
        Ok(ParsedQueryView { positive_terms: Seq::empty(), negative_terms: Seq::empty() })
    } else {
        match spec_sort_terms(terms.drop_last()) {
            Err(e) => Err(e),
            Ok(parsed) => match spec_negative_form(terms.last()) {
                None => Err(HitomiError::Pattern),
                Some(negative) => Ok(spec_add_term(parsed, terms.last(), negative)),
            },
        }
    }
}

/// The query without the question mark that may stand in front of it:
/// where the trimmed query begins with one, what follows it.
pub open spec fn spec_strip_question(query: Seq<char>) -> Seq<char> {
    let trimmed = spec_trim(query);
    if trimmed.len() > 0 && trimmed[0] == '?' {
        trimmed.drop_first()
    } else {
        query
    }
}

/// The terms of a query: its words in lowercase, with every underscore
/// replaced by a blank.
pub open spec fn spec_terms(query: Seq<char>) -> Seq<Seq<char>> {
    spec_words(lowercase_of(spec_strip_question(query))).map_values(
        |word: Seq<char>| spec_replace_char(word, '_', ' '),
    )
}

/// The positive and negative terms of a query.
pub open spec fn spec_parse_query(query: Seq<char>) -> Result<ParsedQueryView, HitomiError> {
    spec_sort_terms(spec_terms(query))
}

impl ParsedQuery {
    /// A query without terms.
    pub fn new() -> (parsed: ParsedQuery)
        ensures
            parsed@ == (ParsedQueryView {
                positive_terms: Seq::empty(),
                negative_terms: Seq::empty(),
            }),
    {
        let parsed = ParsedQuery { positive_terms: Vec::new(), negative_terms: Vec::new() };
        assert(parsed@.positive_terms =~= Seq::empty());
        assert(parsed@.negative_terms =~= Seq::empty());
        parsed
    }

    /// Files one term: in its negative form where it has one, else as a
    /// positive term unless it is empty.
    pub fn add_term(&mut self, term: String, negative: Option<String>)
        ensures
            final(self)@ == spec_add_term(
                old(self)@,
                term@,
                match negative {
                    Some(stripped) => Some(stripped@),
                    None => None,
                },
            ),
    {
        match negative {
            Some(stripped) => {
                self.negative_terms.push(stripped);
                assert(self@.negative_terms =~= old(self)@.negative_terms.push(stripped@));
            },
            None => {
                if term.as_str().unicode_len() > 0 {
                    self.positive_terms.push(term);
                    assert(self@.positive_terms =~= old(self)@.positive_terms.push(term@));
                }
            },
        }
    }
}

/// Splits a query into its terms.
pub fn query_terms(query: &str) -> (terms: Vec<Vec<char>>)
    ensures
        crate::text::text_views(terms@) == spec_terms(query@),
{
    let all = chars_of(query);
    let trimmed = trim(all.as_slice());
    let stripped = if trimmed.len() > 0 && trimmed[0] == '?' {
        let rest = slice_chars(trimmed.as_slice(), 1, trimmed.len());
        assert(rest@ =~= trimmed@.drop_first());
        rest
    } else {
        all
    };
    let lower = lowercase(string_of(stripped.as_slice()).as_str());
    let lower = chars_of(lower.as_str());
    let tokens = words(lower.as_slice());
    let mut terms: Vec<Vec<char>> = Vec::new();
    let mut i: usize = 0;
    while i < tokens.len()
        invariant
            i <= tokens@.len(),
            crate::text::text_views(terms@) == crate::text::text_views(tokens@).take(
                i as int,
            ).map_values(|word: Seq<char>| spec_replace_char(word, '_', ' ')),
        decreases tokens.len() - i,
    {
        let term = replace_char(tokens[i].as_slice(), '_', ' ');
        proof {
            let f = |word: Seq<char>| spec_replace_char(word, '_', ' ');
            let views = crate::text::text_views(tokens@);
            assert(views.take(i + 1).map_values(f) =~= views.take(i as int).map_values(f).push(
                term@,
            ));
            assert(crate::text::text_views(terms@.push(term)) =~= crate::text::text_views(
                terms@,
            ).push(term@));
        }
        terms.push(term);
        i += 1;
    }
    assert(crate::text::text_views(tokens@).take(i as int) =~= crate::text::text_views(tokens@));
    terms
}

/// Reads a query into its positive and negative terms.
pub fn parse_query(query: &str) -> (r: Result<ParsedQuery, HitomiError>)
    ensures
        match r {
            Ok(parsed) => spec_parse_query(query@) == Ok::<ParsedQueryView, HitomiError>(parsed@),
            Err(e) => spec_parse_query(query@) == Err::<ParsedQueryView, HitomiError>(e),
        },
{
    let terms = query_terms(query);
    let ghost all = spec_terms(query@);
    let mut parsed = ParsedQuery::new();
    let mut i: usize = 0;
    assert(all.take(0) =~= Seq::<Seq<char>>::empty());
    while i < terms.len()
        invariant
            i <= terms@.len(),
            all == crate::text::text_views(terms@),
            all == spec_terms(query@),
            spec_sort_terms(all.take(i as int)) == Ok::<ParsedQueryView, HitomiError>(parsed@),
        decreases terms.len() - i,
    {
        let term = string_of(terms[i].as_slice());
        proof {
            reveal_strlit("");
            assert(""@ =~= Seq::<char>::empty());
            assert(all[i as int] == terms@[i as int]@);
            assert(all.take(i + 1).drop_last() =~= all.take(i as int));
            assert(all.take(i + 1).last() == term@);
        }
        let negative = match regex_is_match(NEGATIVE_PATTERN, term.as_str()) {
            Err(_) => {
                proof {
                    lemma_sort_terms_error(all, i + 1);
                }
                return Err(HitomiError::Pattern);
            },
            Ok(false) => None,
            Ok(true) => match regex_replace(NEGATIVE_PATTERN, term.as_str(), "") {
                Err(_) => {
                    proof {
                        lemma_sort_terms_error(all, i + 1);
                    }
                    return Err(HitomiError::Pattern);
                },
                Ok(stripped) => Some(stripped),
            },
        };
        parsed.add_term(term, negative);
        i += 1;
    }
    assert(all.take(i as int) =~= all);
    Ok(parsed)
}

/// An error in the first terms of a list is the error of the whole list.
proof fn lemma_sort_terms_error(terms: Seq<Seq<char>>, n: int)
    requires
        0 <= n <= terms.len(),
        spec_sort_terms(terms.take(n)) is Err,
    ensures
        spec_sort_terms(terms) == spec_sort_terms(terms.take(n)),
    decreases terms.len() - n,
{
    if n == terms.len() {
        assert(terms.take(n) =~= terms);
    } else {
        assert(terms.take(n + 1).drop_last() =~= terms.take(n));
        lemma_sort_terms_error(terms, n + 1);
    }
}

/// The nozomi file that gives the base set of a search: the popular
/// galleries where the search is sorted by popularity, else the index of
/// all galleries where the query has no positive term; none otherwise.
pub open spec fn spec_base_request(sort_by_popularity: bool, positive_terms: int) -> Option<
    NozomiRequestView,
> {
    if sort_by_popularity {
        Some(NozomiRequestView { area: None, tag: "popular"@, language: "all"@ })
    } else if positive_terms == 0 {
        Some(NozomiRequestView { area: None, tag: "index"@, language: "all"@ })
    } else {
        None
    }
}

/// Decides where the base set of a search comes from; without a request
/// the base set is empty.
pub fn create_get_results_tasks(sort_by_popularity: bool, positive_terms: &[String]) -> (request:
    Option<NozomiRequest>)
    ensures
        match request {
            Some(r) => spec_base_request(sort_by_popularity, positive_terms@.len() as int) == Some(
                r@,
            ),
            None => spec_base_request(sort_by_popularity, positive_terms@.len() as int) is None,
        },
{
    if sort_by_popularity {
        Some(
            NozomiRequest {
                area: None,
                tag: String::from_str("popular"),
                language: String::from_str("all"),
            },
        )
    } else if positive_terms.len() == 0 {
        Some(
            NozomiRequest {
                area: None,
                tag: String::from_str("index"),
                language: String::from_str("all"),
            },
        )
    } else {
        None
    }
}

/// The id lists that a list of sets holds.
pub open spec fn id_views(sets: Seq<IdSet>) -> Seq<Seq<i32>> {
    sets.map_values(|set: IdSet| set@)
}

/// The result after the positive terms: each set in turn replaces an empty
/// result and narrows any other to the ids that both hold.
pub open spec fn spec_narrow(base: Seq<i32>, positives: Seq<Seq<i32>>) -> Seq<i32>
    decreases positives.len(),
{
    if positives.len() == 0 {
        base
    } else {
        let results = spec_narrow(base, positives.drop_last());
        if results.len() == 0 {
            positives.last()
        } else {
            common(results, positives.last())
        }
    }
}

/// The result after the negative terms: the ids of each set are removed.
pub open spec fn spec_exclude(results: Seq<i32>, negatives: Seq<Seq<i32>>) -> Seq<i32>
    decreases negatives.len(),
{
    if negatives.len() == 0 {
        results
    } else {
        without(spec_exclude(results, negatives.drop_last()), negatives.last())
    }
}

/// The ids of a search: the base set narrowed by the sets of the positive
/// terms, without the ids of the sets of the negative terms.
pub open spec fn spec_compose(
    base: Seq<i32>,
    positives: Seq<Seq<i32>>,
    negatives: Seq<Seq<i32>>,
) -> Seq<i32> {
    spec_exclude(spec_narrow(base, positives), negatives)
}

/// Every set of the list is well formed.
pub open spec fn all_well_formed(sets: Seq<IdSet>) -> bool {
    forall|i: int| 0 <= i < sets.len() ==> (#[trigger] sets[i]).well_formed()
}

/// Puts the id sets of a search together, keeping the order of the ids.
pub fn compose(base: IdSet, positives: Vec<IdSet>, negatives: &Vec<IdSet>) -> (results: IdSet)
    requires
        base.well_formed(),
        all_well_formed(positives@),
    ensures
        results@ == spec_compose(base@, id_views(positives@), id_views(negatives@)),
        results.well_formed(),
{
    let ghost start = base@;
    let ghost pos = id_views(positives@);
    let ghost neg = id_views(negatives@);
    let mut results = base;
    assert(pos.take(0) =~= Seq::<Seq<i32>>::empty());
    for set in it: positives
        invariant
            pos == id_views(it.seq()),
            all_well_formed(it.seq()),
            results.well_formed(),
            results@ == spec_narrow(start, pos.take(it.index() as int)),
    {
        proof {
            assert(pos.take(it.index() + 1).drop_last() =~= pos.take(it.index() as int));
            assert(pos.take(it.index() + 1).last() == set@);
            assert(set == it.seq()[it.index() as int]);
        }
        if results.is_empty() {
            results = set;
        } else {
            results.retain_common(&set);
        }
    }
    assert(pos.take(pos.len() as int) =~= pos);
    let mut i: usize = 0;
    assert(neg.take(0) =~= Seq::<Seq<i32>>::empty());
    while i < negatives.len()
        invariant
            i <= negatives@.len(),
            neg == id_views(negatives@),
            results.well_formed(),
            results@ == spec_exclude(spec_narrow(start, pos), neg.take(i as int)),
        decreases negatives.len() - i,
    {
        proof {
            assert(neg.take(i + 1).drop_last() =~= neg.take(i as int));
            assert(neg.take(i + 1).last() == negatives@[i as int]@);
        }
        results.remove_all(&negatives[i]);
        i += 1;
    }
    assert(neg.take(i as int) =~= neg);
    results
}

} // verus!
