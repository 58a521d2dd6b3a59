use crate::errors::HitomiError;
use crate::pattern::{
    groups_view, lite_captures, lite_captures_all, lite_find, lite_find_all, matches_view,
};
use crate::text::{chars_of, decimal, parse_i32, push_str, spec_decimal, spec_parse_i32, string_of};
use std::collections::HashMap;
use vstd::prelude::*;

verus! {

broadcast use vstd::std_specs::hash::group_hash_axioms;

/// Time, in milliseconds, for which a retrieved routing table stays valid.
pub const TTL_MS: i64 = 60_000;

/// Finds the default bucket in the routing script.
pub const DEFAULT_PATTERN: &'static str = "var o = (\\d)";

/// Finds the bucket of the listed cases in the routing script.
pub const BUCKET_PATTERN: &'static str = "o = (\\d); break;";

/// Finds each listed case in the routing script.
pub const CASE_PATTERN: &'static str = "case (\\d+):";

/// Finds the path prefix in the routing script.
pub const PREFIX_PATTERN: &'static str = "b: '(.+)'";

/// Finds the last three characters of a hash.
pub const TAIL_PATTERN: &'static str = "(..)(.)$";

/// The routing table that decides sub-domain and path prefix of an image.
pub struct GG {
    pub last_retrieval: Option<i64>,
    pub m_default: i32,
    pub m_map: HashMap<i32, i32>,
    pub b: String,
}

/// Mathematical content of a [`GG`].
pub struct GGView {
    pub last_retrieval: Option<i64>,
    pub m_default: i32,
    pub m_map: Map<i32, i32>,
    pub b: Seq<char>,
}

impl View for GG {
    type V = GGView;

    open spec fn view(&self) -> GGView {
        GGView {
            last_retrieval: self.last_retrieval,
            m_default: self.m_default,
            m_map: self.m_map@,
            b: self.b@,
        }
    }
}

impl GGView {
    /// The table is valid at `now` when it was retrieved less than 60 000 ms
    /// before.
    pub open spec fn is_fresh(self, now: i64) -> bool {
        self.last_retrieval matches Some(at) && now - at < TTL_MS
    }

    /// What a caller reads from the table at `now` without retrieving it
    /// anew: the default bucket, the map and the prefix of a valid table,
    /// nothing of a table that is no longer valid.
    pub open spec fn observed(self, now: i64) -> Option<(i32, Map<i32, i32>, Seq<char>)> {
        if self.is_fresh(now) {
            Some((self.m_default, self.m_map, self.b))
        } else {
            None
        }
    }

    /// The bucket of `g`: its entry in the map, else the default.
    pub open spec fn m(self, g: i32) -> i32 {
        if self.m_map.contains_key(g) {
            self.m_map[g]
        } else {
            self.m_default
        }
    }
}

/// The decimal number in the first capture group of a match.
pub open spec fn spec_group_number(groups: Seq<Option<Seq<char>>>) -> Option<i32> {
    if groups.len() > 1 && groups[1] is Some {
        spec_parse_i32(groups[1]->0, 10)
    } else {
        None
    }
}

/// The default bucket that a script assigns. `None` where the script
/// assigns none or the number is unreadable.
pub open spec fn spec_new_default(found: Option<Seq<Option<Seq<char>>>>) -> Option<i32> {
    match found {
        Some(groups) => spec_group_number(groups),
        None => None,
    }
}

/// Every case has a readable number.
pub open spec fn cases_readable(cases: Seq<Seq<Option<Seq<char>>>>) -> bool {
    forall|i: int| 0 <= i < cases.len() ==> spec_group_number(#[trigger] cases[i]) is Some
}

/// The map that sends the number of each case to `bucket`.
pub open spec fn cases_map(cases: Seq<Seq<Option<Seq<char>>>>, bucket: i32) -> Map<i32, i32> {
    Map::new(
        |k: i32| exists|i: int| 0 <= i < cases.len() && spec_group_number(#[trigger] cases[i]) == Some(k),
        |k: i32| bucket,
    )
}

/// The map that a script gives: every listed case goes to the bucket that
/// the script names, and nothing else is mapped. `None` where the script
/// names no bucket or a number is unreadable.
pub open spec fn spec_new_map(
    bucket: Option<Seq<Option<Seq<char>>>>,
    cases: Seq<Seq<Option<Seq<char>>>>,
) -> Option<Map<i32, i32>> {
    match bucket {
        Some(groups) => match spec_group_number(groups) {
            Some(o) => if cases_readable(cases) {
                Some(cases_map(cases, o))
            } else {
                None
            },
            None => None,
        },
        None => None,
    }
}

/// The path prefix that a script gives. `None` where the script gives none.
pub open spec fn spec_new_prefix(found: Option<Seq<Option<Seq<char>>>>) -> Option<Seq<char>> {
    match found {
        Some(groups) => if groups.len() > 1 && groups[1] is Some {
            Some(groups[1]->0)
        } else {
            None
        },
        None => None,
    }
}

/// The table after a refresh at `now` with the routing script: a table that
/// is valid at `now` stays as it is; any other takes the default bucket, the
/// map and the prefix of the script and `now` as its time of retrieval. A
/// script that lacks one of the three is refused.
pub open spec fn spec_refresh(table: GGView, script: Seq<char>, now: i64) -> Result<
    GGView,
    HitomiError,
> {
    if table.is_fresh(now) {
        Ok(table)
    } else {
        match (
            lite_captures(DEFAULT_PATTERN@, script),
            lite_captures(BUCKET_PATTERN@, script),
            lite_captures_all(CASE_PATTERN@, script),
            lite_captures(PREFIX_PATTERN@, script),
        ) {
            (Some(default), Some(bucket), Some(cases), Some(prefix)) => match (
                spec_new_default(default),
                spec_new_map(bucket, cases),
                spec_new_prefix(prefix),
            ) {
                (Some(m_default), Some(m_map), Some(b)) => Ok(
                    GGView { last_retrieval: Some(now), m_default, m_map, b },
                ),
                _ => Err(HitomiError::Scrape),
            },
            _ => Err(HitomiError::Pattern),
        }
    }
}

/// The number made of the last three characters `XYZ` of a hash: `ZXY` read
/// as hexadecimal.
pub open spec fn spec_routing_number(groups: Seq<Option<Seq<char>>>) -> Result<i32, HitomiError> {
    if groups.len() > 2 && groups[1] is Some && groups[2] is Some {
        match spec_parse_i32(groups[2]->0 + groups[1]->0, 16) {
            Some(n) => Ok(n),
            None => Err(HitomiError::InvalidNumber),
        }
    } else {
        Err(HitomiError::InvalidHash)
    }
}

/// The routing directory of a hash: the decimal text of its routing number.
pub open spec fn spec_s(hash: Seq<char>) -> Result<Seq<char>, HitomiError> {
    match lite_captures(TAIL_PATTERN@, hash) {
        None => Err(HitomiError::Pattern),
        Some(None) => Err(HitomiError::InvalidHash),
        Some(Some(groups)) => match spec_routing_number(groups) {
            Ok(n) => Ok(spec_decimal(n as int)),
            Err(e) => Err(e),
        },
    }
}

/// Reads the decimal number in the first capture group of a match.
pub fn group_number(groups: &[Option<String>]) -> (n: Option<i32>)
    ensures
        n == spec_group_number(groups_view(groups@)),
{
    if groups.len() <= 1 {
        return None;
    }
    match &groups[1] {
        Some(text) => {
            let chars = chars_of(text.as_str());
            parse_i32(chars.as_slice(), 10)
        },
        None => None,
    }
}

/// Reads the routing number from the capture groups of a hash's tail.
pub fn routing_number(groups: &[Option<String>]) -> (n: Result<i32, HitomiError>)
    ensures
        n == spec_routing_number(groups_view(groups@)),
{
    if groups.len() <= 2 {
        return Err(HitomiError::InvalidHash);
    }
    match (&groups[1], &groups[2]) {
        (Some(pair), Some(last)) => {
            let mut digits: Vec<char> = Vec::new();
            push_str(&mut digits, last.as_str());
            push_str(&mut digits, pair.as_str());
            assert(digits@ =~= last@ + pair@);
            match parse_i32(digits.as_slice(), 16) {
                Some(n) => Ok(n),
                None => Err(HitomiError::InvalidNumber),
            }
        },
        _ => Err(HitomiError::InvalidHash),
    }
}

impl GG {
    /// A table that was never retrieved.
    pub fn new() -> (table: GG)
        ensures
            table@ == (GGView {
                last_retrieval: None,
                m_default: 0,
                m_map: Map::empty(),
                b: Seq::empty(),
            }),
    {
        GG { last_retrieval: None, m_default: 0, m_map: HashMap::new(), b: String::new() }
    }

    /// Whether the table may be used at `now_ms` without a new retrieval.
    pub fn is_fresh(&self, now_ms: i64) -> (fresh: bool)
        ensures
            fresh == self@.is_fresh(now_ms),
    {
        match self.last_retrieval {
            Some(at) => (now_ms as i128) - (at as i128) < (TTL_MS as i128),
            None => false,
        }
    }

    /// Refreshes the table at `now_ms` with the routing script. A table that
    /// is valid at `now_ms` stays as it is, whatever the script holds. Where
    /// the script cannot be read the table stays as it was too, so that the
    /// next access retrieves the script again.
    pub fn refresh(&mut self, script: &str, now_ms: i64) -> (r: Result<(), HitomiError>)
        ensures
            match r {
                Ok(()) => spec_refresh(old(self)@, script@, now_ms) == Ok::<GGView, HitomiError>(
                    final(self)@,
                ),
                Err(e) => spec_refresh(old(self)@, script@, now_ms) == Err::<GGView, HitomiError>(e)
                    && *final(self) == *old(self),
            },
            old(self)@.is_fresh(now_ms) ==> r is Ok && *final(self) == *old(self),
    {
        if self.is_fresh(now_ms) {
            return Ok(());
        }
        let default = match lite_find(DEFAULT_PATTERN, script) {
            Ok(found) => found,
            Err(_) => {
                return Err(HitomiError::Pattern);
            },
        };
        let bucket = match lite_find(BUCKET_PATTERN, script) {
            Ok(found) => found,
            Err(_) => {
                return Err(HitomiError::Pattern);
            },
        };
        let cases = match lite_find_all(CASE_PATTERN, script) {
            Ok(found) => found,
            Err(_) => {
                return Err(HitomiError::Pattern);
            },
        };
        let prefix = match lite_find(PREFIX_PATTERN, script) {
            Ok(found) => found,
            Err(_) => {
                return Err(HitomiError::Pattern);
            },
        };
        let m_default = match &default {
            Some(groups) => match group_number(groups.as_slice()) {
                Some(n) => n,
                None => {
                    return Err(HitomiError::Scrape);
                },
            },
            None => {
                return Err(HitomiError::Scrape);
            },
        };
        let m_map = match &bucket {
            Some(groups) => match group_number(groups.as_slice()) {
                Some(o) => match read_cases(&cases, o) {
                    Some(map) => map,
                    None => {
                        return Err(HitomiError::Scrape);
                    },
                },
                None => {
                    return Err(HitomiError::Scrape);
                },
            },
            None => {
                return Err(HitomiError::Scrape);
            },
        };
        let b = match prefix {
            Some(mut groups) => {
                if groups.len() <= 1 {
                    return Err(HitomiError::Scrape);
                }
                match groups.swap_remove(1) {
                    Some(text) => text,
                    None => {
                        return Err(HitomiError::Scrape);
                    },
                }
            },
            None => {
                return Err(HitomiError::Scrape);
            },
        };
        self.m_default = m_default;
        self.m_map = m_map;
        self.b = b;
        self.last_retrieval = Some(now_ms);
        Ok(())
    }

    /// The bucket of `g`: its entry in the map, else the default.
    pub fn m(&self, g: i32) -> (bucket: i32)
        ensures
            bucket == self@.m(g),
    {
        match self.m_map.get(&g) {
            Some(bucket) => *bucket,
            None => self.m_default,
        }
    }

    /// The path prefix of the table.
    pub fn b(&self) -> (prefix: String)
        ensures
            prefix@ == self@.b,
    {
        self.b.clone()
    }

    /// The routing directory of a hash with last characters `XYZ`: the
    /// decimal text of `ZXY` read as hexadecimal.
    pub fn s(h: &str) -> (dir: Result<String, HitomiError>)
        ensures
            match dir {
                Ok(text) => spec_s(h@) == Ok::<Seq<char>, HitomiError>(text@),
                Err(e) => spec_s(h@) == Err::<Seq<char>, HitomiError>(e),
            },
    {
        let found = match lite_find(TAIL_PATTERN, h) {
            Ok(found) => found,
            Err(_) => {
                return Err(HitomiError::Pattern);
            },
        };
        match found {
            Some(groups) => {
                let n = routing_number(groups.as_slice())?;
                let text = decimal(n as i64);
                Ok(string_of(text.as_slice()))
            },
            None => Err(HitomiError::InvalidHash),
        }
    }
}

/// Maps the number of each case to `bucket`; `None` where a number is
/// unreadable.
fn read_cases(cases: &Vec<Vec<Option<String>>>, bucket: i32) -> (map: Option<HashMap<i32, i32>>)
    ensures
        match map {
            Some(m) => cases_readable(matches_view(cases@)) && m@ == cases_map(
                matches_view(cases@),
                bucket,
            ),
            None => !cases_readable(matches_view(cases@)),
        },
{
    let ghost all = matches_view(cases@);
    let mut map: HashMap<i32, i32> = HashMap::new();
    let mut i: usize = 0;
    assert(map@ =~= cases_map(all.take(0), bucket));
    while i < cases.len()
        invariant
            i <= cases@.len(),
            all == matches_view(cases@),
            cases_readable(all.take(i as int)),
            map@ == cases_map(all.take(i as int), bucket),
        decreases cases.len() - i,
    {
        let case = match group_number(cases[i].as_slice()) {
            Some(case) => case,
            None => {
                assert(spec_group_number(all[i as int]) is None);
                return None;
            },
        };
        map.insert(case, bucket);
        proof {
            let before = all.take(i as int);
            let next = all.take(i + 1);
            assert(next[i as int] == all[i as int]);
            assert forall|j: int| 0 <= j < next.len() implies spec_group_number(
                #[trigger] next[j],
            ) is Some by {
                if j < i {
                    assert(next[j] == before[j]);
                }
            }
            assert forall|k: i32| #[trigger]
                cases_map(next, bucket).contains_key(k) <==> (k == case || cases_map(
                    before,
                    bucket,
                ).contains_key(k)) by {
                if cases_map(next, bucket).contains_key(k) {
                    let j = choose|j: int|
                        0 <= j < next.len() && spec_group_number(#[trigger] next[j]) == Some(k);
                    if j < i {
                        assert(before[j] == next[j]);
                    }
                }
                if cases_map(before, bucket).contains_key(k) {
                    let j = choose|j: int|
                        0 <= j < before.len() && spec_group_number(#[trigger] before[j]) == Some(
                            k,
                        );
                    assert(next[j] == before[j]);
                }
            }
            assert(map@ =~= cases_map(next, bucket));
        }
        i += 1;
    }
    assert(all.take(i as int) =~= all);
    Some(map)
}

/// Within 60 000 ms of its retrieval a table is left as it is: a refresh at
/// such a time changes nothing, whatever script it is given, so that two
/// callers within that time read the same default bucket, the same map and
/// the same prefix.
pub proof fn lemma_fresh_table_is_kept(
    table: GGView,
    retrieved: i64,
    first: i64,
    first_script: Seq<char>,
    second: i64,
    second_script: Seq<char>,
)
    requires
        table.last_retrieval == Some(retrieved),
        first - retrieved < TTL_MS,
        second - retrieved < TTL_MS,
    ensures
        spec_refresh(table, first_script, first) == Ok::<GGView, HitomiError>(table),
        spec_refresh(table, second_script, second) == Ok::<GGView, HitomiError>(table),
        table.observed(first) is Some,
        table.observed(first) == table.observed(second),
{
}

} // verus!
