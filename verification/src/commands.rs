use crate::hitomi::id_set::IdSet;
use crate::types::Comic;
use vstd::prelude::*;

verus! {

/// The ids of a list of comics.
pub open spec fn comic_ids(comics: Seq<Comic>) -> Seq<i32> {
    comics.map_values(|c: Comic| c.id)
}

/// The comics without those whose id an earlier comic of the list has.
pub open spec fn spec_unique_comics(comics: Seq<Comic>) -> Seq<Comic>
    decreases comics.len(),
{
    if comics.len() == 0 {
        Seq::empty()
    } else if comic_ids(comics.drop_last()).contains(comics.last().id) {
        spec_unique_comics(comics.drop_last())
    } else {
        spec_unique_comics(comics.drop_last()).push(comics.last())
    }
}

proof fn lemma_push_contains(ids: Seq<i32>, last: i32, id: i32)
    ensures
        ids.push(last).contains(id) <==> ids.contains(id) || id == last,
{
    if ids.contains(id) {
        let k = choose|k: int| 0 <= k < ids.len() && ids[k] == id;
        assert(ids.push(last)[k] == id);
    }
    if id == last {
        assert(ids.push(last)[ids.len() as int] == id);
    }
}

/// Keeps, of comics with the same id, the first of the list.
pub fn unique_comics(found: Vec<Comic>) -> (unique: Vec<Comic>)
    ensures
        unique@ == spec_unique_comics(found@),
{
    let ghost all = found@;
    let mut seen = IdSet::new();
    let mut unique: Vec<Comic> = Vec::new();
    assert(all.take(0) =~= Seq::<Comic>::empty());
    for comic in it: found
        invariant
            all == it.seq(),
            seen.well_formed(),
            forall|id: i32| seen@.contains(id) <==> comic_ids(all.take(it.index() as int)).contains(id),
            unique@ == spec_unique_comics(all.take(it.index() as int)),
    {
        let ghost at = it.index() as int;
        let ghost before = comic_ids(all.take(at));
        let ghost seen_before = seen@;
        proof {
            assert(comic == all[at]);
            assert(all.take(at + 1).drop_last() =~= all.take(at));
            assert(all.take(at + 1).last() == comic);
            assert(comic_ids(all.take(at + 1)) =~= before.push(comic.id));
        }
        let fresh = seen.insert(comic.id);
        proof {
            assert forall|id: i32| seen@.contains(id) <==> before.push(comic.id).contains(id) by {
                lemma_push_contains(before, comic.id, id);
                lemma_push_contains(seen_before, comic.id, id);
                assert(seen_before.contains(id) <==> before.contains(id));
            }
        }
        if fresh {
            unique.push(comic);
        }
    }
    assert(all.take(all.len() as int) =~= all);
    unique
}


/// A comic found on disk, with the time at which its metadata file was last
/// changed, in nanoseconds since the start of 1970.
#[derive(Debug)]
pub struct FoundComic {
    pub comic: Comic,
    pub modified: i128,
}

/// The list is ordered from the comic changed last to the one changed first.
pub open spec fn is_newest_first(list: Seq<FoundComic>) -> bool {
    forall|i: int, j: int|
        0 <= i < j < list.len() ==> (#[trigger] list[i]).modified >= (#[trigger] list[j]).modified
}

/// An ordered list with one more comic: it stands behind every comic that
/// was changed at its time or later, and in front of the others.
pub open spec fn spec_insert_newest(list: Seq<FoundComic>, item: FoundComic) -> Seq<FoundComic>
    decreases list.len(),
{
    if list.len() == 0 || list.last().modified >= item.modified {
        list.push(item)
    } else {
        spec_insert_newest(list.drop_last(), item).push(list.last())
    }
}

/// The comics ordered from the one changed last to the one changed first;
/// comics changed at the same time keep the order in which they were found.
pub open spec fn spec_newest_first(found: Seq<FoundComic>) -> Seq<FoundComic>
    decreases found.len(),
{
    if found.len() == 0 {
        Seq::empty()
    } else {
        spec_insert_newest(spec_newest_first(found.drop_last()), found.last())
    }
}

/// The comics of a list of found comics.
pub open spec fn found_comics(found: Seq<FoundComic>) -> Seq<Comic> {
    found.map_values(|f: FoundComic| f.comic)
}

proof fn lemma_insert_newest_at(list: Seq<FoundComic>, item: FoundComic, at: int)
    requires
        0 <= at <= list.len(),
        forall|k: int| at <= k < list.len() ==> (#[trigger] list[k]).modified < item.modified,
        at > 0 ==> list[at - 1].modified >= item.modified,
    ensures
        spec_insert_newest(list, item) == list.insert(at, item),
    decreases list.len() - at,
{
    if at == list.len() {
        assert(list.insert(at, item) =~= list.push(item));
    } else {
        assert(list.last() == list[list.len() - 1]);
        lemma_insert_newest_at(list.drop_last(), item, at);
        assert(list.drop_last().insert(at, item).push(list.last()) =~= list.insert(at, item));
    }
}

/// To put one more comic into an ordered list keeps every comic, adds the
/// new one and keeps the order.
pub proof fn lemma_insert_newest(list: Seq<FoundComic>, item: FoundComic)
    ensures
        spec_insert_newest(list, item).to_multiset() == list.to_multiset().insert(item),
        forall|i: int|
            0 <= i < spec_insert_newest(list, item).len() ==> #[trigger] spec_insert_newest(
                list,
                item,
            )[i] == item || list.contains(spec_insert_newest(list, item)[i]),
        is_newest_first(list) ==> is_newest_first(spec_insert_newest(list, item)),
    decreases list.len(),
{
    broadcast use vstd::seq_lib::to_multiset_build;

    let out = spec_insert_newest(list, item);
    if list.len() == 0 || list.last().modified >= item.modified {
        assert forall|i: int| 0 <= i < out.len() implies #[trigger] out[i] == item
            || list.contains(out[i]) by {
            if i < list.len() {
                assert(list[i] == out[i]);
            }
        }
        if is_newest_first(list) {
            assert forall|i: int, j: int| 0 <= i < j < out.len() implies (#[trigger] out[i]).modified
                >= (#[trigger] out[j]).modified by {
                if j < list.len() {
                    assert(out[i] == list[i] && out[j] == list[j]);
                } else {
                    assert(out[i] == list[i]);
                    if i < list.len() - 1 {
                        assert(list[i].modified >= list[list.len() - 1].modified);
                    }
                }
            }
        }
    } else {
        let head = list.drop_last();
        let inner = spec_insert_newest(head, item);
        lemma_insert_newest(head, item);
        assert(list =~= head.push(list.last()));
        assert(out.to_multiset() =~= list.to_multiset().insert(item));
        assert forall|i: int| 0 <= i < out.len() implies #[trigger] out[i] == item
            || list.contains(out[i]) by {
            if i < inner.len() {
                assert(out[i] == inner[i]);
                if inner[i] != item {
                    let k = choose|k: int| 0 <= k < head.len() && head[k] == inner[i];
                    assert(list[k] == out[i]);
                }
            } else {
                assert(list[list.len() - 1] == out[i]);
            }
        }
        if is_newest_first(list) {
            assert forall|a: int, b: int| 0 <= a < b < head.len() implies (#[trigger] head[a]).modified
                >= (#[trigger] head[b]).modified by {
                assert(head[a] == list[a] && head[b] == list[b]);
            }
            assert forall|i: int, j: int| 0 <= i < j < out.len() implies (#[trigger] out[i]).modified
                >= (#[trigger] out[j]).modified by {
                if j < inner.len() {
                    assert(out[i] == inner[i] && out[j] == inner[j]);
                } else {
                    assert(out[i] == inner[i]);
                    if inner[i] != item {
                        let k = choose|k: int| 0 <= k < head.len() && head[k] == inner[i];
                        assert(list[k].modified >= list[list.len() - 1].modified);
                    }
                }
            }
        }
    }
}

/// The order of the downloaded comics holds every comic that was found,
/// as often as it was found, and goes from the comic changed last to the one
/// changed first.
pub proof fn lemma_newest_first(found: Seq<FoundComic>)
    ensures
        spec_newest_first(found).to_multiset() == found.to_multiset(),
        is_newest_first(spec_newest_first(found)),
    decreases found.len(),
{
    broadcast use vstd::seq_lib::to_multiset_build;

    if found.len() == 0 {
        assert(found =~= Seq::<FoundComic>::empty());
    } else {
        let head = found.drop_last();
        lemma_newest_first(head);
        lemma_insert_newest(spec_newest_first(head), found.last());
        assert(found =~= head.push(found.last()));
        assert(head.push(found.last()).to_multiset() =~= head.to_multiset().insert(found.last()));
    }
}

/// Orders the comics from the one changed last to the one changed first.
pub fn newest_first(found: Vec<FoundComic>) -> (ordered: Vec<FoundComic>)
    ensures
        ordered@ == spec_newest_first(found@),
{
    let ghost all = found@;
    let mut ordered: Vec<FoundComic> = Vec::new();
    assert(all.take(0) =~= Seq::<FoundComic>::empty());
    for item in it: found
        invariant
            all == it.seq(),
            ordered@ == spec_newest_first(all.take(it.index() as int)),
    {
        let ghost index = it.index() as int;
        proof {
            assert(item == all[index]);
            assert(all.take(index + 1).drop_last() =~= all.take(index));
            assert(all.take(index + 1).last() == item);
        }
        let mut at: usize = ordered.len();
        while at > 0 && ordered[at - 1].modified < item.modified
            invariant
                at <= ordered@.len(),
                forall|k: int|
                    at <= k < ordered@.len() ==> (#[trigger] ordered@[k]).modified < item.modified,
            decreases at,
        {
            at -= 1;
        }
        proof {
            lemma_insert_newest_at(ordered@, item, at as int);
        }
        ordered.insert(at, item);
    }
    assert(all.take(all.len() as int) =~= all);
    ordered
}

/// The downloaded comics to show, of those found on disk: the comic changed
/// last comes first, and where several hold the same id, the first of them
/// in that order stands for all.
pub fn get_downloaded_comics(found: Vec<FoundComic>) -> (unique: Vec<Comic>)
    ensures
        unique@ == spec_unique_comics(found_comics(spec_newest_first(found@))),
{
    let ordered = newest_first(found);
    let ghost all = ordered@;
    let mut comics: Vec<Comic> = Vec::new();
    for item in it: ordered
        invariant
            all == it.seq(),
            comics@.len() == it.index(),
            forall|i: int| 0 <= i < comics@.len() ==> #[trigger] comics@[i] == all[i].comic,
    {
        comics.push(item.comic);
    }
    assert(comics@ =~= found_comics(all));
    unique_comics(comics)
}

} // verus!
