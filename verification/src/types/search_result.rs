use crate::errors::HitomiError;
use crate::hitomi::common::GalleryInfo;
use crate::hitomi::gg::{GGView, GG};
use crate::types::comic::{is_projection, spec_cover_url, Comic};
use vstd::prelude::*;

verus! {

/// One page of the comics of a search, with all ids that the search found.
#[derive(Debug)]
pub struct SearchResult {
    pub comics: Vec<Comic>,
    pub current_page: usize,
    pub total_page: usize,
    pub ids: Vec<i32>,
}

/// The comic is the projection of the gallery, with the cover address that
/// the routing table gives.
#[verifier::opaque]
pub open spec fn projects(comic: Comic, info: GalleryInfo, table: GGView) -> bool {
    is_projection(comic, info) && spec_cover_url(info.files@, table) == Ok::<
        Seq<char>,
        HitomiError,
    >(comic.cover_url@)
}

/// The gallery cannot be projected; `e` says why.
#[verifier::opaque]
pub open spec fn refused(info: GalleryInfo, table: GGView, e: HitomiError) -> bool {
    spec_cover_url(info.files@, table) == Err::<Seq<char>, HitomiError>(e)
}

/// The gallery can be projected.
#[verifier::opaque]
pub open spec fn projectable(info: GalleryInfo, table: GGView) -> bool {
    spec_cover_url(info.files@, table) is Ok
}

/// The galleries before `n` can all be projected.
pub open spec fn all_projectable(infos: Seq<GalleryInfo>, n: int, table: GGView) -> bool {
    forall|i: int| 0 <= i < n ==> projectable(#[trigger] infos[i], table)
}

fn project(info: GalleryInfo, gg: &GG) -> (r: Result<Comic, HitomiError>)
    ensures
        match r {
            Ok(comic) => projects(comic, info, gg@) && projectable(info, gg@),
            Err(e) => refused(info, gg@, e),
        },
{
    reveal(projects);
    reveal(refused);
    reveal(projectable);
    Comic::from_gallery_info(info, gg)
}

impl SearchResult {
    /// The page made of the galleries: each gallery is projected into a
    /// comic, in order. The first gallery that cannot be projected gives the
    /// error of the whole.
    pub fn from_gallery_infos(
        gallery_infos: Vec<GalleryInfo>,
        current_page: usize,
        total_page: usize,
        ids: Vec<i32>,
        gg: &GG,
    ) -> (r: Result<SearchResult, HitomiError>)
        ensures
            match r {
                Ok(page) => {
                    &&& page.current_page == current_page
                    &&& page.total_page == total_page
                    &&& page.ids == ids
                    &&& page.comics@.len() == gallery_infos@.len()
                    &&& all_projectable(gallery_infos@, gallery_infos@.len() as int, gg@)
                    &&& forall|i: int|
                        0 <= i < page.comics@.len() ==> projects(
                            #[trigger] page.comics@[i],
                            gallery_infos@[i],
                            gg@,
                        )
                },
                Err(e) => exists|i: int|
                    0 <= i < gallery_infos@.len() && all_projectable(gallery_infos@, i, gg@)
                        && refused(#[trigger] gallery_infos@[i], gg@, e),
            },
    {
        let ghost all = gallery_infos@;
        let mut comics: Vec<Comic> = Vec::new();
        for info in it: gallery_infos
            invariant
                all == it.seq(),
                comics@.len() == it.index(),
                all_projectable(all, it.index() as int, gg@),
                forall|i: int| 0 <= i < comics@.len() ==> projects(#[trigger] comics@[i], all[i], gg@),
        {
            let ghost at = it.index() as int;
            assert(info == all[at]);
            match project(info, gg) {
                Ok(comic) => {
                    comics.push(comic);
                },
                Err(e) => {
                    assert(refused(all[at], gg@, e));
                    return Err(e);
                },
            }
        }
        Ok(SearchResult { comics, current_page, total_page, ids })
    }
}

} // verus!
