//! The directory loader's decision logic.
//!
//! At node start the managed directory is walked, non-recursively. Every
//! file ending in `.forest.car.zst` is opened and registered; files ending
//! in `.forest.car.zst.tmp` are swept when cleanup is asked for; everything
//! else is ignored. The walking, opening and deleting are the runner's
//! work; this module decides, from the directory listing, exactly which
//! files to load and which to delete.

use vstd::prelude::*;

verus! {

use crate::forest::{
    has_forest_car_ext,
    has_temp_forest_car_ext,
    is_forest_car_name,
    is_temp_forest_car_name,
};
use crate::header::copy_range;

/// The byte views of a sequence of byte vectors.
pub open spec fn byte_views(s: Seq<Vec<u8>>) -> Seq<Seq<u8>> {
    s.map(|i: int, v: Vec<u8>| v@)
}

/// What a directory listing asks the loader to do: which entries to open
/// and register, in listing order, and which stale temp files to delete.
pub struct LoadPlan {
    /// The file names to open as forest cars and register, in order.
    pub to_load: Vec<Vec<u8>>,
    /// The temp file names to delete.
    pub to_delete: Vec<Vec<u8>>,
}

/// Plans a boot-time load that also sweeps stale temp files: every entry
/// ending in `.forest.car.zst` is loaded, in listing order, and every
/// entry ending in `.forest.car.zst.tmp` is deleted.
pub fn load_all_forest_cars_with_cleanup(entries: &Vec<Vec<u8>>) -> (r: LoadPlan)
    ensures
        byte_views(r.to_load@) == byte_views(entries@).filter(
            |n: Seq<u8>| has_forest_car_ext(n),
        ),
        byte_views(r.to_delete@) == byte_views(entries@).filter(
            |n: Seq<u8>| has_temp_forest_car_ext(n),
        ),
{
    load_all_forest_cars_internal(entries, true)
}

/// Plans a boot-time load without a sweep: every entry ending in
/// `.forest.car.zst` is loaded, in listing order, and nothing is deleted.
pub fn load_all_forest_cars(entries: &Vec<Vec<u8>>) -> (r: LoadPlan)
    ensures
        byte_views(r.to_load@) == byte_views(entries@).filter(
            |n: Seq<u8>| has_forest_car_ext(n),
        ),
        r.to_delete@.len() == 0,
{
    load_all_forest_cars_internal(entries, false)
}

fn load_all_forest_cars_internal(entries: &Vec<Vec<u8>>, cleanup: bool) -> (r: LoadPlan)
    ensures
        byte_views(r.to_load@) == byte_views(entries@).filter(
            |n: Seq<u8>| has_forest_car_ext(n),
        ),
        cleanup ==> byte_views(r.to_delete@) == byte_views(entries@).filter(
            |n: Seq<u8>| has_temp_forest_car_ext(n),
        ),
        !cleanup ==> r.to_delete@.len() == 0,
{
    let ghost views = byte_views(entries@);
    let mut to_load: Vec<Vec<u8>> = Vec::new();
    let mut to_delete: Vec<Vec<u8>> = Vec::new();
    let n = entries.len();
    proof {
        assert(views.take(0) =~= Seq::<Seq<u8>>::empty());
        reveal(Seq::filter);
        assert(byte_views(to_load@) =~= views.take(0).filter(|n: Seq<u8>| has_forest_car_ext(n)));
        assert(byte_views(to_delete@) =~= views.take(0).filter(
            |n: Seq<u8>| has_temp_forest_car_ext(n),
        ));
    }
    for i in 0..n
        invariant
            n == entries@.len(),
            views == byte_views(entries@),
            byte_views(to_load@) == views.take(i as int).filter(
                |n: Seq<u8>| has_forest_car_ext(n),
            ),
            cleanup ==> byte_views(to_delete@) == views.take(i as int).filter(
                |n: Seq<u8>| has_temp_forest_car_ext(n),
            ),
            !cleanup ==> to_delete@.len() == 0,
    {
        let ghost old_load = to_load@;
        let ghost old_delete = to_delete@;
        let entry = &entries[i];
        if is_forest_car_name(entry.as_slice()) {
            let copy = copy_range(entry.as_slice(), 0, entry.len());
            proof {
                assert(copy@ =~= entry@);
            }
            to_load.push(copy);
        } else if cleanup && is_temp_forest_car_name(entry.as_slice()) {
            let copy = copy_range(entry.as_slice(), 0, entry.len());
            proof {
                assert(copy@ =~= entry@);
            }
            to_delete.push(copy);
        }
        proof {
            reveal(Seq::filter);
            assert(views.take(i + 1).drop_last() =~= views.take(i as int));
            assert(views.take(i + 1).last() == views[i as int]);
            assert(views[i as int] == entries@[i as int]@);
            if has_forest_car_ext(views[i as int]) {
                assert(byte_views(to_load@) =~= byte_views(old_load).push(views[i as int]));
            } else {
                assert(byte_views(to_load@) =~= byte_views(old_load));
            }
            if cleanup && !has_forest_car_ext(views[i as int]) && has_temp_forest_car_ext(
                views[i as int],
            ) {
                assert(byte_views(to_delete@) =~= byte_views(old_delete).push(views[i as int]));
            } else {
                assert(byte_views(to_delete@) =~= byte_views(old_delete));
            }
            lemma_live_and_temp_disjoint(views[i as int]);
        }
    }
    proof {
        assert(views.take(n as int) =~= views);
    }
    LoadPlan { to_load, to_delete }
}

/// A live archive name and a stale temp name never coincide: the two
/// suffixes differ in their last byte.
pub proof fn lemma_live_and_temp_disjoint(name: Seq<u8>)
    ensures
        !(has_forest_car_ext(name) && has_temp_forest_car_ext(name)),
{
    if has_forest_car_ext(name) && has_temp_forest_car_ext(name) {
        assert(name[name.len() - 1] == 0x74u8);
        assert(name[name.len() - 1] == 0x70u8);
    }
}

} // verus!
