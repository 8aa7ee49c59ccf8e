//! A store over many archives: an ordered collection of read-only archive
//! handles plus one writable in-memory overlay.
//!
//! Reads query the archives in insertion order and return the first hit;
//! the overlay is queried last. Writes always go to the overlay. Duplicate
//! archives are allowed and harmless: the first wins on read.

use vstd::prelude::*;

verus! {

use crate::cid_map::CidVecMap;
use crate::cids::Cid;
use crate::header::copy_range;
use crate::plain::PlainCar;

/// The first archive hit for CID `k`, in insertion order.
pub open spec fn first_hit(archives: Seq<PlainCar>, k: Seq<u8>) -> Option<Seq<u8>>
    decreases archives.len(),
{
    if archives.len() == 0 {
        None
    } else {
        match archives[0].get_result(k) {
            Some(v) => Some(v),
            None => first_hit(archives.skip(1), k),
        }
    }
}

/// A registry of read-only archives with a single writable overlay.
pub struct ManyCar {
    read_only: Vec<PlainCar>,
    writer: CidVecMap<Vec<u8>>,
}

impl ManyCar {
    /// The read-only archives, in insertion order.
    pub closed spec fn archives(self) -> Seq<PlainCar> {
        self.read_only@
    }

    /// The overlay's bytes under CID `k`, if any.
    pub closed spec fn overlay_at(self, k: Seq<u8>) -> Option<Seq<u8>> {
        match self.writer.spec_get(k) {
            Some(v) => Some(v@),
            None => None,
        }
    }

    /// Every archive and the overlay are internally consistent.
    pub closed spec fn wf(self) -> bool {
        &&& forall|i: int| 0 <= i < self.read_only@.len() ==> (#[trigger] self.read_only@[i]).wf()
        &&& self.writer.wf()
    }

    /// What a read of CID `k` returns: the first archive hit, the overlay
    /// as the last resort.
    pub open spec fn get_result(self, k: Seq<u8>) -> Option<Seq<u8>> {
        match first_hit(self.archives(), k) {
            Some(v) => Some(v),
            None => self.overlay_at(k),
        }
    }

    /// An empty registry.
    pub fn new() -> (r: ManyCar)
        ensures
            r.wf(),
            r.archives().len() == 0,
            forall|k: Seq<u8>| #[trigger] r.overlay_at(k) is None,
    {
        ManyCar { read_only: Vec::new(), writer: CidVecMap::new() }
    }

    /// Appends a read-only archive. Duplicates are allowed; the first
    /// wins on read.
    pub fn read_only(&mut self, car: PlainCar)
        requires
            old(self).wf(),
            car.wf(),
        ensures
            final(self).wf(),
            final(self).archives() == old(self).archives().push(car),
            forall|k: Seq<u8>| #[trigger]
                final(self).overlay_at(k) == old(self).overlay_at(k),
    {
        self.read_only.push(car);
    }

    /// The number of read-only archives.
    pub fn len(&self) -> (r: usize)
        ensures
            r == self.archives().len(),
    {
        self.read_only.len()
    }

    /// Serves a read: queries the archives in insertion order, the overlay
    /// last. A queried archive may evict `k` from its write cache, as
    /// [`PlainCar::get`] describes; archives keep their order.
    pub fn get(&mut self, k: &Cid) -> (r: Option<Vec<u8>>)
        requires
            old(self).wf(),
        ensures
            final(self).wf(),
            match r {
                Some(v) => old(self).get_result(k@) == Some(v@),
                None => old(self).get_result(k@) is None,
            },
            final(self).archives().len() == old(self).archives().len(),
            forall|i: int|
                0 <= i < old(self).archives().len() ==> PlainCar::get_post(
                    old(self).archives()[i],
                    #[trigger] final(self).archives()[i],
                    k@,
                ) || final(self).archives()[i] == old(self).archives()[i],
            forall|k2: Seq<u8>| #[trigger] final(self).overlay_at(k2) == old(self).overlay_at(k2),
    {
        let ghost orig = self.read_only@;
        let n = self.read_only.len();
        let mut i: usize = 0;
        proof {
            assert(orig.skip(0) =~= orig);
        }
        while i < n
            invariant
                old(self).wf(),
                orig == old(self).read_only@,
                n == orig.len(),
                i <= n,
                self.writer == old(self).writer,
                self.read_only@.len() == n,
                forall|j: int| 0 <= j < n ==> (#[trigger] self.read_only@[j]).wf(),
                forall|j: int|
                    0 <= j < n ==> PlainCar::get_post(orig[j], #[trigger] self.read_only@[j], k@)
                        || self.read_only@[j] == orig[j],
                forall|j: int| i <= j < n ==> #[trigger] self.read_only@[j] == orig[j],
                first_hit(orig, k@) == first_hit(orig.skip(i as int), k@),
                forall|j: int| 0 <= j < i ==> (#[trigger] orig[j]).get_result(k@) is None,
            decreases n - i,
        {
            proof {
                assert(orig.skip(i as int)[0] == orig[i as int]);
                assert(orig.skip(i as int).skip(1) =~= orig.skip(i as int + 1));
            }
            let ghost pre_iter = self.read_only@;
            let mut car = self.read_only.remove(i);
            let got = car.get(k);
            self.read_only.insert(i, car);
            proof {
                assert(self.read_only@ =~= pre_iter.update(i as int, self.read_only@[i as int]));
            }
            match got {
                Some(v) => {
                    return Some(v);
                }
                None => {
                    i = i + 1;
                }
            }
        }
        proof {
            assert(orig.skip(n as int) =~= Seq::<PlainCar>::empty());
        }
        match self.writer.get(k) {
            Some(v) => {
                let r = copy_range(v.as_slice(), 0, v.len());
                proof {
                    assert(r@ =~= v@);
                }
                Some(r)
            }
            None => None,
        }
    }

    /// Absorbs a write into the overlay: the overlay then holds exactly
    /// these bytes under this CID.
    pub fn put_keyed(&mut self, k: &Cid, block: &[u8])
        requires
            old(self).wf(),
        ensures
            final(self).wf(),
            final(self).archives() == old(self).archives(),
            final(self).overlay_at(k@) == Some(block@),
            forall|k2: Seq<u8>| k2 != k@ ==> #[trigger] final(self).overlay_at(k2) == old(
                self,
            ).overlay_at(k2),
    {
        let data = copy_range(block, 0, block.len());
        proof {
            assert(data@ =~= block@);
        }
        if self.writer.contains_key(k) {
            let _ = self.writer.remove(k);
        }
        self.writer.insert(k.dup(), data);
    }
}

} // verus!
