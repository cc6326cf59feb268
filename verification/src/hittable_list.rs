//! Scenes: lists of surfaces, and the nearest hit of a ray among them.
use crate::hittable::{HitRecord, Hittable, Probe};
use crate::interval::Interval;
use vstd::prelude::*;

verus! {

/// The surfaces of a scene, in the order in which they were added.
#[derive(Debug)]
pub struct HittableList {
    objects: Vec<Hittable>,
}

impl View for HittableList {
    type V = Seq<Hittable>;

    closed spec fn view(&self) -> Seq<Hittable> {
        self.objects@
    }
}

/// How many surfaces of a scene a ray has measured: a surface beyond the
/// probes takes no part in a hit test, and neither does a probe beyond the
/// surfaces.
pub open spec fn measured(objects: Seq<Hittable>, probes: Seq<Probe>) -> nat {
    if objects.len() <= probes.len() {
        objects.len()
    } else {
        probes.len()
    }
}

/// `ray_t`, cut off at the nearest hit found so far.
pub open spec fn narrowed(ray_t: Interval, so_far: Option<HitRecord>) -> Interval {
    match so_far {
        Some(rec) => Interval { min: ray_t.min, max: rec.t },
        None => ray_t,
    }
}

/// The hit that a scan of the first `n` surfaces ends with. Each surface is
/// tested within `ray_t` cut off at the nearest hit before it, so a later
/// hit replaces an earlier one only where it is strictly nearer.
pub open spec fn scan(objects: Seq<Hittable>, probes: Seq<Probe>, ray_t: Interval, n: nat) -> Option<
    HitRecord,
>
    decreases n,
{
    if n == 0 {
        None
    } else {
        let before = scan(objects, probes, ray_t, (n - 1) as nat);
        match objects[n - 1].spec_hit(&probes[n - 1], narrowed(ray_t, before)) {
            Some(rec) => Some(rec),
            None => before,
        }
    }
}

/// The hit of surface `i` on its own, within the whole of `ray_t`.
pub open spec fn alone(objects: Seq<Hittable>, probes: Seq<Probe>, ray_t: Interval, i: int) -> Option<
    HitRecord,
> {
    objects[i].spec_hit(&probes[i], ray_t)
}

/// `found` is the nearest hit among the first `n` surfaces, each taken on its
/// own: `None` if none of them is hit; else the hit of a surface such that no
/// surface is hit at a smaller parameter, and every surface before it is hit
/// at a larger one, if at all.
pub open spec fn nearest_of(
    objects: Seq<Hittable>,
    probes: Seq<Probe>,
    ray_t: Interval,
    n: nat,
    found: Option<HitRecord>,
) -> bool {
    match found {
        None => forall|i: int| 0 <= i < n ==> alone(objects, probes, ray_t, i) is None,
        Some(rec) => exists|k: int|
            {
                &&& 0 <= k < n
                &&& #[trigger] alone(objects, probes, ray_t, k) == Some(rec)
                &&& forall|i: int|
                    0 <= i < n ==> (#[trigger] alone(objects, probes, ray_t, i) matches Some(other)
                        ==> !other.t.spec_lt(rec.t))
                &&& forall|i: int|
                    0 <= i < k ==> (#[trigger] alone(objects, probes, ray_t, i) matches Some(other)
                        ==> rec.t.spec_lt(other.t))
            },
    }
}

/// The pair of a surface and its probe occurs among the first `n`.
pub open spec fn occurs(
    objects: Seq<Hittable>,
    probes: Seq<Probe>,
    n: nat,
    object: Hittable,
    probe: Probe,
) -> bool {
    exists|j: int| 0 <= j < n && #[trigger] objects[j] == object && probes[j] == probe
}

/// Every probe among the first `n` has its roots in order.
pub open spec fn all_ordered(probes: Seq<Probe>, n: nat) -> bool {
    forall|i: int| 0 <= i < n ==> (#[trigger] probes[i]).ordered()
}

impl HittableList {
    /// The hit of a ray in this scene within `ray_t`: what a scan of all the
    /// measured surfaces ends with.
    pub open spec fn spec_hit(&self, probes: Seq<Probe>, ray_t: Interval) -> Option<HitRecord> {
        scan(self@, probes, ray_t, measured(self@, probes))
    }

    /// A scene without surfaces.
    pub fn new() -> (r: HittableList)
        ensures
            r@ == Seq::<Hittable>::empty(),
    {
        HittableList { objects: Vec::new() }
    }

    /// Adds a surface at the end.
    pub fn add(&mut self, object: Hittable)
        ensures
            final(self)@ == old(self)@.push(object),
    {
        self.objects.push(object);
    }

    /// Removes every surface.
    pub fn clear(&mut self)
        ensures
            final(self)@ == Seq::<Hittable>::empty(),
    {
        self.objects.clear();
    }

    /// The surfaces, in the order in which they were added.
    pub fn objects(&self) -> (r: &Vec<Hittable>)
        ensures
            r@ == self@,
    {
        &self.objects
    }

    /// Finds where a ray first hits the scene within `ray_t`. `probes[i]` is
    /// what the ray measured of surface `i`.
    ///
    /// The surfaces are scanned in order; each is tested within `ray_t` cut
    /// off at the nearest hit so far, and the last hit found is returned. An
    /// empty scene is never hit.
    ///
    /// With every probe's roots in order, the result is the nearest of the
    /// hits that the surfaces give one by one, and of several at the same
    /// parameter the one of the surface added first.
    pub fn hit(&self, probes: &Vec<Probe>, ray_t: Interval) -> (r: Option<HitRecord>)
        ensures
            r == self.spec_hit(probes@, ray_t),
            self@.len() == 0 ==> r is None,
            r matches Some(rec) ==> ray_t.spec_surrounds(rec.t),
            all_ordered(probes@, measured(self@, probes@)) ==> nearest_of(
                self@,
                probes@,
                ray_t,
                measured(self@, probes@),
                r,
            ),
    {
        let n: usize = if self.objects.len() <= probes.len() {
            self.objects.len()
        } else {
            probes.len()
        };
        let mut found: Option<HitRecord> = None;
        let mut closest_so_far = ray_t.max;
        let mut i: usize = 0;
        while i < n
            invariant
                i <= n,
                n == measured(self@, probes@),
                found == scan(self@, probes@, ray_t, i as nat),
                (Interval { min: ray_t.min, max: closest_so_far }) == narrowed(ray_t, found),
                found matches Some(rec) ==> ray_t.spec_surrounds(rec.t),
            decreases n - i,
        {
            let tried = self.objects[i].hit(&probes[i], Interval::new(ray_t.min, closest_so_far));
            if let Some(rec) = tried {
                closest_so_far = rec.t;
                found = Some(rec);
            }
            i += 1;
        }
        proof {
            if all_ordered(probes@, n as nat) {
                lemma_scan_is_nearest(self@, probes@, ray_t, n as nat);
            }
        }
        found
    }
}

impl Default for HittableList {
    /// A scene without surfaces.
    fn default() -> (r: HittableList)
        ensures
            r@ == Seq::<Hittable>::empty(),
    {
        HittableList::new()
    }
}

/// A probe with its roots in order, tested within `ray_t` cut off at a hit
/// found before, gives the hit that it gives within the whole of `ray_t`,
/// provided that this one is strictly nearer, and none otherwise.
proof fn lemma_narrowed_hit(object: Hittable, probe: Probe, ray_t: Interval, before: Option<HitRecord>)
    requires
        probe.ordered(),
        before matches Some(rec) ==> ray_t.spec_surrounds(rec.t),
    ensures
        object.spec_hit(&probe, narrowed(ray_t, before)) == (match object.spec_hit(&probe, ray_t) {
            Some(rec) => if before matches Some(old_rec) && !rec.t.spec_lt(old_rec.t) {
                None
            } else {
                Some(rec)
            },
            None => None,
        }),
{
}

/// With every probe's roots in order, a scan of the first `n` surfaces ends
/// with the nearest of the hits that those surfaces give one by one, and of
/// several at the same parameter with the first.
pub proof fn lemma_scan_is_nearest(
    objects: Seq<Hittable>,
    probes: Seq<Probe>,
    ray_t: Interval,
    n: nat,
)
    requires
        n <= measured(objects, probes),
        all_ordered(probes, n),
    ensures
        nearest_of(objects, probes, ray_t, n, scan(objects, probes, ray_t, n)),
        scan(objects, probes, ray_t, n) matches Some(rec) ==> ray_t.spec_surrounds(rec.t),
    decreases n,
{
    if n > 0 {
        let m = (n - 1) as nat;
        lemma_scan_is_nearest(objects, probes, ray_t, m);
        let before = scan(objects, probes, ray_t, m);
        let after = scan(objects, probes, ray_t, n);
        assert(probes[n - 1].ordered());
        lemma_narrowed_hit(objects[n - 1], probes[n - 1], ray_t, before);
        let last = alone(objects, probes, ray_t, n - 1);
        match before {
            None => {
                match after {
                    None => {},
                    Some(rec) => {
                        assert(alone(objects, probes, ray_t, n - 1) == Some(rec));
                    },
                }
            },
            Some(old_rec) => {
                let k = choose|k: int|
                    {
                        &&& 0 <= k < m
                        &&& #[trigger] alone(objects, probes, ray_t, k) == Some(old_rec)
                        &&& forall|i: int|
                            0 <= i < m ==> (#[trigger] alone(objects, probes, ray_t, i) matches Some(
                                other,
                            ) ==> !other.t.spec_lt(old_rec.t))
                        &&& forall|i: int|
                            0 <= i < k ==> (#[trigger] alone(objects, probes, ray_t, i) matches Some(
                                other,
                            ) ==> old_rec.t.spec_lt(other.t))
                    };
                if after == before {
                    assert(alone(objects, probes, ray_t, k) == Some(old_rec));
                } else {
                    let rec = after->Some_0;
                    assert(alone(objects, probes, ray_t, n - 1) == Some(rec));
                    assert(rec.t.spec_lt(old_rec.t));
                }
            },
        }
    }
}

/// The nearest hit does not depend on the order of the surfaces. Take two
/// scenes, each measured in full with every probe's roots in order, such that
/// each surface of one, with its probe, occurs in the other. Then a ray hits
/// both or neither, and it hits both at the same parameter.
pub proof fn lemma_hit_order_independent(
    objects_a: Seq<Hittable>,
    probes_a: Seq<Probe>,
    objects_b: Seq<Hittable>,
    probes_b: Seq<Probe>,
    ray_t: Interval,
)
    requires
        objects_a.len() == probes_a.len(),
        objects_b.len() == probes_b.len(),
        all_ordered(probes_a, probes_a.len()),
        all_ordered(probes_b, probes_b.len()),
        forall|i: int|
            0 <= i < objects_a.len() ==> occurs(
                objects_b,
                probes_b,
                objects_b.len(),
                #[trigger] objects_a[i],
                probes_a[i],
            ),
        forall|i: int|
            0 <= i < objects_b.len() ==> occurs(
                objects_a,
                probes_a,
                objects_a.len(),
                #[trigger] objects_b[i],
                probes_b[i],
            ),
    ensures
        scan(objects_a, probes_a, ray_t, objects_a.len()) is Some <==> scan(
            objects_b,
            probes_b,
            ray_t,
            objects_b.len(),
        ) is Some,
        scan(objects_a, probes_a, ray_t, objects_a.len()) matches Some(rec_a) ==> scan(
            objects_b,
            probes_b,
            ray_t,
            objects_b.len(),
        ) matches Some(rec_b) && rec_a.t.spec_equals(rec_b.t),
{
    let hit_a = scan(objects_a, probes_a, ray_t, objects_a.len());
    let hit_b = scan(objects_b, probes_b, ray_t, objects_b.len());
    lemma_scan_is_nearest(objects_a, probes_a, ray_t, objects_a.len());
    lemma_scan_is_nearest(objects_b, probes_b, ray_t, objects_b.len());
    lemma_nearest_occurs(objects_a, probes_a, objects_b, probes_b, ray_t, hit_a, hit_b);
    lemma_nearest_occurs(objects_b, probes_b, objects_a, probes_a, ray_t, hit_b, hit_a);
}

/// Where the nearest hit among some surfaces is `hit`, and each of them
/// occurs among other surfaces, the nearest hit among those is at least as
/// near.
proof fn lemma_nearest_occurs(
    objects: Seq<Hittable>,
    probes: Seq<Probe>,
    objects_other: Seq<Hittable>,
    probes_other: Seq<Probe>,
    ray_t: Interval,
    hit: Option<HitRecord>,
    hit_other: Option<HitRecord>,
)
    requires
        nearest_of(objects, probes, ray_t, objects.len(), hit),
        nearest_of(objects_other, probes_other, ray_t, objects_other.len(), hit_other),
        forall|i: int|
            0 <= i < objects.len() ==> occurs(
                objects_other,
                probes_other,
                objects_other.len(),
                #[trigger] objects[i],
                probes[i],
            ),
    ensures
        hit matches Some(rec) ==> hit_other matches Some(rec_other) && !rec.t.spec_lt(rec_other.t),
{
    if let Some(rec) = hit {
        let k = choose|k: int|
            0 <= k < objects.len() && #[trigger] alone(objects, probes, ray_t, k) == Some(rec);
        assert(occurs(objects_other, probes_other, objects_other.len(), objects[k], probes[k]));
        let j = choose|j: int|
            0 <= j < objects_other.len() && #[trigger] objects_other[j] == objects[k]
                && probes_other[j] == probes[k];
        assert(alone(objects_other, probes_other, ray_t, j) == Some(rec));
    }
}

} // verus!
