//! The scene: an ordered collection of primitive handles, intersected as a
//! whole.  Among all members hit inside the interval, the nearest (smallest
//! parameter `t`) wins; the scan shrinks the upper bound as hits are found.

use vstd::prelude::*;

verus! {

use crate::vec3::V3;
use crate::ray::Ray;
use crate::hitable::{HitRecord, HitInfo, ShellModel, RenderError, shell_hit_spec, ray_args_ok, T_CAP};
use crate::hitable_library::{HitableLibrary, hitable_lookup};

/// The fold that defines the scene intersection: walk the handles from index
/// `i` with `best` the nearest hit so far; a handle absent from the registry
/// is a fatal configuration fault.
pub open spec fn world_hit_from(
    ids: Seq<u32>,
    lib: Seq<ShellModel>,
    origin: V3,
    dir: V3,
    t_min: int,
    t_max: int,
    i: nat,
    best: Option<HitInfo>,
) -> Result<Option<HitInfo>, RenderError>
    decreases ids.len() - i,
{
    if i >= ids.len() {
        Ok(best)
    } else {
        match hitable_lookup(lib, ids[i as int]) {
            None => Err(RenderError::MissingHitable(ids[i as int])),
            Some(m) => {
                let cur_max = match best {
                    Some(h) => h.t,
                    None => t_max,
                };
                match shell_hit_spec(m, origin, dir, t_min, cur_max) {
                    Some(h) => world_hit_from(ids, lib, origin, dir, t_min, t_max, i + 1, Some(h)),
                    None => world_hit_from(ids, lib, origin, dir, t_min, t_max, i + 1, best),
                }
            },
        }
    }
}

/// The nearest hit of the whole scene, or the first dangling handle.
pub open spec fn world_hit_spec(
    ids: Seq<u32>,
    lib: Seq<ShellModel>,
    origin: V3,
    dir: V3,
    t_min: int,
    t_max: int,
) -> Result<Option<HitInfo>, RenderError> {
    world_hit_from(ids, lib, origin, dir, t_min, t_max, 0, None)
}

/// The bounds any hit out of the scene fold satisfies: parameter inside the
/// cap, position one step beyond the origin bound, normal clamped.
pub open spec fn hit_bounded(h: HitInfo, ob: int) -> bool {
    &&& crate::vec3::in_bound(h.position, ob + 1073741824)
    &&& crate::vec3::in_bound(h.normal, crate::hitable::NORMAL_CAP as int)
    &&& 0 < h.t <= T_CAP as int
}

proof fn lemma_world_hit_from_bounds(
    ids: Seq<u32>,
    lib: Seq<ShellModel>,
    origin: V3,
    dir: V3,
    t_min: int,
    t_max: int,
    i: nat,
    best: Option<HitInfo>,
    ob: int,
)
    requires
        ray_args_ok(origin, dir, t_min, t_max),
        crate::vec3::in_bound(origin, ob),
        0 <= ob,
        match best {
            Some(h) => hit_bounded(h, ob),
            None => true,
        },
    ensures
        match world_hit_from(ids, lib, origin, dir, t_min, t_max, i, best) {
            Ok(Some(h)) => hit_bounded(h, ob),
            _ => true,
        },
    decreases ids.len() - i,
{
    if i >= ids.len() {
    } else {
        match hitable_lookup(lib, ids[i as int]) {
            None => {},
            Some(m) => {
                let cur_max = match best {
                    Some(h) => h.t,
                    None => t_max,
                };
                crate::hitable::lemma_shell_hit_bounds(m, origin, dir, t_min, cur_max, ob);
                crate::hitable::lemma_shell_hit_range(m, origin, dir, t_min, cur_max);
                match shell_hit_spec(m, origin, dir, t_min, cur_max) {
                    Some(h) => {
                        lemma_world_hit_from_bounds(
                            ids, lib, origin, dir, t_min, t_max, i + 1, Some(h), ob,
                        );
                    },
                    None => {
                        lemma_world_hit_from_bounds(
                            ids, lib, origin, dir, t_min, t_max, i + 1, best, ob,
                        );
                    },
                }
            },
        }
    }
}

/// Any hit the scene reports is bounded: its parameter is inside the cap and
/// its position within one step of the ray origin's bound.
pub proof fn lemma_world_hit_bounds(
    ids: Seq<u32>,
    lib: Seq<ShellModel>,
    origin: V3,
    dir: V3,
    t_min: int,
    t_max: int,
    ob: int,
)
    requires
        ray_args_ok(origin, dir, t_min, t_max),
        crate::vec3::in_bound(origin, ob),
        0 <= ob,
    ensures
        match world_hit_spec(ids, lib, origin, dir, t_min, t_max) {
            Ok(Some(h)) => hit_bounded(h, ob),
            _ => true,
        },
{
    lemma_world_hit_from_bounds(ids, lib, origin, dir, t_min, t_max, 0, None, ob);
}

proof fn lemma_world_hit_from_wf(
    ids: Seq<u32>,
    lib: Seq<ShellModel>,
    mlen: int,
    origin: V3,
    dir: V3,
    t_min: int,
    t_max: int,
    i: nat,
    best: Option<HitInfo>,
)
    requires
        forall|k: int| 0 <= k < ids.len() ==> 1 <= #[trigger] ids[k] <= lib.len(),
        forall|j: int| 0 <= j < lib.len() ==> 1 <= (#[trigger] lib[j]).material_id <= mlen,
        match best {
            Some(h) => 1 <= h.material <= mlen,
            None => true,
        },
    ensures
        match world_hit_from(ids, lib, origin, dir, t_min, t_max, i, best) {
            Ok(Some(h)) => 1 <= h.material <= mlen,
            Ok(None) => true,
            Err(_) => false,
        },
    decreases ids.len() - i,
{
    if i >= ids.len() {
    } else {
        let m = hitable_lookup(lib, ids[i as int]).unwrap();
        let cur_max = match best {
            Some(h) => h.t,
            None => t_max,
        };
        crate::hitable::lemma_shell_hit_handles(m, origin, dir, t_min, cur_max);
        match shell_hit_spec(m, origin, dir, t_min, cur_max) {
            Some(h) => {
                lemma_world_hit_from_wf(ids, lib, mlen, origin, dir, t_min, t_max, i + 1, Some(h));
            },
            None => {
                lemma_world_hit_from_wf(ids, lib, mlen, origin, dir, t_min, t_max, i + 1, best);
            },
        }
    }
}

/// Against a registry that holds every handle the scene names, with every
/// material handle in range, the scene intersection never faults, and any
/// hit names a material the material registry holds.
pub proof fn lemma_world_hit_wf(
    ids: Seq<u32>,
    lib: Seq<ShellModel>,
    mlen: int,
    origin: V3,
    dir: V3,
    t_min: int,
    t_max: int,
)
    requires
        forall|k: int| 0 <= k < ids.len() ==> 1 <= #[trigger] ids[k] <= lib.len(),
        forall|j: int| 0 <= j < lib.len() ==> 1 <= (#[trigger] lib[j]).material_id <= mlen,
    ensures
        match world_hit_spec(ids, lib, origin, dir, t_min, t_max) {
            Ok(Some(h)) => 1 <= h.material <= mlen,
            Ok(None) => true,
            Err(_) => false,
        },
{
    lemma_world_hit_from_wf(ids, lib, mlen, origin, dir, t_min, t_max, 0, None);
}

pub struct HitableList {
    id_list: Vec<u32>,
}

impl View for HitableList {
    type V = Seq<u32>;

    closed spec fn view(&self) -> Seq<u32> {
        self.id_list@
    }
}

impl HitableList {
    pub fn new_with_hitable_id_list(list: Vec<u32>) -> (r: HitableList)
        ensures
            r@ == list@,
    {
        HitableList { id_list: list }
    }

    /// Intersect the ray against every member, keeping the globally nearest
    /// valid hit.  Returns `Ok(true)` and fills the record when something was
    /// hit, `Ok(false)` leaving the record untouched on a clean miss, and the
    /// fault for the first handle missing from the registry.
    pub fn cast_ray_into_world(
        &self,
        ray_in: &Ray,
        t_min: i64,
        t_max: i64,
        record: &mut HitRecord,
        hitable_library: &HitableLibrary,
    ) -> (res: Result<bool, RenderError>)
        requires
            hitable_library.inv(),
            ray_args_ok(ray_in.origin@, ray_in.direction@, t_min as int, t_max as int),
        ensures
            match world_hit_spec(
                self@,
                hitable_library@,
                ray_in.origin@,
                ray_in.direction@,
                t_min as int,
                t_max as int,
            ) {
                Ok(Some(h)) => res == Ok::<bool, RenderError>(true) && final(record)@ == h,
                Ok(None) => res == Ok::<bool, RenderError>(false) && *final(record) == *old(
                    record,
                ),
                Err(e) => res == Err::<bool, RenderError>(e) && *final(record) == *old(record),
            },
    {
        let ghost origin = ray_in.origin@;
        let ghost dir = ray_in.direction@;
        let mut temp_rec = HitRecord::empty();
        let mut hit_anything = false;
        let mut closest_so_far = t_max;
        let n = self.id_list.len();
        let mut i: usize = 0;
        while i < n
            invariant
                hitable_library.inv(),
                ray_args_ok(origin, dir, t_min as int, t_max as int),
                origin == ray_in.origin@,
                dir == ray_in.direction@,
                i <= n,
                n == self@.len(),
                hit_anything ==> t_min < closest_so_far < t_max && temp_rec@.t
                    == closest_so_far as int,
                !hit_anything ==> closest_so_far == t_max,
                world_hit_from(
                    self@,
                    hitable_library@,
                    origin,
                    dir,
                    t_min as int,
                    t_max as int,
                    i as nat,
                    if hit_anything {
                        Some(temp_rec@)
                    } else {
                        None
                    },
                ) == world_hit_spec(self@, hitable_library@, origin, dir, t_min as int, t_max as int),
            decreases n - i,
        {
            let id = self.id_list[i];
            match hitable_library.checkout_hitable(id) {
                Some(object) => {
                    let ghost best_before: Option<HitInfo> = if hit_anything {
                        Some(temp_rec@)
                    } else {
                        None
                    };
                    if object.hit(ray_in, t_min, closest_so_far, &mut temp_rec) {
                        proof {
                            crate::hitable::lemma_shell_hit_range(
                                object@,
                                origin,
                                dir,
                                t_min as int,
                                closest_so_far as int,
                            );
                        }
                        hit_anything = true;
                        closest_so_far = temp_rec.t;
                    }
                },
                None => {
                    return Err(RenderError::MissingHitable(id));
                },
            }
            i = i + 1;
        }
        if hit_anything {
            record.copy_over(&temp_rec);
            Ok(true)
        } else {
            Ok(false)
        }
    }
}

} // verus!
