//! The primitive registry: an arena of hitables addressed by integer
//! handles.  Handle 0 is reserved for "none"; the n-th registered primitive
//! gets handle n, assigned exactly once, at registration.

use vstd::prelude::*;

verus! {

use crate::hitable::{Hitable, ShellModel, shell_wf};

/// Registry lookup: handles run from 1 to the number of entries.
pub open spec fn hitable_lookup(lib: Seq<ShellModel>, id: u32) -> Option<ShellModel> {
    if 1 <= id && id <= lib.len() {
        Some(lib[id - 1])
    } else {
        None
    }
}

pub struct HitableLibrary {
    library: Vec<Hitable>,
}

impl View for HitableLibrary {
    type V = Seq<ShellModel>;

    closed spec fn view(&self) -> Seq<ShellModel> {
        self.library@.map_values(|h: Hitable| h@)
    }
}

impl HitableLibrary {
    /// All stored primitives are well-formed and carry the handle of their
    /// own slot.
    pub closed spec fn inv(&self) -> bool {
        &&& forall|i: int|
            0 <= i < self.library@.len() ==> (#[trigger] self.library@[i]).inv()
        &&& forall|i: int|
            0 <= i < self.library@.len() ==> (#[trigger] self.library@[i])@.id == i + 1
        &&& self.library@.len() < 0xFFFF_FFFF
    }

    pub fn new() -> (r: HitableLibrary)
        ensures
            r@ == Seq::<ShellModel>::empty(),
            r.inv(),
    {
        let r = HitableLibrary { library: Vec::new() };
        proof {
            assert(r@ =~= Seq::<ShellModel>::empty());
        }
        r
    }

    /// Register a primitive; it receives the next handle, which is returned.
    pub fn add_hitable_to_library(&mut self, hitable: Hitable) -> (id: u32)
        requires
            old(self).inv(),
            hitable.inv(),
            old(self)@.len() < 0xFFFF_FFFE,
        ensures
            final(self).inv(),
            id == old(self)@.len() + 1,
            final(self)@ == old(self)@.push(
                ShellModel {
                    center: hitable@.center,
                    radius: hitable@.radius,
                    material_id: hitable@.material_id,
                    id,
                },
            ),
    {
        let mut h = hitable;
        let id: u32 = (self.library.len() as u32) + 1;
        h.set_hitable_id(id);
        self.library.push(h);
        proof {
            assert(self@ =~= old(self)@.push(h@));
        }
        id
    }

    /// Fetch a primitive by handle; `None` exactly when the handle was never
    /// assigned.
    pub fn checkout_hitable(&self, id: u32) -> (r: Option<&Hitable>)
        requires
            self.inv(),
        ensures
            match r {
                Some(h) => hitable_lookup(self@, id) == Some(h@) && h.inv(),
                None => hitable_lookup(self@, id) is None,
            },
    {
        if id >= 1 && (id as usize) <= self.library.len() {
            Some(&self.library[(id - 1) as usize])
        } else {
            None
        }
    }

    /// Number of registered primitives.
    pub fn len(&self) -> (r: usize)
        ensures
            r == self@.len(),
    {
        self.library.len()
    }

    /// Every stored model is a well-formed shell.
    pub proof fn lemma_inv_models(&self)
        requires
            self.inv(),
        ensures
            forall|i: int| 0 <= i < self@.len() ==> shell_wf(#[trigger] self@[i]),
            forall|i: int| 0 <= i < self@.len() ==> (#[trigger] self@[i]).id == i + 1,
    {
        assert forall|i: int| 0 <= i < self@.len() implies shell_wf(#[trigger] self@[i]) by {
            assert(self.library@[i].inv());
            assert(self@[i] == self.library@[i]@);
        }
        assert forall|i: int| 0 <= i < self@.len() implies (#[trigger] self@[i]).id == i + 1 by {
            assert(self@[i] == self.library@[i]@);
        }
    }
}

} // verus!
