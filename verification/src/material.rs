use vstd::prelude::*;

verus! {

/// The reserved material id of air: "no voxel present".
pub const AIR_ID: u32 = 0;

/// An opaque small-integer handle identifying a voxel's substance.
#[derive(Copy, Clone, PartialEq, Eq, Structural, PartialOrd, Ord, Hash, Debug)]
pub struct MaterialID {
    pub id: u32,
}

impl MaterialID {
    pub fn from(id: u32) -> (r: Self)
        ensures
            r.id == id,
    {
        MaterialID { id }
    }
}

impl From<u32> for MaterialID {
    fn from(id: u32) -> (r: Self) {
        MaterialID { id }
    }
}

impl vstd::std_specs::convert::FromSpecImpl<u32> for MaterialID {
    open spec fn obeys_from_spec() -> bool {
        true
    }

    open spec fn from_spec(id: u32) -> Self {
        MaterialID { id }
    }
}

/// A voxel substance and its rendering-relevant flags. Immutable once
/// registered.
#[derive(Copy, Clone, PartialEq, Eq, Structural, Debug)]
pub struct Material {
    pub id: MaterialID,
    pub transparent: bool,
    pub custom_model: bool,
}

/// The well-known material standing for "no voxel present": id 0,
/// transparent, no custom model.
pub open spec fn air_material() -> Material {
    Material { id: MaterialID { id: AIR_ID }, transparent: true, custom_model: false }
}

/// Returns the well-known air material.
pub fn air() -> (m: Material)
    ensures
        m == air_material(),
{
    Material { id: MaterialID { id: AIR_ID }, transparent: true, custom_model: false }
}

/// Whether the material with the given id occludes the face behind it:
/// it is registered, is not air, and is not transparent. An unregistered id
/// never occludes, so a face against it stays visible.
pub open spec fn occludes(reg: Seq<Material>, id: u32) -> bool {
    id != AIR_ID && id < reg.len() && !reg[id as int].transparent
}

/// The registry of materials, looked up by id during meshing. Ids are the
/// indices into the registration order, so they are unique; id 0 is air.
pub struct MaterialRegistry {
    mats: Vec<Material>,
}

impl View for MaterialRegistry {
    type V = Seq<Material>;

    closed spec fn view(&self) -> Seq<Material> {
        self.mats@
    }
}

impl MaterialRegistry {
    /// Every registered material's id equals its index, and id 0 is air.
    pub open spec fn wf(self) -> bool {
        &&& 1 <= self@.len() <= u32::MAX
        &&& self@[0] == air_material()
        &&& forall|i: int| 0 <= i < self@.len() ==> (#[trigger] self@[i]).id.id == i
    }

    /// A registry holding only air.
    pub fn new() -> (r: Self)
        ensures
            r.wf(),
            r@.len() == 1,
    {
        let mut mats: Vec<Material> = Vec::new();
        mats.push(Material {
            id: MaterialID { id: AIR_ID },
            transparent: true,
            custom_model: false,
        });
        MaterialRegistry { mats }
    }

    /// Registers a new material under the next free id and returns its id.
    pub fn register(&mut self, transparent: bool, custom_model: bool) -> (id: MaterialID)
        requires
            old(self).wf(),
            old(self)@.len() < u32::MAX,
        ensures
            final(self).wf(),
            id.id == old(self)@.len(),
            final(self)@ == old(self)@.push(
                Material { id, transparent, custom_model },
            ),
    {
        let id = MaterialID { id: self.mats.len() as u32 };
        self.mats.push(Material { id, transparent, custom_model });
        id
    }

    /// The number of registered materials.
    pub fn len(&self) -> (n: usize)
        ensures
            n == self@.len(),
    {
        self.mats.len()
    }

    /// Looks a material up by id: its flags if registered, `None` otherwise.
    pub fn lookup(&self, id: MaterialID) -> (r: Option<Material>)
        requires
            self.wf(),
        ensures
            id.id < self@.len() ==> r == Some(self@[id.id as int]),
            id.id >= self@.len() ==> r is None,
    {
        if (id.id as usize) < self.mats.len() {
            Some(self.mats[id.id as usize])
        } else {
            None
        }
    }

    /// Whether the material with the given id occludes the face behind it.
    pub fn is_occluding(&self, id: MaterialID) -> (r: bool)
        requires
            self.wf(),
        ensures
            r == occludes(self@, id.id),
    {
        if id.id != AIR_ID && (id.id as usize) < self.mats.len() {
            !self.mats[id.id as usize].transparent
        } else {
            false
        }
    }
}

} // verus!
