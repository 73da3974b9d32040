use vstd::prelude::*;

use crate::dictionary::{find_class, ClassIndex};
use crate::java::{java_array_at, java_buffer_at, JavaArray, JavaBuffer};
use crate::memory::MemoryImage;
use crate::sdk::{add_offset, address_plus, field_offset_spec, JClass};

verus! {

/// The game's root object.
#[derive(Clone, Copy, Debug, PartialEq, Eq, Structural)]
pub struct Minecraft {
    pub class: JClass,
    /// Remote address of the object.
    pub address: u64,
}

/// A loaded world.
#[derive(Clone, Copy, Debug, PartialEq, Eq, Structural)]
pub struct World {
    pub class: JClass,
    /// Remote address of the object.
    pub address: u64,
}

/// An entity of a world; its position is read at field offsets past its address.
#[derive(Clone, Copy, Debug, PartialEq, Eq, Structural)]
pub struct Entity {
    /// Remote address of the object.
    pub address: u64,
}

/// The classes that hold the camera's matrices and the render origin.
#[derive(Clone, Copy, Debug, PartialEq, Eq, Structural)]
pub struct RenderInfo {
    pub activerenderinfo: JClass,
    pub rendermanager: JClass,
}

/// The 32-bit reference held by the field of this name and signature in the
/// storage at `base`; `None` where the class declares no such field.
pub open spec fn reference_at(
    mem: &MemoryImage,
    class: JClass,
    base: u64,
    name: Seq<char>,
    sig: Seq<char>,
) -> Option<u32> {
    match field_offset_spec(mem, class, name, sig) {
        Some(off) => Some(mem.u32_at(address_plus(base, off) as int)),
        None => None,
    }
}

/// Reads the 32-bit reference held by a field of `class` in the storage at `base`.
pub fn read_reference(mem: &MemoryImage, class: &JClass, base: u64, name: &str, sig: &str) -> (r:
    Option<u32>)
    ensures
        r == reference_at(mem, *class, base, name@, sig@),
{
    match class.field_offset(mem, name, sig) {
        Some(off) => Some(mem.read_u32(add_offset(base, off))),
        None => None,
    }
}

impl Minecraft {
    /// The root object, held in a static field of its class.
    pub fn new(class: &JClass, mem: &MemoryImage) -> (r: Option<Self>)
        ensures
            match reference_at(mem, *class, class.static_fields, "M"@, "Lbao;"@) {
                Some(a) => r == Some(Minecraft { class: *class, address: a as u64 }),
                None => r is None,
            },
    {
        match read_reference(mem, class, class.static_fields, "M", "Lbao;") {
            Some(a) => Some(Minecraft { class: *class, address: a as u64 }),
            None => None,
        }
    }

    /// Address of the current world.
    pub fn get_world_pointer(&self, mem: &MemoryImage) -> (r: Option<u32>)
        ensures
            r == reference_at(mem, self.class, self.address, "f"@, "Lbjf;"@),
    {
        read_reference(mem, &self.class, self.address, "f", "Lbjf;")
    }

    /// Address of the local player.
    pub fn get_player_pointer(&self, mem: &MemoryImage) -> (r: Option<u32>)
        ensures
            r == reference_at(mem, self.class, self.address, "h"@, "Lbjk;"@),
    {
        read_reference(mem, &self.class, self.address, "h", "Lbjk;")
    }

    /// The current world, described by class `bjf`.
    pub fn get_world(&self, classes: &ClassIndex, mem: &MemoryImage) -> (r: Option<World>)
        requires
            classes.wf(),
        ensures
            match (classes.lookup("bjf"@), reference_at(mem, self.class, self.address, "f"@, "Lbjf;"@)) {
                (Some(c), Some(a)) => r == Some(World { class: c, address: a as u64 }),
                _ => r is None,
            },
    {
        let class = match find_class(classes, "bjf") {
            Some(c) => c,
            None => return None,
        };
        match self.get_world_pointer(mem) {
            Some(a) => Some(World::new(&class, a)),
            None => None,
        }
    }

    /// The local player.
    pub fn get_player(&self, mem: &MemoryImage) -> (r: Option<Entity>)
        ensures
            match reference_at(mem, self.class, self.address, "h"@, "Lbjk;"@) {
                Some(a) => r == Some(Entity { address: a as u64 }),
                None => r is None,
            },
    {
        match self.get_player_pointer(mem) {
            Some(a) => Some(Entity::new(a)),
            None => None,
        }
    }
}

impl World {
    pub fn new(class: &JClass, address: u32) -> (r: Self)
        ensures
            r == (World { class: *class, address: address as u64 }),
    {
        World { class: *class, address: address as u64 }
    }

    /// The array object that lists the world's players.
    pub fn get_players_pointers(&self, mem: &MemoryImage) -> (r: Option<JavaArray>)
        ensures
            match reference_at(mem, self.class, self.address, "h"@, "Ljava/util/List;"@) {
                Some(a) => r == Some(java_array_at(mem, a as u64)),
                None => r is None,
            },
    {
        match read_reference(mem, &self.class, self.address, "h", "Ljava/util/List;") {
            Some(a) => Some(JavaArray::from_native(mem, a as u64)),
            None => None,
        }
    }

    /// The world's players, in list order.
    pub fn get_players(&self, mem: &MemoryImage) -> (r: Option<Vec<Entity>>)
        ensures
            match reference_at(mem, self.class, self.address, "h"@, "Ljava/util/List;"@) {
                Some(a) => r matches Some(v) && {
                    let arr = java_array_at(mem, a as u64);
                    &&& v@.len() == if arr.length > 0 {
                        arr.length as int
                    } else {
                        0
                    }
                    &&& forall|i: int|
                        0 <= i < v@.len() ==> (#[trigger] v@[i]).address == mem.u32_at(
                            arr.element_address(i) as int,
                        ) as u64
                },
                None => r is None,
            },
    {
        let players = match self.get_players_pointers(mem) {
            Some(p) => p,
            None => return None,
        };
        let mut res: Vec<Entity> = Vec::new();
        let mut i: i32 = 0;
        while i < players.length
            invariant
                0 <= i,
                i <= players.length || i == 0,
                res@.len() == i,
                forall|j: int|
                    0 <= j < i ==> (#[trigger] res@[j]).address == mem.u32_at(
                        players.element_address(j) as int,
                    ) as u64,
            decreases players.length - i,
        {
            match players.get_at(mem, i) {
                Some(a) => {
                    res.push(Entity::new(a));
                },
                None => {},
            }
            i = i + 1;
        }
        Some(res)
    }
}

impl Entity {
    pub fn new(address: u32) -> (r: Self)
        ensures
            r.address == address as u64,
    {
        Entity { address: address as u64 }
    }

    /// Remote address of the field of `class` with this name and signature in
    /// this entity.
    pub fn field_address(&self, mem: &MemoryImage, class: &JClass, name: &str, sig: &str) -> (r:
        Option<u64>)
        ensures
            match field_offset_spec(mem, *class, name@, sig@) {
                Some(off) => r == Some(address_plus(self.address, off)),
                None => r is None,
            },
    {
        match class.field_offset(mem, name, sig) {
            Some(off) => Some(add_offset(self.address, off)),
            None => None,
        }
    }
}

impl RenderInfo {
    /// The render classes `baj` and `bnn`.
    pub fn new(classes: &ClassIndex) -> (r: Option<Self>)
        requires
            classes.wf(),
        ensures
            match (classes.lookup("baj"@), classes.lookup("bnn"@)) {
                (Some(a), Some(b)) => r == Some(RenderInfo { activerenderinfo: a, rendermanager: b }),
                _ => r is None,
            },
    {
        let activerenderinfo = match find_class(classes, "baj") {
            Some(c) => c,
            None => return None,
        };
        let rendermanager = match find_class(classes, "bnn") {
            Some(c) => c,
            None => return None,
        };
        Some(RenderInfo { activerenderinfo, rendermanager })
    }

    fn static_buffer(&self, mem: &MemoryImage, name: &str, sig: &str) -> (r: Option<JavaBuffer>)
        ensures
            match reference_at(
                mem,
                self.activerenderinfo,
                self.activerenderinfo.static_fields,
                name@,
                sig@,
            ) {
                Some(a) => r == Some(java_buffer_at(mem, a as u64)),
                None => r is None,
            },
    {
        match read_reference(
            mem,
            &self.activerenderinfo,
            self.activerenderinfo.static_fields,
            name,
            sig,
        ) {
            Some(a) => Some(JavaBuffer::from_native(mem, a as u64)),
            None => None,
        }
    }

    /// The viewport buffer (four integers).
    pub fn get_viewport(&self, mem: &MemoryImage) -> (r: Option<JavaBuffer>)
        ensures
            match reference_at(
                mem,
                self.activerenderinfo,
                self.activerenderinfo.static_fields,
                "i"@,
                "Ljava/nio/IntBuffer;"@,
            ) {
                Some(a) => r == Some(java_buffer_at(mem, a as u64)),
                None => r is None,
            },
    {
        self.static_buffer(mem, "i", "Ljava/nio/IntBuffer;")
    }

    /// The model-view matrix buffer (sixteen floats).
    pub fn get_modelview(&self, mem: &MemoryImage) -> (r: Option<JavaBuffer>)
        ensures
            match reference_at(
                mem,
                self.activerenderinfo,
                self.activerenderinfo.static_fields,
                "j"@,
                "Ljava/nio/FloatBuffer;"@,
            ) {
                Some(a) => r == Some(java_buffer_at(mem, a as u64)),
                None => r is None,
            },
    {
        self.static_buffer(mem, "j", "Ljava/nio/FloatBuffer;")
    }

    /// The projection matrix buffer (sixteen floats).
    pub fn get_projection(&self, mem: &MemoryImage) -> (r: Option<JavaBuffer>)
        ensures
            match reference_at(
                mem,
                self.activerenderinfo,
                self.activerenderinfo.static_fields,
                "k"@,
                "Ljava/nio/FloatBuffer;"@,
            ) {
                Some(a) => r == Some(java_buffer_at(mem, a as u64)),
                None => r is None,
            },
    {
        self.static_buffer(mem, "k", "Ljava/nio/FloatBuffer;")
    }

    /// Remote address of the render origin: three doubles in the static
    /// storage of the render manager.
    pub fn get_render_position_address(&self, mem: &MemoryImage) -> (r: Option<u64>)
        ensures
            match field_offset_spec(mem, self.rendermanager, "b"@, "D"@) {
                Some(off) => r == Some(address_plus(self.rendermanager.static_fields, off)),
                None => r is None,
            },
    {
        match self.rendermanager.field_offset(mem, "b", "D") {
            Some(off) => Some(add_offset(self.rendermanager.static_fields, off)),
            None => None,
        }
    }
}

} // verus!
