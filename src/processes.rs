use vstd::prelude::*;
use vstd::utf8::{decode_utf8, valid_utf8};

verus! {

/// One process of the system, as a snapshot of the process list gave it.
pub struct ProcessEntry {
    pub name: String,
    pub pid: u32,
}

/// One module loaded in a target process: its name, base address and size.
/// A snapshot, valid as of the enumeration that produced it.
pub struct ModuleEntry {
    pub name: String,
    pub base: usize,
    pub size: usize,
}

/// A local buffer sized once to mirror a remote structure; its size never
/// changes and nothing is written past it.
pub struct NativeAllocation {
    memory: Vec<u8>,
}

impl View for NativeAllocation {
    type V = Seq<u8>;

    closed spec fn view(&self) -> Seq<u8> {
        self.memory@
    }
}

impl NativeAllocation {
    /// A zeroed buffer of `size` bytes.
    pub fn new(size: usize) -> (r: Self)
        ensures
            r@ == Seq::new(size as nat, |i: int| 0u8),
    {
        let mut memory: Vec<u8> = Vec::new();
        let mut i: usize = 0;
        while i < size
            invariant
                i <= size,
                memory@ == Seq::new(i as nat, |k: int| 0u8),
            decreases size - i,
        {
            memory.push(0);
            i = i + 1;
            assert(memory@ =~= Seq::new(i as nat, |k: int| 0u8));
        }
        NativeAllocation { memory }
    }

    /// The buffer's bytes.
    pub fn get(&self) -> (r: &[u8])
        ensures
            r@ == self@,
    {
        self.memory.as_slice()
    }

    pub fn size(&self) -> (r: usize)
        ensures
            r == self@.len(),
    {
        self.memory.len()
    }

    /// Copies `data` to the start of the buffer, as much of it as fits.
    pub fn copy_from(&mut self, data: &[u8])
        ensures
            final(self)@.len() == old(self)@.len(),
            forall|i: int|
                0 <= i < old(self)@.len() ==> #[trigger] final(self)@[i] == if i < data@.len() {
                    data@[i]
                } else {
                    old(self)@[i]
                },
    {
        let n = if data.len() < self.memory.len() {
            data.len()
        } else {
            self.memory.len()
        };
        let mut i: usize = 0;
        while i < n
            invariant
                n <= data@.len(),
                n <= old(self)@.len(),
                i <= n,
                self@.len() == old(self)@.len(),
                forall|k: int|
                    0 <= k < old(self)@.len() ==> #[trigger] self@[k] == if k < i {
                        data@[k]
                    } else {
                        old(self)@[k]
                    },
            decreases n - i,
        {
            self.memory.set(i, data[i]);
            i = i + 1;
        }
    }
}

/// The bytes of `raw` before its first zero byte.
pub open spec fn clip_at_nul(raw: Seq<u8>) -> Seq<u8>
    decreases raw.len(),
{
    if raw.len() == 0 {
        raw
    } else if raw[0] == 0 {
        Seq::empty()
    } else {
        seq![raw[0]] + clip_at_nul(raw.drop_first())
    }
}

/// A platform name as text: UTF-8, or empty where it is not.
pub open spec fn name_text(raw: Seq<u8>) -> Seq<char> {
    let clipped = clip_at_nul(raw);
    if valid_utf8(clipped) {
        decode_utf8(clipped)
    } else {
        Seq::empty()
    }
}

/// Relies on `String::from_utf8`: valid UTF-8 is decoded, anything else refused.
#[verifier::external_body]
fn utf8_or_empty(bytes: Vec<u8>) -> (r: String)
    ensures
        valid_utf8(bytes@) ==> r@ == decode_utf8(bytes@),
        !valid_utf8(bytes@) ==> r@ == Seq::<char>::empty(),
{
    match String::from_utf8(bytes) {
        Ok(s) => s,
        Err(_) => String::new(),
    }
}

/// Decodes a fixed-size, zero-padded name field of a process or module
/// entry: clipped at the first zero byte; empty where not valid UTF-8.
pub fn name_from_raw(raw: &[u8]) -> (r: String)
    ensures
        r@ == name_text(raw@),
{
    let mut clipped: Vec<u8> = Vec::new();
    let mut i: usize = 0;
    assert(raw@.subrange(0, raw@.len() as int) =~= raw@);
    assert(clipped@ + clip_at_nul(raw@) =~= clip_at_nul(raw@));
    while i < raw.len()
        invariant
            i <= raw@.len(),
            clipped@ + clip_at_nul(raw@.subrange(i as int, raw@.len() as int)) == clip_at_nul(raw@),
        ensures
            clipped@ == clip_at_nul(raw@),
        decreases raw@.len() - i,
    {
        let ghost rest = raw@.subrange(i as int, raw@.len() as int);
        if raw[i] == 0 {
            assert(clip_at_nul(rest) == Seq::<u8>::empty());
            assert(clipped@ =~= clipped@ + clip_at_nul(rest));
            break;
        }
        assert(rest.drop_first() =~= raw@.subrange(i + 1, raw@.len() as int));
        assert(clipped@.push(raw[i as int]) + clip_at_nul(rest.drop_first()) =~= clipped@
            + clip_at_nul(rest));
        clipped.push(raw[i]);
        i = i + 1;
        if i == raw.len() {
            assert(clip_at_nul(raw@.subrange(i as int, raw@.len() as int)) =~= Seq::<u8>::empty());
            assert(clipped@ =~= clipped@ + Seq::<u8>::empty());
        }
    }
    utf8_or_empty(clipped)
}

/// The first process named `name`.
pub fn find_process(processes: &Vec<ProcessEntry>, name: &str) -> (r: Option<ProcessEntry>)
    ensures
        match r {
            Some(p) => exists|i: int|
                0 <= i < processes@.len() && processes@[i] == p && p.name@ == name@ && forall|j: int|
                    0 <= j < i ==> (#[trigger] processes@[j]).name@ != name@,
            None => forall|i: int|
                0 <= i < processes@.len() ==> (#[trigger] processes@[i]).name@ != name@,
        },
{
    let key = name.to_owned();
    let mut i: usize = 0;
    while i < processes.len()
        invariant
            key@ == name@,
            i <= processes@.len(),
            forall|j: int| 0 <= j < i ==> (#[trigger] processes@[j]).name@ != name@,
        decreases processes@.len() - i,
    {
        if processes[i].name == key {
            let found = ProcessEntry { name: processes[i].name.clone(), pid: processes[i].pid };
            assert(processes@[i as int] == found);
            return Some(found);
        }
        i = i + 1;
    }
    None
}

/// The first module named `name`.
pub fn find_module(modules: &Vec<ModuleEntry>, name: &str) -> (r: Option<ModuleEntry>)
    ensures
        match r {
            Some(m) => exists|i: int|
                0 <= i < modules@.len() && modules@[i] == m && m.name@ == name@ && forall|j: int|
                    0 <= j < i ==> (#[trigger] modules@[j]).name@ != name@,
            None => forall|i: int|
                0 <= i < modules@.len() ==> (#[trigger] modules@[i]).name@ != name@,
        },
{
    let key = name.to_owned();
    let mut i: usize = 0;
    while i < modules.len()
        invariant
            key@ == name@,
            i <= modules@.len(),
            forall|j: int| 0 <= j < i ==> (#[trigger] modules@[j]).name@ != name@,
        decreases modules@.len() - i,
    {
        if modules[i].name == key {
            let found = ModuleEntry {
                name: modules[i].name.clone(),
                base: modules[i].base,
                size: modules[i].size,
            };
            assert(modules@[i as int] == found);
            return Some(found);
        }
        i = i + 1;
    }
    None
}

} // verus!
