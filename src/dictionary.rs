use vstd::prelude::*;
use vstd::set_lib::{lemma_int_range, lemma_len_subset, set_int_range};

use crate::memory::MemoryImage;
use crate::sdk::{
    dictionary_at, class_at, entry_at, symbol_at, symbol_text, DictionaryEntry, JClass, JSymbol, JVMDictionary,
};

verus! {

/// Bound on the nodes followed past a bucket's head. A chain ends at a zero
/// `next` or at a node already visited, so its followers are distinct nonzero
/// 64-bit addresses: there are never more than this many of them
/// (`lemma_distinct_nonzero_addresses`), and the bound cuts no chain.
pub const CHAIN_FUEL: u64 = 0xFFFF_FFFF_FFFF_FFFF;

/// Address of the slot that holds bucket `i`'s head pointer.
pub open spec fn bucket_slot(d: JVMDictionary, i: int) -> u64 {
    ((d.entries + 8 * i) % 0x1_0000_0000_0000_0000) as u64
}

/// Does the walk stop after `e`? At a zero `next` (tag bit masked off), a null
/// class pointer, or a node already visited in this chain.
pub open spec fn chain_ends(e: DictionaryEntry, visited: Seq<u64>) -> bool {
    e.next_spec() == 0 || e.klass == 0 || visited.contains(e.next_spec())
}

/// The nodes that follow `e` in its chain, at most `fuel` of them.
pub open spec fn chain_after(
    mem: &MemoryImage,
    e: DictionaryEntry,
    visited: Seq<u64>,
    fuel: nat,
) -> Seq<DictionaryEntry>
    decreases fuel,
{
    if fuel == 0 || chain_ends(e, visited) {
        Seq::empty()
    } else {
        let a = e.next_spec();
        let n = entry_at(mem, a as int);
        seq![n] + chain_after(mem, n, visited.push(a), (fuel - 1) as nat)
    }
}

/// The entries of bucket `i`: its head, always, then its chain.
pub open spec fn bucket_entries(mem: &MemoryImage, d: JVMDictionary, i: int) -> Seq<DictionaryEntry> {
    let a = mem.u64_at(bucket_slot(d, i) as int);
    let head = entry_at(mem, a as int);
    seq![head] + chain_after(mem, head, seq![a], CHAIN_FUEL as nat)
}

/// The entries of the first `n` buckets, bucket after bucket.
pub open spec fn entries_upto(mem: &MemoryImage, d: JVMDictionary, n: int) -> Seq<DictionaryEntry>
    decreases n,
{
    if n <= 0 {
        Seq::empty()
    } else {
        entries_upto(mem, d, n - 1) + bucket_entries(mem, d, n - 1)
    }
}

/// Every entry of the dictionary, bucket-major and in chain order.
pub open spec fn dictionary_entries(mem: &MemoryImage, d: JVMDictionary) -> Seq<DictionaryEntry> {
    entries_upto(mem, d, d.table_size as int)
}

fn contains_address(v: &Vec<u64>, a: u64) -> (r: bool)
    ensures
        r == v@.contains(a),
{
    let mut i: usize = 0;
    while i < v.len()
        invariant
            i <= v@.len(),
            forall|j: int| 0 <= j < i ==> v@[j] != a,
        decreases v@.len() - i,
    {
        if v[i] == a {
            assert(v@[i as int] == a);
            return true;
        }
        i = i + 1;
    }
    false
}

/// The entries of bucket `i`: its head entry, then the nodes its `next`
/// pointers lead to.
fn walk_bucket(dictionary: &JVMDictionary, mem: &MemoryImage, i: i32) -> (r: Vec<DictionaryEntry>)
    requires
        0 <= i,
    ensures
        r@ == bucket_entries(mem, *dictionary, i as int),
{
    let slot = dictionary.entries.wrapping_add(8 * i as u64);
    assert(slot == bucket_slot(*dictionary, i as int));
    let head_address = mem.read_u64(slot);
    let mut entry = DictionaryEntry::from_native(mem, head_address);
    let mut out: Vec<DictionaryEntry> = Vec::new();
    out.push(entry);
    let mut visited: Vec<u64> = Vec::new();
    visited.push(head_address);
    let mut fuel: u64 = CHAIN_FUEL;
    let ghost target = bucket_entries(mem, *dictionary, i as int);
    assert(visited@ =~= seq![head_address]);
    assert(out@ + chain_after(mem, entry, visited@, fuel as nat) =~= target);
    loop
        invariant
            out@ + chain_after(mem, entry, visited@, fuel as nat) == target,
        ensures
            out@ == target,
        decreases fuel,
    {
        let next = entry.next();
        if fuel == 0 || next == 0 || entry.klass == 0 || contains_address(&visited, next) {
            assert(out@ =~= target);
            break;
        }
        let node = DictionaryEntry::from_native(mem, next);
        let ghost tail = chain_after(mem, node, visited@.push(next), (fuel - 1) as nat);
        assert(chain_after(mem, entry, visited@, fuel as nat) == seq![node] + tail);
        assert(out@.push(node) + tail =~= out@ + (seq![node] + tail));
        out.push(node);
        visited.push(next);
        fuel = fuel - 1;
        entry = node;
    }
    out
}

/// Every entry of the dictionary: for each bucket its head entry, then the
/// nodes its `next` pointers lead to.
pub fn iterate_classes(dictionary: &JVMDictionary, mem: &MemoryImage) -> (r: Vec<DictionaryEntry>)
    ensures
        r@ == dictionary_entries(mem, *dictionary),
{
    let mut out: Vec<DictionaryEntry> = Vec::new();
    let mut i: i32 = 0;
    let n: i32 = if dictionary.table_size > 0 {
        dictionary.table_size
    } else {
        0
    };
    while i < n
        invariant
            0 <= i <= n,
            n == if dictionary.table_size > 0 {
                dictionary.table_size
            } else {
                0
            },
            out@ == entries_upto(mem, *dictionary, i as int),
        decreases n - i,
    {
        let mut bucket = walk_bucket(dictionary, mem, i);
        out.append(&mut bucket);
        i = i + 1;
    }
    out
}

/// `addrs` is the chain of bucket `b`: the bucket's slot points at `addrs[0]`,
/// each node's `next` (tag bit masked off) is the following address and its
/// class pointer is set, the last node ends the chain, and no address repeats.
pub open spec fn is_chain(mem: &MemoryImage, d: JVMDictionary, b: int, addrs: Seq<u64>) -> bool {
    &&& 1 <= addrs.len()
    &&& mem.u64_at(bucket_slot(d, b) as int) == addrs[0]
    &&& forall|k: int| 1 <= k < addrs.len() ==> #[trigger] addrs[k] != 0
    &&& forall|k: int|
        0 <= k < addrs.len() - 1 ==> (#[trigger] entry_at(mem, addrs[k] as int)).next_spec()
            == addrs[k + 1] && entry_at(mem, addrs[k] as int).klass != 0
    &&& entry_at(mem, addrs.last() as int).next_spec() == 0 || entry_at(
        mem,
        addrs.last() as int,
    ).klass == 0
    &&& addrs.no_duplicates()
}

/// Distinct nonzero 64-bit addresses number at most `u64::MAX`.
pub proof fn lemma_distinct_nonzero_addresses(s: Seq<u64>)
    requires
        s.no_duplicates(),
        forall|k: int| 0 <= k < s.len() ==> #[trigger] s[k] != 0,
    ensures
        s.len() <= u64::MAX,
{
    let m = s.map_values(|a: u64| a as int);
    assert forall|i: int, j: int| 0 <= i < j < m.len() implies m[i] != m[j] by {
        assert(s[i] != s[j]);
    }
    assert(m.no_duplicates());
    m.unique_seq_to_set();
    lemma_int_range(1, 0x1_0000_0000_0000_0000);
    assert forall|x: int| m.to_set().contains(x) implies set_int_range(
        1,
        0x1_0000_0000_0000_0000,
    ).contains(x) by {
        let i = choose|i: int| 0 <= i < m.len() && m[i] == x;
        assert(s[i] != 0);
    }
    lemma_len_subset(m.to_set(), set_int_range(1, 0x1_0000_0000_0000_0000));
}

/// A chain's followers (every node but the head) fit the walk's fuel.
proof fn lemma_chain_followers_bounded(addrs: Seq<u64>)
    requires
        1 <= addrs.len(),
        forall|k: int| 1 <= k < addrs.len() ==> #[trigger] addrs[k] != 0,
        addrs.no_duplicates(),
    ensures
        addrs.len() - 1 <= CHAIN_FUEL,
{
    let f = addrs.subrange(1, addrs.len() as int);
    assert forall|k: int| 0 <= k < f.len() implies #[trigger] f[k] != 0 by {
        assert(f[k] == addrs[k + 1]);
    }
    assert forall|i: int, j: int| 0 <= i < j < f.len() implies f[i] != f[j] by {
        assert(f[i] == addrs[i + 1] && f[j] == addrs[j + 1]);
    }
    lemma_distinct_nonzero_addresses(f);
}

/// The fuel never decides where a walk stops: with `visited` the head's
/// address followed by distinct nonzero followers and the fuel what they left,
/// the chain after `e` ends exactly where `chain_ends` says, and goes on
/// from the next node otherwise.
pub proof fn lemma_fuel_never_cuts(
    mem: &MemoryImage,
    e: DictionaryEntry,
    visited: Seq<u64>,
    fuel: nat,
)
    requires
        1 <= visited.len(),
        visited.no_duplicates(),
        forall|k: int| 1 <= k < visited.len() ==> #[trigger] visited[k] != 0,
        fuel + visited.len() - 1 == CHAIN_FUEL,
    ensures
        chain_after(mem, e, visited, fuel) == if chain_ends(e, visited) {
            Seq::empty()
        } else {
            let a = e.next_spec();
            let n = entry_at(mem, a as int);
            seq![n] + chain_after(mem, n, visited.push(a), (fuel - 1) as nat)
        },
{
    if fuel == 0 && !chain_ends(e, visited) {
        let a = e.next_spec();
        let longer = visited.push(a);
        assert forall|i: int, j: int| 0 <= i < j < longer.len() implies longer[i] != longer[j] by {
            if j == visited.len() {
                assert(visited.contains(visited[i]));
            } else {
                assert(visited[i] != visited[j]);
            }
        }
        lemma_chain_followers_bounded(longer);
    }
}

/// The reserved tag bit of `next` changes nothing in the walk: an entry whose
/// link carries the tag is followed exactly as the same entry untagged.
pub proof fn lemma_tag_bit_ignored(
    mem: &MemoryImage,
    e: DictionaryEntry,
    visited: Seq<u64>,
    fuel: nat,
)
    requires
        e.next % 2 == 0,
    ensures
        chain_after(mem, DictionaryEntry { next: (e.next + 1) as u64, ..e }, visited, fuel)
            == chain_after(mem, e, visited, fuel),
{
    let tagged = DictionaryEntry { next: (e.next + 1) as u64, ..e };
    assert(tagged.next_spec() == e.next_spec());
}

/// The entries a chain's nodes hold, in chain order.
pub open spec fn chain_entries(mem: &MemoryImage, addrs: Seq<u64>) -> Seq<DictionaryEntry> {
    addrs.map_values(|a: u64| entry_at(mem, a as int))
}

proof fn lemma_chain_rest(mem: &MemoryImage, d: JVMDictionary, b: int, addrs: Seq<u64>, k: int)
    requires
        is_chain(mem, d, b, addrs),
        0 <= k < addrs.len(),
    ensures
        chain_after(
            mem,
            entry_at(mem, addrs[k] as int),
            addrs.subrange(0, k + 1),
            (CHAIN_FUEL - k) as nat,
        ) == chain_entries(mem, addrs.subrange(k + 1, addrs.len() as int)),
    decreases addrs.len() - k,
{
    let e = entry_at(mem, addrs[k] as int);
    let visited = addrs.subrange(0, k + 1);
    lemma_chain_followers_bounded(addrs);
    if k == addrs.len() - 1 {
        assert(chain_entries(mem, addrs.subrange(k + 1, addrs.len() as int)) =~= Seq::empty());
    } else {
        assert(e.next_spec() == addrs[k + 1]);
        assert(!visited.contains(addrs[k + 1])) by {
            if visited.contains(addrs[k + 1]) {
                let j = choose|j: int| 0 <= j < visited.len() && visited[j] == addrs[k + 1];
                assert(addrs[j] == addrs[k + 1]);
            }
        }
        assert(visited.push(addrs[k + 1]) =~= addrs.subrange(0, k + 2));
        lemma_chain_rest(mem, d, b, addrs, k + 1);
        assert(chain_entries(mem, addrs.subrange(k + 1, addrs.len() as int)) =~= seq![
            entry_at(mem, addrs[k + 1] as int),
        ] + chain_entries(mem, addrs.subrange(k + 2, addrs.len() as int)));
    }
}

/// The walk of a bucket yields exactly the entries of its chain, each node
/// once, its tag bits masked off.
pub proof fn lemma_bucket_is_chain(mem: &MemoryImage, d: JVMDictionary, b: int, addrs: Seq<u64>)
    requires
        is_chain(mem, d, b, addrs),
    ensures
        bucket_entries(mem, d, b) == chain_entries(mem, addrs),
        bucket_entries(mem, d, b).len() == addrs.len(),
{
    lemma_chain_rest(mem, d, b, addrs, 0);
    assert(addrs.subrange(0, 1) =~= seq![addrs[0]]);
    assert(chain_entries(mem, addrs) =~= seq![entry_at(mem, addrs[0] as int)] + chain_entries(
        mem,
        addrs.subrange(1, addrs.len() as int),
    ));
}

/// Does bucket `i`'s head end its chain at once (an empty or lone head)?
pub open spec fn head_only(mem: &MemoryImage, d: JVMDictionary, i: int) -> bool {
    let a = mem.u64_at(bucket_slot(d, i) as int);
    chain_ends(entry_at(mem, a as int), seq![a])
}

proof fn lemma_count_upto(
    mem: &MemoryImage,
    d: JVMDictionary,
    b: int,
    addrs: Seq<u64>,
    n: int,
)
    requires
        0 <= n,
        0 <= b,
        is_chain(mem, d, b, addrs),
        forall|i: int| 0 <= i < n && i != b ==> head_only(mem, d, i),
    ensures
        entries_upto(mem, d, n).len() == n + if b < n {
            addrs.len() - 1
        } else {
            0
        },
    decreases n,
{
    if n > 0 {
        lemma_count_upto(mem, d, b, addrs, n - 1);
        if n - 1 == b {
            lemma_bucket_is_chain(mem, d, b, addrs);
        } else {
            assert(head_only(mem, d, n - 1));
            assert(bucket_entries(mem, d, n - 1).len() == 1);
        }
    }
}

/// A table of `N` buckets whose bucket `b` holds a chain of `L` nodes, every
/// other bucket a lone or empty head, walks to exactly `L + N - 1` entries.
pub proof fn lemma_walk_counts_chain(mem: &MemoryImage, d: JVMDictionary, b: int, addrs: Seq<u64>)
    requires
        0 <= b < d.table_size,
        is_chain(mem, d, b, addrs),
        forall|i: int| 0 <= i < d.table_size && i != b ==> head_only(mem, d, i),
    ensures
        dictionary_entries(mem, d).len() == addrs.len() + d.table_size - 1,
{
    lemma_count_upto(mem, d, b, addrs, d.table_size as int);
}

/// Bytes from the anchor instruction's start to its 32-bit displacement.
pub const DISPLACEMENT_OFFSET: u64 = 3;

/// Length of the anchor instruction: its displacement counts from its end.
pub const ANCHOR_LENGTH: u64 = 7;

/// Where a RIP-relative operand of the anchor instruction points.
pub open spec fn rip_target(anchor: u64, displacement: i32) -> u64 {
    ((anchor + ANCHOR_LENGTH + displacement) % 0x1_0000_0000_0000_0000) as u64
}

/// Where the anchor instruction at `anchor` with this displacement points.
pub fn rip_relative_target(anchor: u64, displacement: i32) -> (r: u64)
    ensures
        r == rip_target(anchor, displacement),
{
    let end = anchor.wrapping_add(ANCHOR_LENGTH);
    let r = end.wrapping_add_signed(displacement as i64);
    assert(r == ((anchor + ANCHOR_LENGTH + displacement) % 0x1_0000_0000_0000_0000) as u64)
        by (nonlinear_arith)
        requires
            end == (anchor + ANCHOR_LENGTH) % 0x1_0000_0000_0000_0000,
            r == (end + displacement) % 0x1_0000_0000_0000_0000,
    ;
    r
}

/// The dictionary that the anchor instruction found by the scanner refers
/// to: its displacement leads to a slot that holds the dictionary's address.
pub fn locate_dictionary(mem: &MemoryImage, anchor: u64) -> (r: JVMDictionary)
    ensures
        r == dictionary_at(
            mem,
            mem.u64_at(rip_target(anchor, mem.i32_at(anchor + DISPLACEMENT_OFFSET)) as int) as int,
        ),
{
    let displacement = mem.read_i32_at(anchor, DISPLACEMENT_OFFSET);
    let slot = rip_relative_target(anchor, displacement);
    let address = mem.read_u64(slot);
    JVMDictionary::from_native(mem, address)
}

/// The usual cap on a class name's length: longer symbols are taken as
/// dangling or corrupt.
pub const MAX_PATH: u16 = 260;

/// A name and the class it names.
pub type NamedClass = (Seq<char>, JClass);

/// The class `lookup` finds for `k`: the last pair named `k`.
pub open spec fn lookup_in(s: Seq<NamedClass>, k: Seq<char>) -> Option<JClass>
    decreases s.len(),
{
    if s.len() == 0 {
        None
    } else if s.last().0 == k {
        Some(s.last().1)
    } else {
        lookup_in(s.drop_last(), k)
    }
}

pub open spec fn keys_unique(s: Seq<NamedClass>) -> bool {
    forall|i: int, j: int| 0 <= i < j < s.len() ==> s[i].0 != s[j].0
}

/// Where the keys are unique, the pair at `i` is the one found for its key.
pub proof fn lemma_lookup_found(s: Seq<NamedClass>, i: int)
    requires
        keys_unique(s),
        0 <= i < s.len(),
    ensures
        lookup_in(s, s[i].0) == Some(s[i].1),
    decreases s.len(),
{
    if i < s.len() - 1 {
        assert(s.drop_last()[i] == s[i]);
        lemma_lookup_found(s.drop_last(), i);
    }
}

/// A key no pair holds is not found.
pub proof fn lemma_lookup_absent(s: Seq<NamedClass>, k: Seq<char>)
    requires
        forall|i: int| 0 <= i < s.len() ==> s[i].0 != k,
    ensures
        lookup_in(s, k) is None,
    decreases s.len(),
{
    if s.len() > 0 {
        assert(forall|i: int| 0 <= i < s.drop_last().len() ==> s.drop_last()[i] == s[i]);
        lemma_lookup_absent(s.drop_last(), k);
    }
}

/// Classes by name, each name at most once.
pub struct ClassIndex {
    entries: Vec<(String, JClass)>,
}

impl ClassIndex {
    pub closed spec fn pairs(&self) -> Seq<NamedClass> {
        self.entries@.map_values(|p: (String, JClass)| (p.0@, p.1))
    }

    pub open spec fn wf(&self) -> bool {
        keys_unique(self.pairs())
    }

    /// The class held under `k`.
    pub open spec fn lookup(&self, k: Seq<char>) -> Option<JClass> {
        lookup_in(self.pairs(), k)
    }

    pub fn new() -> (r: Self)
        ensures
            r.wf(),
            r.pairs().len() == 0,
            forall|k: Seq<char>| #[trigger] r.lookup(k) is None,
    {
        let r = ClassIndex { entries: Vec::new() };
        assert(r.pairs() =~= Seq::<NamedClass>::empty());
        r
    }

    /// Number of names held.
    pub fn len(&self) -> (r: usize)
        ensures
            r == self.pairs().len(),
    {
        self.entries.len()
    }

    /// Holds `class` under `name`, in place of any class held under it before.
    pub fn insert(&mut self, name: String, class: JClass)
        requires
            old(self).wf(),
        ensures
            final(self).wf(),
            forall|k: Seq<char>|
                #[trigger] final(self).lookup(k) == if k == name@ {
                    Some(class)
                } else {
                    old(self).lookup(k)
                },
            (exists|i: int| 0 <= i < old(self).pairs().len() && old(self).pairs()[i].0 == name@)
                ==> final(self).pairs().len() == old(self).pairs().len(),
            (forall|i: int| 0 <= i < old(self).pairs().len() ==> old(self).pairs()[i].0 != name@)
                ==> final(self).pairs().len() == old(self).pairs().len() + 1,
    {
        let ghost before = self.pairs();
        let mut i: usize = 0;
        while i < self.entries.len()
            invariant
                self.pairs() == before,
                before == old(self).pairs(),
                keys_unique(before),
                self.entries@.len() == before.len(),
                i <= before.len(),
                forall|j: int| 0 <= j < i ==> before[j].0 != name@,
            decreases before.len() - i,
        {
            if self.entries[i].0 == name {
                assert(before[i as int].0 == name@);
                self.entries.set(i, (name, class));
                let ghost after = self.pairs();
                assert(after =~= before.update(i as int, (name@, class)));
                assert(forall|a: int| 0 <= a < after.len() ==> #[trigger] after[a].0 == before[a].0);
                assert(keys_unique(after));
                assert forall|k: Seq<char>| #[trigger]
                    lookup_in(after, k) == if k == name@ {
                        Some(class)
                    } else {
                        lookup_in(before, k)
                    } by {
                    if k == name@ {
                        lemma_lookup_found(after, i as int);
                    } else if exists|j: int| 0 <= j < before.len() && before[j].0 == k {
                        let j = choose|j: int| 0 <= j < before.len() && before[j].0 == k;
                        lemma_lookup_found(after, j);
                        lemma_lookup_found(before, j);
                    } else {
                        lemma_lookup_absent(after, k);
                        lemma_lookup_absent(before, k);
                    }
                }
                return;
            }
            i = i + 1;
        }
        self.entries.push((name, class));
        assert(self.pairs() =~= before.push((name@, class)));
        assert(self.pairs().drop_last() =~= before);
    }

    /// The class held under `name`.
    pub fn get(&self, name: &str) -> (r: Option<JClass>)
        requires
            self.wf(),
        ensures
            r == self.lookup(name@),
    {
        let key = name.to_owned();
        let mut i: usize = 0;
        while i < self.entries.len()
            invariant
                self.wf(),
                key@ == name@,
                i <= self.pairs().len(),
                self.entries@.len() == self.pairs().len(),
                forall|j: int| 0 <= j < i ==> self.pairs()[j].0 != name@,
            decreases self.pairs().len() - i,
        {
            if self.entries[i].0 == key {
                proof {
                    lemma_lookup_found(self.pairs(), i as int);
                }
                return Some(self.entries[i].1);
            }
            i = i + 1;
        }
        proof {
            lemma_lookup_absent(self.pairs(), name@);
        }
        None
    }
}

/// The class an entry names, with its name: `None` where the class has no
/// symbol, or a symbol whose length reaches `cap`.
pub open spec fn named_class(mem: &MemoryImage, e: DictionaryEntry, cap: u16) -> Option<NamedClass> {
    let c = class_at(mem, e.klass);
    if c.symbol == 0 {
        None
    } else {
        let s = symbol_at(mem, c.symbol);
        if s.length >= cap {
            None
        } else {
            Some((symbol_text(mem, s), c))
        }
    }
}

/// The named classes of the first `n` entries, in order.
pub open spec fn named_upto(mem: &MemoryImage, es: Seq<DictionaryEntry>, cap: u16, n: int) -> Seq<
    NamedClass,
>
    decreases n,
{
    if n <= 0 {
        Seq::empty()
    } else {
        let prev = named_upto(mem, es, cap, n - 1);
        match named_class(mem, es[n - 1], cap) {
            Some(p) => prev.push(p),
            None => prev,
        }
    }
}

/// The named classes of every dictionary entry, in walk order.
pub open spec fn named_classes(mem: &MemoryImage, d: JVMDictionary, cap: u16) -> Seq<NamedClass> {
    let es = dictionary_entries(mem, d);
    named_upto(mem, es, cap, es.len() as int)
}

/// Every class of the dictionary by name. Entries whose class has no symbol,
/// or a symbol of `max_name_length` bytes or more, are skipped; of two
/// classes with one name, the later in walk order is kept.
pub fn collect_all_classes(dictionary: &JVMDictionary, mem: &MemoryImage, max_name_length: u16) -> (r:
    ClassIndex)
    ensures
        r.wf(),
        forall|k: Seq<char>|
            #[trigger] r.lookup(k) == lookup_in(named_classes(mem, *dictionary, max_name_length), k),
{
    let entries = iterate_classes(dictionary, mem);
    let mut classes = ClassIndex::new();
    let mut i: usize = 0;
    while i < entries.len()
        invariant
            entries@ == dictionary_entries(mem, *dictionary),
            i <= entries@.len(),
            classes.wf(),
            forall|k: Seq<char>|
                #[trigger] classes.lookup(k) == lookup_in(
                    named_upto(mem, entries@, max_name_length, i as int),
                    k,
                ),
        decreases entries@.len() - i,
    {
        let entry = entries[i];
        let clazz = JClass::from_native(mem, entry.klass);
        if clazz.symbol != 0 {
            let symbol = JSymbol::from_native(mem, clazz.symbol);
            if symbol.length < max_name_length {
                let name = symbol.to_string(mem);
                let ghost p = (name@, clazz);
                classes.insert(name, clazz);
                assert(named_upto(mem, entries@, max_name_length, i + 1) == named_upto(
                    mem,
                    entries@,
                    max_name_length,
                    i as int,
                ).push(p));
                assert forall|k: Seq<char>|
                    #[trigger] classes.lookup(k) == lookup_in(
                        named_upto(mem, entries@, max_name_length, i + 1),
                        k,
                    ) by {
                    let s = named_upto(mem, entries@, max_name_length, i + 1);
                    assert(s.drop_last() =~= named_upto(mem, entries@, max_name_length, i as int));
                }
            }
        }
        i = i + 1;
    }
    classes
}

/// The class named `name`.
pub fn find_class(classes: &ClassIndex, name: &str) -> (r: Option<JClass>)
    requires
        classes.wf(),
    ensures
        r == classes.lookup(name@),
{
    classes.get(name)
}

} // verus!
