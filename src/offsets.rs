use vstd::prelude::*;

use crate::memory::MemoryImage;
use crate::sdk::{field_offset_spec, JClass};

verus! {

/// Class name, field name and type signature of a cached offset.
pub type OffsetKey = (Seq<char>, Seq<char>, Seq<char>);

/// The offset cached for `k`: that of the first pair with key `k`.
pub open spec fn cached_in(s: Seq<(OffsetKey, u64)>, k: OffsetKey) -> Option<u64>
    decreases s.len(),
{
    if s.len() == 0 {
        None
    } else if s[0].0 == k {
        Some(s[0].1)
    } else {
        cached_in(s.drop_first(), k)
    }
}

/// Field offsets already resolved, owned by the caller: an offset is stable
/// for as long as the target keeps its class loaded.
pub struct OffsetCache {
    entries: Vec<(String, String, String, u64)>,
}

impl OffsetCache {
    pub closed spec fn pairs(&self) -> Seq<(OffsetKey, u64)> {
        self.entries@.map_values(|e: (String, String, String, u64)| ((e.0@, e.1@, e.2@), e.3))
    }

    /// The offset cached for this class name, field name and signature.
    pub open spec fn cached(&self, k: OffsetKey) -> Option<u64> {
        cached_in(self.pairs(), k)
    }

    pub fn new() -> (r: Self)
        ensures
            forall|k: OffsetKey| #[trigger] r.cached(k) is None,
    {
        let r = OffsetCache { entries: Vec::new() };
        assert(r.pairs() =~= Seq::<(OffsetKey, u64)>::empty());
        r
    }

    /// The cached offset of field `field` with signature `sig` in class `class`.
    pub fn get(&self, class: &str, field: &str, sig: &str) -> (r: Option<u64>)
        ensures
            r == self.cached((class@, field@, sig@)),
    {
        let (c, f, s) = (class.to_owned(), field.to_owned(), sig.to_owned());
        let ghost k = (class@, field@, sig@);
        let mut i: usize = 0;
        assert(self.pairs().subrange(0, self.pairs().len() as int) =~= self.pairs());
        while i < self.entries.len()
            invariant
                k == (class@, field@, sig@),
                c@ == class@,
                f@ == field@,
                s@ == sig@,
                i <= self.entries@.len(),
                self.entries@.len() == self.pairs().len(),
                cached_in(self.pairs(), k) == cached_in(
                    self.pairs().subrange(i as int, self.pairs().len() as int),
                    k,
                ),
            decreases self.entries@.len() - i,
        {
            let ghost rest = self.pairs().subrange(i as int, self.pairs().len() as int);
            assert(rest[0] == self.pairs()[i as int]);
            let e = &self.entries[i];
            assert(self.pairs()[i as int] == ((e.0@, e.1@, e.2@), e.3));
            if e.0 == c && e.1 == f && e.2 == s {
                return Some(e.3);
            }
            assert(rest.drop_first() =~= self.pairs().subrange(i + 1, self.pairs().len() as int));
            i = i + 1;
        }
        None
    }

    /// The offset of field `field` with signature `sig` in `class`, named
    /// `class_name`: from the cache where it is there, else resolved and
    /// cached.
    pub fn resolve(
        &mut self,
        mem: &MemoryImage,
        class_name: &str,
        class: &JClass,
        field: &str,
        sig: &str,
    ) -> (r: Option<u64>)
        ensures
            match old(self).cached((class_name@, field@, sig@)) {
                Some(o) => r == Some(o) && final(self).pairs() == old(self).pairs(),
                None => r == field_offset_spec(mem, *class, field@, sig@),
            },
            forall|k: OffsetKey|
                #[trigger] old(self).cached(k) is Some ==> final(self).cached(k) == old(self).cached(k),
            r matches Some(o) ==> final(self).cached((class_name@, field@, sig@)) == Some(o),
            forall|k: OffsetKey|
                #[trigger] old(self).cached(k) is None && k != (class_name@, field@, sig@)
                    ==> final(self).cached(k) is None,
            r is None ==> final(self).pairs() == old(self).pairs(),
    {
        match self.get(class_name, field, sig) {
            Some(o) => Some(o),
            None => {
                let found = class.field_offset(mem, field, sig);
                if let Some(o) = found {
                    let ghost before = self.pairs();
                    self.entries.push((class_name.to_owned(), field.to_owned(), sig.to_owned(), o));
                    assert(self.pairs() =~= before.push(((class_name@, field@, sig@), o)));
                    assert forall|k: OffsetKey| #[trigger] old(self).cached(k) is Some
                        implies self.cached(k) == old(self).cached(k) by {
                        lemma_cached_after_push(before, ((class_name@, field@, sig@), o), k);
                    }
                    assert forall|k: OffsetKey|
                        #[trigger] old(self).cached(k) is None && k != (class_name@, field@, sig@)
                        implies self.cached(k) is None by {
                        lemma_cached_after_push(before, ((class_name@, field@, sig@), o), k);
                    }
                    proof {
                        lemma_cached_after_push(
                            before,
                            ((class_name@, field@, sig@), o),
                            (class_name@, field@, sig@),
                        );
                    }
                }
                found
            },
        }
    }
}

/// Appending a pair keeps what was cached and caches the new key where it was absent.
pub proof fn lemma_cached_after_push(s: Seq<(OffsetKey, u64)>, p: (OffsetKey, u64), k: OffsetKey)
    ensures
        cached_in(s.push(p), k) == if cached_in(s, k) is Some {
            cached_in(s, k)
        } else if k == p.0 {
            Some(p.1)
        } else {
            None
        },
    decreases s.len(),
{
    let t = s.push(p);
    assert(t[0] == if s.len() > 0 {
        s[0]
    } else {
        p
    });
    if s.len() > 0 {
        assert(t.drop_first() =~= s.drop_first().push(p));
        lemma_cached_after_push(s.drop_first(), p, k);
        if s[0].0 != k {
            assert(cached_in(t, k) == cached_in(t.drop_first(), k));
            assert(cached_in(s, k) == cached_in(s.drop_first(), k));
        }
    } else {
        assert(t.drop_first() =~= Seq::<(OffsetKey, u64)>::empty());
        assert(cached_in(s, k) is None);
        if p.0 != k {
            assert(cached_in(t, k) == cached_in(t.drop_first(), k));
            assert(cached_in(t.drop_first(), k) is None);
        }
    }
}

} // verus!
