//! In-process cache backend: two key/value stores whose entries carry an
//! absolute expiry instant, swept by a periodic reaper (`gc`).
//!
//! Reads do not check expiry on their own; an entry that has outlived its
//! time-to-live disappears at the next sweep, exactly as the store's
//! contract states.

use vstd::prelude::*;

verus! {

/// Saturating expiry instant for an entry written at `now` with
/// time-to-live `ttl` (seconds).
pub open spec fn expiry_at(now: nat, ttl: nat) -> nat {
    if now + ttl > usize::MAX {
        usize::MAX as nat
    } else {
        now + ttl
    }
}

/// The map a sequence of `(key, (value, expiry))` entries denotes;
/// later entries override earlier ones.
pub open spec fn map_of<V: View>(s: Seq<(String, (V, usize))>) -> Map<Seq<char>, (V::V, nat)>
    decreases s.len(),
{
    if s.len() == 0 {
        Map::empty()
    } else {
        map_of(s.drop_last()).insert(s.last().0@, (s.last().1.0@, s.last().1.1 as nat))
    }
}

/// No two entries share a key.
pub open spec fn keys_distinct<V: View>(s: Seq<(String, (V, usize))>) -> bool {
    forall|i: int, j: int| 0 <= i < j < s.len() ==> s[i].0@ != s[j].0@
}

/// An entry's key is in the map, bound to that entry's value.
pub proof fn lemma_map_of_index<V: View>(s: Seq<(String, (V, usize))>, i: int)
    requires
        keys_distinct(s),
        0 <= i < s.len(),
    ensures
        map_of(s).contains_key(s[i].0@),
        map_of(s)[s[i].0@] == (s[i].1.0@, s[i].1.1 as nat),
    decreases s.len(),
{
    if i == s.len() - 1 {
        assert(s.last() == s[i]);
    } else {
        assert(s.drop_last()[i] == s[i]);
        lemma_map_of_index(s.drop_last(), i);
        assert(s.last().0@ != s[i].0@);
    }
}

/// A key no entry holds is not in the map.
pub proof fn lemma_map_of_absent<V: View>(s: Seq<(String, (V, usize))>, k: Seq<char>)
    requires
        forall|i: int| 0 <= i < s.len() ==> s[i].0@ != k,
    ensures
        !map_of(s).contains_key(k),
    decreases s.len(),
{
    if s.len() > 0 {
        assert(forall|i: int| 0 <= i < s.drop_last().len() ==> s.drop_last()[i].0@ != k);
        lemma_map_of_absent(s.drop_last(), k);
    }
}

/// Replacing the entry at `i` by one with the same key updates the map
/// at that key alone.
pub proof fn lemma_map_of_update<V: View>(
    s: Seq<(String, (V, usize))>,
    i: int,
    e: (String, (V, usize)),
)
    requires
        keys_distinct(s),
        0 <= i < s.len(),
        e.0@ == s[i].0@,
    ensures
        map_of(s.update(i, e)) =~= map_of(s).insert(e.0@, (e.1.0@, e.1.1 as nat)),
        keys_distinct(s.update(i, e)),
    decreases s.len(),
{
    let t = s.update(i, e);
    assert(forall|a: int, b: int| 0 <= a < b < t.len() ==> t[a].0@ != t[b].0@) by {
        assert(forall|a: int| 0 <= a < s.len() && a != i ==> t[a] == s[a]);
    }
    if i == s.len() - 1 {
        assert(t.drop_last() =~= s.drop_last());
        assert(t.last() == e);
    } else {
        assert(t.drop_last() =~= s.drop_last().update(i, e));
        assert(s.drop_last()[i] == s[i]);
        lemma_map_of_update(s.drop_last(), i, e);
        assert(t.last() == s.last());
        assert(s.last().0@ != e.0@);
    }
}

/// One key/value store with per-entry expiry instants.
pub struct TtlMap<V> {
    pub entries: Vec<(String, (V, usize))>,
}

impl<V: View> TtlMap<V> {
    /// The store seen as a map from key to `(value, expiry)`.
    pub open spec fn view_map(&self) -> Map<Seq<char>, (V::V, nat)> {
        map_of(self.entries@)
    }

    /// Well-formed: one entry per key.
    pub open spec fn wf(&self) -> bool {
        keys_distinct(self.entries@)
    }

    pub fn new() -> (r: Self)
        ensures
            r.wf(),
            r.view_map() =~= Map::<Seq<char>, (V::V, nat)>::empty(),
    {
        TtlMap { entries: Vec::new() }
    }

    fn find(&self, key: &String) -> (r: Option<usize>)
        requires
            self.wf(),
        ensures
            match r {
                Some(i) => i < self.entries@.len() && self.entries@[i as int].0@ == key@,
                None => forall|i: int|
                    0 <= i < self.entries@.len() ==> self.entries@[i].0@ != key@,
            },
    {
        let n: usize = self.entries.len();
        let mut i: usize = 0;
        while i < n
            invariant
                0 <= i <= n == self.entries@.len(),
                forall|j: int| 0 <= j < i ==> self.entries@[j].0@ != key@,
            decreases n - i,
        {
            if self.entries[i].0 == *key {
                return Some(i);
            }
            i = i + 1;
        }
        None
    }

    /// Look a key up; expiry is not consulted.
    pub fn get<'a>(&'a self, key: &String) -> (r: Option<&'a V>)
        requires
            self.wf(),
        ensures
            match r {
                Some(v) => self.view_map().contains_key(key@) && v@ == self.view_map()[key@].0,
                None => !self.view_map().contains_key(key@),
            },
    {
        match self.find(key) {
            Some(i) => {
                proof {
                    lemma_map_of_index(self.entries@, i as int);
                }
                Some(&self.entries[i].1.0)
            },
            None => {
                proof {
                    lemma_map_of_absent(self.entries@, key@);
                }
                None
            },
        }
    }

    /// Insert or overwrite, recording the absolute expiry `expire_at`.
    pub fn set(&mut self, key: String, value: V, expire_at: usize)
        requires
            old(self).wf(),
        ensures
            final(self).wf(),
            final(self).view_map() =~= old(self).view_map().insert(
                key@,
                (value@, expire_at as nat),
            ),
    {
        let e = (key, (value, expire_at));
        match self.find(&e.0) {
            Some(i) => {
                proof {
                    lemma_map_of_update(self.entries@, i as int, e);
                }
                self.entries.set(i, e);
            },
            None => {
                proof {
                    let s = self.entries@;
                    assert(s.push(e).drop_last() =~= s);
                    assert(forall|a: int, b: int|
                        0 <= a < b < s.push(e).len() ==> s.push(e)[a].0@ != s.push(e)[b].0@);
                }
                self.entries.push(e);
            },
        }
    }

    /// Remove every entry whose expiry instant is at or before `now`.
    pub fn sweep(&mut self, now: usize)
        requires
            old(self).wf(),
        ensures
            final(self).wf(),
            forall|k: Seq<char>|
                final(self).view_map().contains_key(k) <==> (#[trigger] old(
                    self,
                ).view_map().contains_key(k) && old(self).view_map()[k].1 > now),
            forall|k: Seq<char>|
                final(self).view_map().contains_key(k) ==> final(self).view_map()[k] == old(
                    self,
                ).view_map()[k],
    {
        let ghost s0 = self.entries@;
        let mut src: Vec<(String, (V, usize))> = Vec::new();
        core::mem::swap(&mut self.entries, &mut src);
        proof {
            assert(src@ == s0.subrange(0, src@.len() as int)) by {
                assert(s0.subrange(0, s0.len() as int) =~= s0);
            }
        }
        let mut kept: Vec<(String, (V, usize))> = Vec::new();
        while src.len() > 0
            invariant
                keys_distinct(s0),
                src@.len() <= s0.len(),
                src@ == s0.subrange(0, src@.len() as int),
                keys_distinct(kept@),
                forall|k: Seq<char>|
                    map_of(kept@).contains_key(k) <==> (exists|j: int|
                        src@.len() <= j < s0.len() && #[trigger] s0[j].0@ == k && s0[j].1.1 > now),
                forall|j: int|
                    src@.len() <= j < s0.len() && s0[j].1.1 > now ==> map_of(kept@).contains_key(
                        #[trigger] s0[j].0@,
                    ) && map_of(kept@)[s0[j].0@] == (s0[j].1.0@, s0[j].1.1 as nat),
            decreases src@.len(),
        {
            let ghost pre = src@;
            let e = src.pop().unwrap();
            let ghost pos = src@.len() as int;
            proof {
                assert(pre.len() > 0);
                assert(e == pre[pos]);
                assert(pre[pos] == s0.subrange(0, pre.len() as int)[pos]);
                assert(e == s0[pos]);
                assert(src@ == s0.subrange(0, src@.len() as int)) by {
                    assert(pre.subrange(0, pos) =~= s0.subrange(0, pos));
                }
            }
            if e.1.1 > now {
                proof {
                    let s = kept@;
                    assert(!map_of(s).contains_key(e.0@)) by {
                        if map_of(s).contains_key(e.0@) {
                            let j = choose|j: int|
                                pre.len() <= j < s0.len() && #[trigger] s0[j].0@ == e.0@
                                    && s0[j].1.1 > now;
                            assert(s0[pos].0@ != s0[j].0@);
                        }
                    }
                    assert forall|a: int| 0 <= a < s.len() implies s[a].0@ != e.0@ by {
                        lemma_map_of_index(s, a);
                    }
                    assert(forall|a: int, b: int|
                        0 <= a < b < s.push(e).len() ==> s.push(e)[a].0@ != s.push(e)[b].0@);
                    assert(s.push(e).drop_last() =~= s);
                }
                kept.push(e);
            }
        }
        proof {
            assert(forall|k: Seq<char>| #[trigger] map_of(s0).contains_key(k) ==> exists|j: int|
                0 <= j < s0.len() && s0[j].0@ == k) by {
                assert forall|k: Seq<char>| #[trigger] map_of(s0).contains_key(k) implies exists|
                    j: int,
                |
                    0 <= j < s0.len() && s0[j].0@ == k by {
                    if forall|j: int| 0 <= j < s0.len() ==> #[trigger] s0[j].0@ != k {
                        lemma_map_of_absent(s0, k);
                    }
                }
            }
            assert(forall|j: int|
                0 <= j < s0.len() ==> map_of(s0).contains_key(#[trigger] s0[j].0@) && map_of(
                    s0,
                )[s0[j].0@] == (s0[j].1.0@, s0[j].1.1 as nat)) by {
                assert forall|j: int| 0 <= j < s0.len() implies map_of(s0).contains_key(
                    #[trigger] s0[j].0@,
                ) && map_of(s0)[s0[j].0@] == (s0[j].1.0@, s0[j].1.1 as nat) by {
                    lemma_map_of_index(s0, j);
                }
            }
        }
        self.entries = kept;
    }
}

/// The cache round trip: writing bytes under a key with a time-to-live
/// puts exactly those bytes there, a read before expiry returns them,
/// and one reaper cycle at or after the expiry instant leaves the key
/// absent.  `swept` is any map a sweep at `sweep_at` leaves of the
/// written map, characterized as `sweep` characterizes it.
pub proof fn lemma_round_trip_and_expiry(
    m: Map<Seq<char>, (Seq<u8>, nat)>,
    swept: Map<Seq<char>, (Seq<u8>, nat)>,
    k: Seq<char>,
    v: Seq<u8>,
    ttl: nat,
    now: nat,
    sweep_at: nat,
)
    requires
        now + ttl <= usize::MAX,
        sweep_at >= now + ttl,
        forall|x: Seq<char>|
            swept.contains_key(x) <==> (#[trigger] m.insert(
                k,
                (v, expiry_at(now, ttl)),
            ).contains_key(x) && m.insert(k, (v, expiry_at(now, ttl)))[x].1 > sweep_at),
    ensures
        m.insert(k, (v, expiry_at(now, ttl))).contains_key(k),
        m.insert(k, (v, expiry_at(now, ttl)))[k].0 == v,
        !swept.contains_key(k),
{
}

/// Copy a byte buffer.
pub fn copy_bytes(v: &Vec<u8>) -> (r: Vec<u8>)
    ensures
        r@ == v@,
{
    let n: usize = v.len();
    let mut r: Vec<u8> = Vec::new();
    let mut i: usize = 0;
    while i < n
        invariant
            0 <= i <= n == v@.len(),
            r@ == v@.subrange(0, i as int),
        decreases n - i,
    {
        r.push(v[i]);
        proof {
            assert(v@.subrange(0, i + 1) =~= v@.subrange(0, i as int).push(v@[i as int]));
        }
        i = i + 1;
    }
    proof {
        assert(v@.subrange(0, n as int) =~= v@);
    }
    r
}

/// The in-process store: one map for media byte buffers, one for text
/// entries, each entry tagged with its absolute expiry instant.
pub struct RamCache {
    pub images: TtlMap<Vec<u8>>,
    pub texts: TtlMap<String>,
}

impl RamCache {
    /// Byte entries as a map from key to `(bytes, expiry)`.
    pub open spec fn images_map(&self) -> Map<Seq<char>, (Seq<u8>, nat)> {
        self.images.view_map()
    }

    /// Text entries as a map from key to `(text, expiry)`.
    pub open spec fn texts_map(&self) -> Map<Seq<char>, (Seq<char>, nat)> {
        self.texts.view_map()
    }

    pub open spec fn wf(&self) -> bool {
        self.images.wf() && self.texts.wf()
    }

    pub fn new() -> (r: Self)
        ensures
            r.wf(),
            r.images_map() =~= Map::<Seq<char>, (Seq<u8>, nat)>::empty(),
            r.texts_map() =~= Map::<Seq<char>, (Seq<char>, nat)>::empty(),
    {
        RamCache { images: TtlMap::new(), texts: TtlMap::new() }
    }

    /// Absolute expiry instant for an entry written at `now` with the given
    /// time-to-live; saturates instead of wrapping.
    pub fn calc_ttl(now: usize, ttl_in_seconds: usize) -> (r: usize)
        ensures
            r as nat == expiry_at(now as nat, ttl_in_seconds as nat),
    {
        if ttl_in_seconds > usize::MAX - now {
            usize::MAX
        } else {
            now + ttl_in_seconds
        }
    }

    /// Look a byte entry up; expiry is not consulted (the reaper enforces it).
    pub fn get_image<'a>(&'a self, key: &str) -> (r: Option<&'a Vec<u8>>)
        requires
            self.wf(),
        ensures
            match r {
                Some(v) => self.images_map().contains_key(key@) && v@ == self.images_map()[key@].0,
                None => !self.images_map().contains_key(key@),
            },
    {
        self.images.get(&key.to_owned())
    }

    /// Look a text entry up; expiry is not consulted.
    pub fn get_str<'a>(&'a self, key: &str) -> (r: Option<&'a String>)
        requires
            self.wf(),
        ensures
            match r {
                Some(v) => self.texts_map().contains_key(key@) && v@ == self.texts_map()[key@].0,
                None => !self.texts_map().contains_key(key@),
            },
    {
        self.texts.get(&key.to_owned())
    }

    /// Store a byte entry that expires `ttl` seconds after `now`.
    pub fn set_image(&mut self, key: &str, value: &Vec<u8>, ttl: usize, now: usize)
        requires
            old(self).wf(),
        ensures
            final(self).wf(),
            final(self).images_map() =~= old(self).images_map().insert(
                key@,
                (value@, expiry_at(now as nat, ttl as nat)),
            ),
            final(self).texts_map() == old(self).texts_map(),
    {
        let expire: usize = RamCache::calc_ttl(now, ttl);
        self.images.set(key.to_owned(), copy_bytes(value), expire);
    }

    /// Store a text entry that expires `ttl` seconds after `now`.
    pub fn set_str(&mut self, key: &str, value: String, ttl: usize, now: usize)
        requires
            old(self).wf(),
        ensures
            final(self).wf(),
            final(self).texts_map() =~= old(self).texts_map().insert(
                key@,
                (value@, expiry_at(now as nat, ttl as nat)),
            ),
            final(self).images_map() == old(self).images_map(),
    {
        let expire: usize = RamCache::calc_ttl(now, ttl);
        self.texts.set(key.to_owned(), value, expire);
    }

    /// One reaper cycle: drop every entry whose expiry instant is at or
    /// before `now`.  A lookup after this behaves as if the key were absent.
    pub fn gc(&mut self, now: usize)
        requires
            old(self).wf(),
        ensures
            final(self).wf(),
            forall|k: Seq<char>|
                final(self).images_map().contains_key(k) <==> (#[trigger] old(
                    self,
                ).images_map().contains_key(k) && old(self).images_map()[k].1 > now),
            forall|k: Seq<char>|
                final(self).images_map().contains_key(k) ==> final(self).images_map()[k] == old(
                    self,
                ).images_map()[k],
            forall|k: Seq<char>|
                final(self).texts_map().contains_key(k) <==> (#[trigger] old(
                    self,
                ).texts_map().contains_key(k) && old(self).texts_map()[k].1 > now),
            forall|k: Seq<char>|
                final(self).texts_map().contains_key(k) ==> final(self).texts_map()[k] == old(
                    self,
                ).texts_map()[k],
    {
        self.images.sweep(now);
        self.texts.sweep(now);
    }
}

} // verus!
