//! Echo suppression: content hashes that were just written to the local
//! clipboard from a remote peer, each with the time at which it expires.
use vstd::prelude::*;

verus! {

/// One suppressed content hash and its expiry time in milliseconds.
#[derive(Debug, Clone, Copy)]
pub struct SuppressionEntry {
    pub hash: [u8; 32],
    pub expires_at: u64,
}

/// A map from content hash to expiry time. No hash occurs twice.
///
/// The entries live in a `Vec`: vstd specifies `HashMap` only for key types
/// that obey its key model, and `[u8; 32]` is not among them.
pub struct SuppressionMap {
    entries: Vec<SuppressionEntry>,
}

/// Whether two hashes hold the same bytes.
pub fn hashes_equal(a: &[u8; 32], b: &[u8; 32]) -> (r: bool)
    ensures
        r == (a@ == b@),
{
    let mut i: usize = 0;
    while i < 32
        invariant
            i <= 32,
            a@.len() == 32,
            b@.len() == 32,
            forall|j: int| 0 <= j < i ==> a@[j] == b@[j],
        decreases 32 - i,
    {
        if a[i] != b[i] {
            return false;
        }
        i = i + 1;
    }
    assert(a@ =~= b@);
    true
}

/// The hashes of a sequence of entries, in order.
pub open spec fn hashes_of(s: Seq<SuppressionEntry>) -> Seq<Seq<u8>> {
    s.map_values(|e: SuppressionEntry| e.hash@)
}

/// A position of an entry that carries `h`.
pub open spec fn position_of(s: Seq<SuppressionEntry>, h: Seq<u8>) -> int {
    choose|i: int| 0 <= i < s.len() && s[i].hash@ == h
}

/// The map that a duplicate-free sequence of entries stands for.
pub open spec fn map_of(s: Seq<SuppressionEntry>) -> Map<Seq<u8>, u64> {
    Map::new(
        |h: Seq<u8>| hashes_of(s).contains(h),
        |h: Seq<u8>| s[position_of(s, h)].expires_at,
    )
}

/// The entries of `m` whose expiry lies after `now`.
pub open spec fn unexpired(m: Map<Seq<u8>, u64>, now: u64) -> Map<Seq<u8>, u64> {
    Map::new(|h: Seq<u8>| m.contains_key(h) && now < m[h], |h: Seq<u8>| m[h])
}

/// In a duplicate-free sequence, the entry at `i` gives the map's value for its hash.
proof fn lemma_map_of_at(s: Seq<SuppressionEntry>, i: int)
    requires
        hashes_of(s).no_duplicates(),
        0 <= i < s.len(),
    ensures
        map_of(s).contains_key(s[i].hash@),
        map_of(s)[s[i].hash@] == s[i].expires_at,
{
    let h = s[i].hash@;
    assert(hashes_of(s)[i] == h);
    assert(0 <= i < s.len() && s[i].hash@ == h);
    let j = position_of(s, h);
    assert(hashes_of(s)[j] == h);
    assert(j == i);
    assert(map_of(s).contains_key(h));
    assert(map_of(s)[h] == s[j].expires_at);
}

/// A hash is in the map exactly when some entry carries it.
proof fn lemma_map_of_contains(s: Seq<SuppressionEntry>, h: Seq<u8>)
    ensures
        map_of(s).contains_key(h) == (exists|i: int| 0 <= i < s.len() && s[i].hash@ == h),
{
    if map_of(s).contains_key(h) {
        let k = choose|k: int| 0 <= k < hashes_of(s).len() && hashes_of(s)[k] == h;
        assert(s[k].hash@ == h);
    }
    if exists|i: int| 0 <= i < s.len() && s[i].hash@ == h {
        let i = choose|i: int| 0 <= i < s.len() && s[i].hash@ == h;
        assert(hashes_of(s)[i] == h);
    }
}

/// The map of a duplicate-free sequence has as many keys as the sequence has entries.
proof fn lemma_map_of_len(s: Seq<SuppressionEntry>)
    requires
        hashes_of(s).no_duplicates(),
    ensures
        map_of(s).dom().finite(),
        map_of(s).dom().len() == s.len(),
{
    assert(map_of(s).dom() =~= hashes_of(s).to_set());
    hashes_of(s).unique_seq_to_set();
}

impl View for SuppressionMap {
    type V = Map<Seq<u8>, u64>;

    closed spec fn view(&self) -> Map<Seq<u8>, u64> {
        map_of(self.entries@)
    }
}

impl SuppressionMap {
    /// No hash occurs twice.
    pub closed spec fn wf(&self) -> bool {
        hashes_of(self.entries@).no_duplicates()
    }

    /// An empty map.
    pub fn new() -> (r: SuppressionMap)
        ensures
            r.wf(),
            r@ == Map::<Seq<u8>, u64>::empty(),
    {
        let r = SuppressionMap { entries: Vec::new() };
        assert(r@ =~= Map::<Seq<u8>, u64>::empty());
        r
    }

    /// Number of entries.
    pub fn len(&self) -> (r: usize)
        requires
            self.wf(),
        ensures
            self@.dom().finite(),
            r == self@.dom().len(),
    {
        proof {
            lemma_map_of_len(self.entries@);
        }
        self.entries.len()
    }

    /// The position of the entry for `hash`, if there is one.
    fn find(&self, hash: &[u8; 32]) -> (r: Option<usize>)
        requires
            self.wf(),
        ensures
            match r {
                Some(i) => i < self.entries@.len() && self.entries@[i as int].hash@ == hash@,
                None => !self@.contains_key(hash@),
            },
    {
        let mut i: usize = 0;
        while i < self.entries.len()
            invariant
                i <= self.entries@.len(),
                forall|j: int| 0 <= j < i ==> self.entries@[j].hash@ != hash@,
            decreases self.entries@.len() - i,
        {
            if hashes_equal(&self.entries[i].hash, hash) {
                return Some(i);
            }
            i = i + 1;
        }
        proof {
            lemma_map_of_contains(self.entries@, hash@);
        }
        None
    }

    /// The expiry recorded for `hash`, if any.
    pub fn expiry_of(&self, hash: &[u8; 32]) -> (r: Option<u64>)
        requires
            self.wf(),
        ensures
            match r {
                Some(t) => self@.contains_key(hash@) && self@[hash@] == t,
                None => !self@.contains_key(hash@),
            },
    {
        match self.find(hash) {
            Some(i) => {
                proof {
                    lemma_map_of_at(self.entries@, i as int);
                }
                Some(self.entries[i].expires_at)
            },
            None => None,
        }
    }

    /// Record `hash` with expiry `expires_at`, replacing any earlier expiry.
    pub fn insert(&mut self, hash: [u8; 32], expires_at: u64)
        requires
            old(self).wf(),
        ensures
            final(self).wf(),
            final(self)@ == old(self)@.insert(hash@, expires_at),
    {
        let ghost old_entries = self.entries@;
        let entry = SuppressionEntry { hash, expires_at };
        match self.find(&hash) {
            Some(i) => {
                self.entries.set(i, entry);
                proof {
                    let s = self.entries@;
                    assert(hashes_of(s) =~= hashes_of(old_entries));
                    assert forall|h: Seq<u8>| #[trigger] map_of(s).contains_key(h) implies map_of(
                        s,
                    )[h] == old(self)@.insert(hash@, expires_at)[h] by {
                        lemma_map_of_contains(s, h);
                        let k = choose|k: int| 0 <= k < s.len() && s[k].hash@ == h;
                        lemma_map_of_at(s, k);
                        if k != i {
                            assert(old_entries[k] == s[k]);
                            assert(hashes_of(old_entries)[k] == h);
                            assert(hashes_of(old_entries)[i as int] == hash@);
                            assert(h != hash@);
                            lemma_map_of_at(old_entries, k);
                        } else {
                            assert(h == hash@);
                        }
                    }
                    assert forall|h: Seq<u8>|
                        #[trigger] old(self)@.insert(hash@, expires_at).contains_key(
                            h,
                        ) implies map_of(s).contains_key(h) by {
                        lemma_map_of_contains(s, h);
                        lemma_map_of_contains(old_entries, h);
                        if h == hash@ {
                            assert(s[i as int].hash@ == h);
                        } else {
                            let k = choose|k: int|
                                0 <= k < old_entries.len() && old_entries[k].hash@ == h;
                            assert(s[k].hash@ == h);
                        }
                    }
                    assert forall|h: Seq<u8>| #[trigger]
                        map_of(s).contains_key(h) implies old(self)@.insert(
                        hash@,
                        expires_at,
                    ).contains_key(h) by {
                        lemma_map_of_contains(s, h);
                        lemma_map_of_contains(old_entries, h);
                        let k = choose|k: int| 0 <= k < s.len() && s[k].hash@ == h;
                        if k != i {
                            assert(old_entries[k].hash@ == h);
                        }
                    }
                    assert(map_of(s) =~= old(self)@.insert(hash@, expires_at));
                }
            },
            None => {
                self.entries.push(entry);
                proof {
                    let s = self.entries@;
                    assert(hashes_of(s) =~= hashes_of(old_entries).push(hash@));
                    assert(!hashes_of(old_entries).contains(hash@)) by {
                        lemma_map_of_contains(old_entries, hash@);
                        if hashes_of(old_entries).contains(hash@) {
                            let k = choose|k: int|
                                0 <= k < hashes_of(old_entries).len() && hashes_of(
                                    old_entries,
                                )[k] == hash@;
                            assert(old_entries[k].hash@ == hash@);
                        }
                    }
                    assert(hashes_of(s).no_duplicates());
                    assert forall|h: Seq<u8>| #[trigger] map_of(s).contains_key(h) implies map_of(
                        s,
                    )[h] == old(self)@.insert(hash@, expires_at)[h] by {
                        lemma_map_of_contains(s, h);
                        let k = choose|k: int| 0 <= k < s.len() && s[k].hash@ == h;
                        lemma_map_of_at(s, k);
                        if k < old_entries.len() {
                            assert(old_entries[k] == s[k]);
                            assert(hashes_of(s)[k] == h);
                            assert(hashes_of(s)[old_entries.len() as int] == hash@);
                            assert(h != hash@);
                            lemma_map_of_at(old_entries, k);
                        } else {
                            assert(h == hash@);
                        }
                    }
                    assert forall|h: Seq<u8>|
                        #[trigger] old(self)@.insert(hash@, expires_at).contains_key(
                            h,
                        ) implies map_of(s).contains_key(h) by {
                        lemma_map_of_contains(s, h);
                        lemma_map_of_contains(old_entries, h);
                        if h == hash@ {
                            assert(s[old_entries.len() as int].hash@ == h);
                        } else {
                            let k = choose|k: int|
                                0 <= k < old_entries.len() && old_entries[k].hash@ == h;
                            assert(s[k].hash@ == h);
                        }
                    }
                    assert forall|h: Seq<u8>| #[trigger]
                        map_of(s).contains_key(h) implies old(self)@.insert(
                        hash@,
                        expires_at,
                    ).contains_key(h) by {
                        lemma_map_of_contains(s, h);
                        lemma_map_of_contains(old_entries, h);
                        let k = choose|k: int| 0 <= k < s.len() && s[k].hash@ == h;
                        if k < old_entries.len() {
                            assert(old_entries[k].hash@ == h);
                        }
                    }
                    assert(map_of(s) =~= old(self)@.insert(hash@, expires_at));
                }
            },
        }
    }

    /// Drop every entry whose expiry is not after `now`.
    pub fn retain_unexpired(&mut self, now: u64)
        requires
            old(self).wf(),
        ensures
            final(self).wf(),
            final(self)@ == unexpired(old(self)@, now),
    {
        let ghost old_entries = self.entries@;
        let mut kept: Vec<SuppressionEntry> = Vec::new();
        // `from[k]` is the position in the old entries that `kept[k]` was copied from.
        let ghost mut from: Seq<int> = Seq::empty();
        let mut i: usize = 0;
        while i < self.entries.len()
            invariant
                self.entries@ == old_entries,
                hashes_of(old_entries).no_duplicates(),
                i <= old_entries.len(),
                from.len() == kept@.len(),
                forall|k: int|
                    0 <= k < kept@.len() ==> 0 <= #[trigger] from[k] < i && old_entries[from[k]]
                        == kept@[k] && now < kept@[k].expires_at,
                forall|k1: int, k2: int|
                    0 <= k1 < k2 < kept@.len() ==> #[trigger] from[k1] < #[trigger] from[k2],
                forall|j: int|
                    0 <= j < i && now < old_entries[j].expires_at ==> exists|k: int|
                        0 <= k < kept@.len() && #[trigger] from[k] == j,
            decreases old_entries.len() - i,
        {
            let e = self.entries[i];
            if now < e.expires_at {
                let ghost before = from;
                kept.push(e);
                proof {
                    from = from.push(i as int);
                    assert forall|j: int|
                        0 <= j < i + 1 && now < old_entries[j].expires_at implies exists|k: int|
                        0 <= k < kept@.len() && #[trigger] from[k] == j by {
                        if j < i {
                            let k = choose|k: int| 0 <= k < before.len() && before[k] == j;
                            assert(from[k] == j);
                        } else {
                            assert(from[before.len() as int] == j);
                        }
                    }
                }
            }
            i = i + 1;
        }
        self.entries = kept;
        proof {
            let s = self.entries@;
            let target = unexpired(map_of(old_entries), now);
            assert(hashes_of(s).no_duplicates()) by {
                assert forall|k1: int, k2: int|
                    0 <= k1 < hashes_of(s).len() && 0 <= k2 < hashes_of(s).len() && k1
                        != k2 implies hashes_of(s)[k1] != hashes_of(s)[k2] by {
                    let j1 = from[k1];
                    let j2 = from[k2];
                    if k1 < k2 {
                        assert(from[k1] < from[k2]);
                    } else {
                        assert(from[k2] < from[k1]);
                    }
                    assert(hashes_of(old_entries)[j1] == hashes_of(s)[k1]);
                    assert(hashes_of(old_entries)[j2] == hashes_of(s)[k2]);
                }
            }
            assert forall|h: Seq<u8>| #[trigger] map_of(s).contains_key(h) implies target.contains_key(
                h,
            ) && map_of(s)[h] == target[h] by {
                lemma_map_of_contains(s, h);
                let k = choose|k: int| 0 <= k < s.len() && s[k].hash@ == h;
                lemma_map_of_at(s, k);
                let j = from[k];
                lemma_map_of_at(old_entries, j);
            }
            assert forall|h: Seq<u8>| #[trigger] target.contains_key(h) implies map_of(
                s,
            ).contains_key(h) by {
                lemma_map_of_contains(old_entries, h);
                let j = choose|j: int| 0 <= j < old_entries.len() && old_entries[j].hash@ == h;
                lemma_map_of_at(old_entries, j);
                let k = choose|k: int| 0 <= k < kept@.len() && from[k] == j;
                assert(s[k].hash@ == h);
                lemma_map_of_contains(s, h);
            }
            assert(map_of(s) =~= target);
        }
    }
}

} // verus!
