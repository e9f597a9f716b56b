use vstd::prelude::*;

verus! {

/// Compares two byte strings one byte at a time.
pub fn bytes_equal(a: &Vec<u8>, b: &Vec<u8>) -> (r: bool)
    ensures
        r == (a@ == b@),
{
    if a.len() != b.len() {
        return false;
    }
    let mut i: usize = 0;
    while i < a.len()
        invariant
            a@.len() == b@.len(),
            0 <= i <= a@.len(),
            forall|j: int| 0 <= j < i ==> a@[j] == b@[j],
        decreases a@.len() - i,
    {
        if a[i] != b[i] {
            assert(a@[i as int] != b@[i as int]);
            return false;
        }
        i = i + 1;
    }
    assert(a@ =~= b@);
    true
}

/// Copies a byte string.
pub fn copy_bytes(a: &Vec<u8>) -> (r: Vec<u8>)
    ensures
        r@ == a@,
{
    let mut r: Vec<u8> = Vec::with_capacity(a.len());
    let mut i: usize = 0;
    while i < a.len()
        invariant
            0 <= i <= a@.len(),
            r@ == a@.subrange(0, i as int),
        decreases a@.len() - i,
    {
        r.push(a[i]);
        i = i + 1;
        assert(r@ =~= a@.subrange(0, i as int));
    }
    assert(a@.subrange(0, a@.len() as int) =~= a@);
    r
}

/// The public key that identifies a peer: the unit of access control and
/// the addressee of notifications.
#[derive(Debug)]
pub struct AgentKey {
    pub bytes: Vec<u8>,
}

impl View for AgentKey {
    type V = Seq<u8>;

    open spec fn view(&self) -> Seq<u8> {
        self.bytes@
    }
}

impl AgentKey {
    pub fn new(bytes: Vec<u8>) -> (r: AgentKey)
        ensures
            r@ == bytes@,
    {
        AgentKey { bytes }
    }

    /// Whether two keys name the same peer.
    pub fn same_as(&self, other: &AgentKey) -> (r: bool)
        ensures
            r == (self@ == other@),
    {
        bytes_equal(&self.bytes, &other.bytes)
    }
}

impl Clone for AgentKey {
    fn clone(&self) -> (r: AgentKey)
        ensures
            r@ == self@,
    {
        AgentKey { bytes: copy_bytes(&self.bytes) }
    }
}

impl PartialEq for AgentKey {
    fn eq(&self, other: &AgentKey) -> (r: bool) {
        bytes_equal(&self.bytes, &other.bytes)
    }
}

impl vstd::std_specs::cmp::PartialEqSpecImpl for AgentKey {
    open spec fn obeys_eq_spec() -> bool {
        true
    }

    open spec fn eq_spec(&self, other: &AgentKey) -> bool {
        self@ == other@
    }
}

/// The content address of a committed record (a session, a round or a move).
#[derive(Debug)]
pub struct EntryRef {
    pub bytes: Vec<u8>,
}

impl View for EntryRef {
    type V = Seq<u8>;

    open spec fn view(&self) -> Seq<u8> {
        self.bytes@
    }
}

impl EntryRef {
    pub fn new(bytes: Vec<u8>) -> (r: EntryRef)
        ensures
            r@ == bytes@,
    {
        EntryRef { bytes }
    }

    /// Whether two references address the same record.
    pub fn same_as(&self, other: &EntryRef) -> (r: bool)
        ensures
            r == (self@ == other@),
    {
        bytes_equal(&self.bytes, &other.bytes)
    }
}

impl Clone for EntryRef {
    fn clone(&self) -> (r: EntryRef)
        ensures
            r@ == self@,
    {
        EntryRef { bytes: copy_bytes(&self.bytes) }
    }
}

impl PartialEq for EntryRef {
    fn eq(&self, other: &EntryRef) -> (r: bool) {
        bytes_equal(&self.bytes, &other.bytes)
    }
}

impl vstd::std_specs::cmp::PartialEqSpecImpl for EntryRef {
    open spec fn obeys_eq_spec() -> bool {
        true
    }

    open spec fn eq_spec(&self, other: &EntryRef) -> bool {
        self@ == other@
    }
}

/// The byte strings of a sequence of keys.
pub open spec fn keys_view(s: Seq<AgentKey>) -> Seq<Seq<u8>> {
    s.map_values(|k: AgentKey| k@)
}

/// Copies a list of keys.
pub fn copy_keys(keys: &Vec<AgentKey>) -> (r: Vec<AgentKey>)
    ensures
        keys_view(r@) == keys_view(keys@),
{
    let mut r: Vec<AgentKey> = Vec::with_capacity(keys.len());
    let mut i: usize = 0;
    while i < keys.len()
        invariant
            0 <= i <= keys@.len(),
            keys_view(r@) == keys_view(keys@).subrange(0, i as int),
        decreases keys@.len() - i,
    {
        let k = keys[i].clone();
        let ghost before = r@;
        r.push(k);
        assert(keys_view(r@) =~= keys_view(before).push(keys@[i as int]@));
        i = i + 1;
        assert(keys_view(r@) =~= keys_view(keys@).subrange(0, i as int));
    }
    assert(keys_view(keys@).subrange(0, keys@.len() as int) =~= keys_view(keys@));
    r
}

/// Whether `key` is one of `keys`.
pub fn contains_key(keys: &Vec<AgentKey>, key: &AgentKey) -> (r: bool)
    ensures
        r == keys_view(keys@).contains(key@),
{
    let mut i: usize = 0;
    while i < keys.len()
        invariant
            0 <= i <= keys@.len(),
            forall|j: int| 0 <= j < i ==> keys_view(keys@)[j] != key@,
        decreases keys@.len() - i,
    {
        if keys[i].same_as(key) {
            assert(keys_view(keys@)[i as int] == key@);
            return true;
        }
        i = i + 1;
    }
    false
}

/// The keys of `s` with later repeats removed, in order of first appearance.
pub open spec fn distinct_keys(s: Seq<Seq<u8>>) -> Seq<Seq<u8>>
    decreases s.len(),
{
    if s.len() == 0 {
        Seq::empty()
    } else {
        let before = distinct_keys(s.drop_last());
        if s.drop_last().contains(s.last()) {
            before
        } else {
            before.push(s.last())
        }
    }
}

/// Removing repeats leaves each key of `s` once, and no other key.
pub proof fn lemma_distinct_keys(s: Seq<Seq<u8>>)
    ensures
        distinct_keys(s).no_duplicates(),
        distinct_keys(s).to_set() == s.to_set(),
    decreases s.len(),
{
    let d = distinct_keys(s);
    if s.len() == 0 {
        assert(d.to_set() =~= s.to_set());
    } else {
        let p = s.drop_last();
        let x = s.last();
        assert(s == p.push(x));
        lemma_distinct_keys(p);
        p.lemma_push_to_set_commute(x);
        let dp = distinct_keys(p);
        if p.contains(x) {
            assert(s.to_set() =~= p.to_set());
        } else {
            dp.lemma_push_to_set_commute(x);
            assert(!dp.contains(x)) by {
                if dp.contains(x) {
                    assert(dp.to_set().contains(x));
                    assert(p.to_set().contains(x));
                }
            }
            assert(d.no_duplicates()) by {
                assert forall|i: int, j: int|
                    0 <= i < d.len() && 0 <= j < d.len() && i != j implies d[i] != d[j] by {
                    if i == d.len() - 1 {
                        assert(dp[j] == d[j]);
                    } else if j == d.len() - 1 {
                        assert(dp[i] == d[i]);
                    } else {
                        assert(dp[i] == d[i] && dp[j] == d[j]);
                    }
                }
            }
        }
    }
}

/// The keys with later repeats removed, in order of first appearance.
pub fn dedup_keys(keys: Vec<AgentKey>) -> (r: Vec<AgentKey>)
    ensures
        keys_view(r@) == distinct_keys(keys_view(keys@)),
{
    let ghost v = keys_view(keys@);
    let mut r: Vec<AgentKey> = Vec::new();
    let mut i: usize = 0;
    while i < keys.len()
        invariant
            0 <= i <= keys@.len(),
            v == keys_view(keys@),
            keys_view(r@) == distinct_keys(v.subrange(0, i as int)),
        decreases keys@.len() - i,
    {
        let ghost prefix = v.subrange(0, i as int);
        assert(v.subrange(0, i + 1).drop_last() =~= prefix);
        assert(v.subrange(0, i + 1).last() == v[i as int]);
        proof {
            lemma_distinct_keys(prefix);
        }
        let seen = contains_key(&r, &keys[i]);
        assert(seen == prefix.contains(v[i as int])) by {
            if seen {
                assert(distinct_keys(prefix).to_set().contains(v[i as int]));
            } else if prefix.contains(v[i as int]) {
                assert(prefix.to_set().contains(v[i as int]));
                assert(distinct_keys(prefix).to_set().contains(v[i as int]));
            }
        }
        if !seen {
            let k = keys[i].clone();
            let ghost before = r@;
            r.push(k);
            assert(keys_view(r@) =~= keys_view(before).push(v[i as int]));
        }
        i = i + 1;
    }
    assert(v.subrange(0, keys@.len() as int) =~= v);
    r
}

} // verus!
