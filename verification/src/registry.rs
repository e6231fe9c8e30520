//! Registry of tracked identities: the semantic model of the durable
//! key-value records. An identity is registered when its provider id is
//! present as a key; the two reserved configuration keys that persist the
//! scoreboard location are never identities.
use vstd::prelude::*;

verus! {

/// The reserved storage key holding the scoreboard channel.
pub open spec fn channel_key() -> Seq<char> {
    "scoreboard_channel"@
}

/// The reserved storage key holding the scoreboard message.
pub open spec fn message_key() -> Seq<char> {
    "scoreboard_message"@
}

/// Whether a storage key is one of the two reserved configuration keys.
pub open spec fn reserved_key(s: Seq<char>) -> bool {
    s == channel_key() || s == message_key()
}

/// The views of a sequence of stored keys.
pub open spec fn key_views(keys: Seq<String>) -> Seq<Seq<char>> {
    keys.map_values(|s: String| s@)
}

/// The reserved key under which the scoreboard channel is persisted.
pub fn channel_key_str() -> (r: &'static str)
    ensures
        r@ == channel_key(),
{
    "scoreboard_channel"
}

/// The reserved key under which the scoreboard message is persisted.
pub fn message_key_str() -> (r: &'static str)
    ensures
        r@ == message_key(),
{
    "scoreboard_message"
}

/// Whether a stored key is reserved for the scoreboard location.
pub fn is_reserved_key(s: &String) -> (r: bool)
    ensures
        r == reserved_key(s@),
{
    *s == "scoreboard_channel".to_owned() || *s == "scoreboard_message".to_owned()
}

/// The set of registered identities. Its view is the sequence of registered
/// provider ids, in registration order, each id at most once and never a
/// reserved key.
#[derive(Debug)]
pub struct Registry {
    ids: Vec<String>,
}

impl View for Registry {
    type V = Seq<Seq<char>>;

    closed spec fn view(&self) -> Seq<Seq<char>> {
        key_views(self.ids@)
    }
}

/// Registry well-formedness: ids are pairwise distinct and none is reserved.
pub open spec fn registry_wf(r: Registry) -> bool {
    &&& forall|i: int, j: int| 0 <= i < j < r@.len() ==> r@[i] != r@[j]
    &&& forall|i: int| 0 <= i < r@.len() ==> !reserved_key(#[trigger] r@[i])
}

proof fn lemma_push_contains<A>(s: Seq<A>, e: A, x: A)
    ensures
        s.push(e).contains(x) == (s.contains(x) || x == e),
{
    if s.push(e).contains(x) {
        let j = choose|j: int| 0 <= j < s.push(e).len() && s.push(e)[j] == x;
        if j < s.len() {
            assert(s[j] == x);
        }
    }
    if s.contains(x) {
        let j = choose|j: int| 0 <= j < s.len() && s[j] == x;
        assert(s.push(e)[j] == x);
    }
    if x == e {
        assert(s.push(e)[s.len() as int] == x);
    }
}

/// A well-formed registry stores a registered identity exactly once: however
/// often the same id was registered, one record exists for it.
pub proof fn lemma_exactly_one_record(r: Registry, id: Seq<char>)
    requires
        registry_wf(r),
        r@.contains(id),
    ensures
        r@.to_multiset().count(id) == 1,
{
    assert(r@.no_duplicates());
    r@.lemma_multiset_has_no_duplicates();
    broadcast use vstd::seq_lib::group_to_multiset_ensures;

    assert(r@.to_multiset().count(id) > 0);
}

impl Registry {
    /// An empty registry.
    pub fn new() -> (r: Self)
        ensures
            r@ == Seq::<Seq<char>>::empty(),
            registry_wf(r),
    {
        let r = Registry { ids: Vec::new() };
        proof {
            assert(r@ =~= Seq::<Seq<char>>::empty());
        }
        r
    }

    /// Whether this provider id is already registered.
    pub fn contains_id(&self, id: &String) -> (r: bool)
        ensures
            r == self@.contains(id@),
    {
        let n = self.ids.len();
        let mut i: usize = 0;
        while i < n
            invariant
                n == self.ids@.len(),
                n == self@.len(),
                0 <= i <= n,
                forall|j: int| 0 <= j < i ==> #[trigger] self@[j] != id@,
            decreases n - i,
        {
            if self.ids[i].eq(id) {
                proof {
                    assert(self@[i as int] == id@);
                }
                return true;
            }
            i += 1;
        }
        proof {
            assert(!self@.contains(id@));
        }
        false
    }

    /// Register an identity: set-if-absent. Registering an id that is
    /// already present changes nothing and reports `false`; either way the
    /// id is present exactly once afterwards.
    pub fn register(&mut self, id: String) -> (inserted: bool)
        requires
            registry_wf(*old(self)),
            !reserved_key(id@),
        ensures
            registry_wf(*final(self)),
            inserted == !old(self)@.contains(id@),
            final(self)@.contains(id@),
            inserted ==> final(self)@ == old(self)@.push(id@),
            !inserted ==> final(self)@ == old(self)@,
            forall|x: Seq<char>|
                #[trigger] final(self)@.contains(x) == (old(self)@.contains(x) || x == id@),
    {
        let present = self.contains_id(&id);
        if present {
            proof {
                assert forall|x: Seq<char>|
                    #[trigger] self@.contains(x) == (self@.contains(x) || x == id@) by {
                }
            }
            false
        } else {
            let ghost pre = self@;
            self.ids.push(id);
            proof {
                assert(self@ =~= pre.push(id@));
                assert(self@.contains(id@)) by {
                    assert(self@[pre.len() as int] == id@);
                }
                assert forall|x: Seq<char>|
                    #[trigger] self@.contains(x) == (pre.contains(x) || x == id@) by {
                    lemma_push_contains(pre, id@, x);
                }
                assert forall|i: int, j: int| 0 <= i < j < self@.len() implies self@[i]
                    != self@[j] by {
                    if j == pre.len() {
                        assert(pre[i] == self@[i]);
                        if self@[i] == id@ {
                            assert(pre.contains(id@));
                        }
                    }
                }
            }
            true
        }
    }

    /// Build the registry from a scan of all stored keys: every key except
    /// the two reserved configuration keys is a registered identity.
    pub fn from_keys(keys: &Vec<String>) -> (r: Registry)
        ensures
            registry_wf(r),
            forall|x: Seq<char>|
                #[trigger] r@.contains(x) == (key_views(keys@).contains(x) && !reserved_key(x)),
    {
        let mut r = Registry::new();
        let n = keys.len();
        let ghost kv = key_views(keys@);
        let mut i: usize = 0;
        while i < n
            invariant
                n == keys@.len(),
                kv == key_views(keys@),
                kv.len() == n,
                0 <= i <= n,
                registry_wf(r),
                forall|x: Seq<char>|
                    #[trigger] r@.contains(x) == (kv.take(i as int).contains(x) && !reserved_key(
                        x,
                    )),
            decreases n - i,
        {
            let ghost pre = r@;
            let reserved = is_reserved_key(&keys[i]);
            if !reserved {
                let _ = r.register(keys[i].clone());
            }
            proof {
                assert(kv.take(i as int + 1) == kv.take(i as int).push(kv[i as int]));
                assert(kv[i as int] == keys@[i as int]@);
                assert forall|x: Seq<char>|
                    #[trigger] r@.contains(x) == (kv.take(i as int + 1).contains(x)
                        && !reserved_key(x)) by {
                    lemma_push_contains(kv.take(i as int), kv[i as int], x);
                }
            }
            i += 1;
        }
        proof {
            assert(kv.take(n as int) == kv);
        }
        r
    }

    /// The registered provider ids, in registration order.
    pub fn identities(&self) -> (r: &Vec<String>)
        ensures
            key_views(r@) == self@,
    {
        &self.ids
    }

    /// How many identities are registered.
    pub fn len(&self) -> (r: usize)
        ensures
            r == self@.len(),
    {
        self.ids.len()
    }
}

} // verus!
