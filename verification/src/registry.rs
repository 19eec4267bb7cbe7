//! An in-memory application registry.
//!
//! The registry resolves the 64-bit identifier a caller sends in `X-App-Id`
//! to the application record registered under it. The admission guard only
//! ever reads it.

use vstd::prelude::*;
use crate::models::Application;

verus! {

/// One registry row: the lookup key and the application registered under it.
pub struct RegistryEntry {
    /// The 64-bit identifier callers send.
    pub key: u64,
    /// The application record.
    pub app: Application,
}

/// The record a key resolves to among `entries`, front to back.
pub open spec fn lookup(entries: Seq<RegistryEntry>, key: u64) -> Option<Application>
    decreases entries.len(),
{
    if entries.len() == 0 {
        None
    } else if entries.first().key == key {
        Some(entries.first().app)
    } else {
        lookup(entries.drop_first(), key)
    }
}

proof fn lemma_lookup_push(s: Seq<RegistryEntry>, e: RegistryEntry, key: u64)
    ensures
        lookup(s.push(e), key) == (if lookup(s, key) is Some {
            lookup(s, key)
        } else if e.key == key {
            Some(e.app)
        } else {
            None::<Application>
        }),
    decreases s.len(),
{
    if s.len() == 0 {
        assert(s.push(e).first() == e);
        assert(s.push(e).drop_first() =~= s);
    } else {
        assert(s.push(e).first() == s.first());
        assert(s.push(e).drop_first() =~= s.drop_first().push(e));
        lemma_lookup_push(s.drop_first(), e, key);
    }
}

proof fn lemma_lookup_none(s: Seq<RegistryEntry>, key: u64)
    requires
        lookup(s, key) is None,
    ensures
        forall|i: int| 0 <= i < s.len() ==> (#[trigger] s[i]).key != key,
    decreases s.len(),
{
    if s.len() > 0 {
        lemma_lookup_none(s.drop_first(), key);
        assert forall|i: int| 0 <= i < s.len() implies (#[trigger] s[i]).key != key by {
            if i > 0 {
                assert(s.drop_first()[i - 1] == s[i]);
            }
        }
    }
}

/// An in-memory application registry, keyed by the identifier callers send.
/// Keys are unique and every record meets its invariant.
pub struct Registry {
    entries: Vec<RegistryEntry>,
}

impl Registry {
    /// The record `key` resolves to, if any: the lookup contract hides
    /// inactive applications, so a deactivated caller never authenticates.
    pub closed spec fn spec_get(self, key: u64) -> Option<Application> {
        match lookup(self.entries@, key) {
            Some(app) => if app.active {
                Some(app)
            } else {
                None
            },
            None => None,
        }
    }

    /// Whether some record — active or not — is stored under `key`.
    pub closed spec fn spec_has_key(self, key: u64) -> bool {
        lookup(self.entries@, key) is Some
    }

    /// Whether some record — active or not — carries the 128-bit
    /// application identifier `id`.
    pub closed spec fn spec_has_id(self, id: u128) -> bool {
        exists|i: int| 0 <= i < self.entries@.len() && (#[trigger] self.entries@[i]).app.id == id
    }

    /// The registry invariant: unique lookup keys, unique 128-bit
    /// application identifiers, well-formed records.
    pub closed spec fn wf(self) -> bool {
        &&& forall|i: int, j: int|
            0 <= i < j < self.entries@.len() ==> (#[trigger] self.entries@[i]).key != (
            #[trigger] self.entries@[j]).key
        &&& forall|i: int, j: int|
            0 <= i < j < self.entries@.len() ==> (#[trigger] self.entries@[i]).app.id != (
            #[trigger] self.entries@[j]).app.id
        &&& forall|i: int| 0 <= i < self.entries@.len() ==> (#[trigger] self.entries@[i]).app.wf()
    }

    /// Every record a lookup can return meets the record invariant.
    pub proof fn lemma_get_wf(self, key: u64)
        requires
            self.wf(),
        ensures
            self.spec_get(key) matches Some(app) ==> app.wf(),
    {
        Self::lemma_lookup_wf(self.entries@, key);
    }

    proof fn lemma_lookup_wf(s: Seq<RegistryEntry>, key: u64)
        requires
            forall|i: int| 0 <= i < s.len() ==> (#[trigger] s[i]).app.wf(),
        ensures
            lookup(s, key) matches Some(app) ==> app.wf(),
        decreases s.len(),
    {
        if s.len() > 0 && s.first().key != key {
            assert forall|i: int|
                0 <= i < s.drop_first().len() implies (#[trigger] s.drop_first()[i]).app.wf() by {
                assert(s.drop_first()[i] == s[i + 1]);
            }
            Self::lemma_lookup_wf(s.drop_first(), key);
        }
    }

    /// Creates an empty registry.
    pub fn new() -> (r: Registry)
        ensures
            r.wf(),
            forall|k: u64| #[trigger] r.spec_get(k) is None,
            forall|k: u64| !(#[trigger] r.spec_has_key(k)),
            forall|id: u128| !(#[trigger] r.spec_has_id(id)),
    {
        Registry { entries: Vec::new() }
    }

    /// Registers an application under a lookup key. Returns `false` and
    /// leaves the registry unchanged when the key, or the application's
    /// 128-bit identifier, is already taken: both are unique across the
    /// registry.
    pub fn register(&mut self, key: u64, app: Application) -> (r: bool)
        requires
            old(self).wf(),
            app.wf(),
        ensures
            final(self).wf(),
            r == (!old(self).spec_has_key(key) && !old(self).spec_has_id(app.id)),
            r ==> final(self).spec_get(key) == (if app.active {
                Some(app)
            } else {
                None::<Application>
            }),
            r ==> final(self).spec_has_key(key) && final(self).spec_has_id(app.id),
            r ==> forall|k: u64|
                k != key ==> #[trigger] final(self).spec_get(k) == old(self).spec_get(k),
            !r ==> *final(self) == *old(self),
    {
        let taken = self.find(key).is_some();
        if taken || self.has_id(app.id) {
            return false;
        }
        let ghost s = self.entries@;
        let entry = RegistryEntry { key, app };
        proof {
            lemma_lookup_none(s, key);
            lemma_lookup_push(s, entry, key);
            assert forall|k: u64|
                k != key implies #[trigger] lookup(s.push(entry), k) == lookup(s, k) by {
                lemma_lookup_push(s, entry, k);
            }
            assert(s.push(entry)[s.len() as int].app.id == app.id);
        }
        self.entries.push(entry);
        true
    }

    /// Whether some record carries the application identifier `id`.
    fn has_id(&self, id: u128) -> (r: bool)
        ensures
            r == self.spec_has_id(id),
    {
        let n = self.entries.len();
        let mut i: usize = 0;
        while i < n
            invariant
                0 <= i <= n,
                n == self.entries@.len(),
                forall|j: int| 0 <= j < i ==> (#[trigger] self.entries@[j]).app.id != id,
            decreases n - i,
        {
            if self.entries[i].app.id == id {
                proof {
                    assert(0 <= i < self.entries@.len() && self.entries@[i as int].app.id == id);
                }
                return true;
            }
            i = i + 1;
        }
        false
    }

    /// The 128-bit application identifier is unique across the registry:
    /// two distinct keys never resolve to records sharing one identifier,
    /// so distinct applications never share a quota counter.
    pub proof fn lemma_ids_unique(self, k1: u64, k2: u64)
        requires
            self.wf(),
            k1 != k2,
        ensures
            self.spec_get(k1) matches Some(a1) ==> self.spec_get(k2) matches Some(a2) ==> a1.id
                != a2.id,
    {
        Self::lemma_lookup_some(self.entries@, k1);
        Self::lemma_lookup_some(self.entries@, k2);
    }

    proof fn lemma_lookup_some(s: Seq<RegistryEntry>, key: u64)
        ensures
            lookup(s, key) matches Some(app) ==> exists|i: int|
                0 <= i < s.len() && (#[trigger] s[i]).key == key && s[i].app == app,
        decreases s.len(),
    {
        if s.len() > 0 && s.first().key != key {
            Self::lemma_lookup_some(s.drop_first(), key);
            match lookup(s, key) {
                Some(app) => {
                    let i = choose|i: int|
                        0 <= i < s.drop_first().len() && (#[trigger] s.drop_first()[i]).key == key
                            && s.drop_first()[i].app == app;
                    assert(s[i + 1] == s.drop_first()[i]);
                },
                None => {},
            }
        }
    }

    /// Resolves the identifier a caller sent to its application record; an
    /// inactive application does not resolve.
    pub fn get_application(&self, app_id: u64) -> (r: Option<&Application>)
        ensures
            match r {
                Some(app) => self.spec_get(app_id) == Some(*app),
                None => self.spec_get(app_id) is None,
            },
    {
        match self.find(app_id) {
            Some(app) => {
                if app.is_active() {
                    Some(app)
                } else {
                    None
                }
            },
            None => None,
        }
    }

    /// Finds the record stored under `app_id`, active or not.
    fn find(&self, app_id: u64) -> (r: Option<&Application>)
        ensures
            match r {
                Some(app) => lookup(self.entries@, app_id) == Some(*app),
                None => lookup(self.entries@, app_id) is None,
            },
    {
        let n = self.entries.len();
        let mut i: usize = 0;
        proof {
            assert(self.entries@.skip(0) =~= self.entries@);
        }
        while i < n
            invariant
                0 <= i <= n,
                n == self.entries@.len(),
                lookup(self.entries@, app_id) == lookup(self.entries@.skip(i as int), app_id),
            decreases n - i,
        {
            let ghost rest = self.entries@.skip(i as int);
            proof {
                assert(rest.first() == self.entries@[i as int]);
                assert(rest.drop_first() =~= self.entries@.skip(i as int + 1));
            }
            if self.entries[i].key == app_id {
                return Some(&self.entries[i].app);
            }
            i = i + 1;
        }
        proof {
            assert(self.entries@.skip(i as int) =~= Seq::<RegistryEntry>::empty());
        }
        None
    }
}

} // verus!
