use crate::mapping::{MappingModel, UrlBook, UrlError, UrlMapping};
use crate::model::{
    bumped, create_outcome, create_step, renewed_ttl, resolve_step, RegistryModel, TTL_EXTEND_TO,
    TTL_THRESHOLD,
};
use vstd::prelude::*;

verus! {

/// Whether a stored sequence of entries is a lawful registry content: every
/// entry is a real mapping (a creation time of at least `1` and a non-empty
/// short code), and no two entries share a short code.
pub open spec fn entries_ok(s: Seq<UrlMapping>) -> bool {
    &&& forall|i: int, j: int|
        0 <= i < s.len() && 0 <= j < s.len() && i != j ==> (#[trigger] s[i])@.short_code != (
        #[trigger] s[j])@.short_code
    &&& forall|i: int| 0 <= i < s.len() ==> (#[trigger] s[i])@.created_at >= 1
    &&& forall|i: int| 0 <= i < s.len() ==> (#[trigger] s[i])@.short_code.len() >= 1
}

/// Whether some entry carries the given short code.
spec fn has_code(s: Seq<UrlMapping>, code: Seq<char>) -> bool {
    exists|i: int| 0 <= i < s.len() && (#[trigger] s[i])@.short_code == code
}

/// The index of the entry carrying the given short code (unique when the
/// codes are unique).
spec fn index_of_code(s: Seq<UrlMapping>, code: Seq<char>) -> int {
    choose|i: int| 0 <= i < s.len() && (#[trigger] s[i])@.short_code == code
}

/// The stored entries read as a map from short code to mapping.
spec fn entries_map(s: Seq<UrlMapping>) -> Map<Seq<char>, MappingModel> {
    Map::new(|code: Seq<char>| has_code(s, code), |code: Seq<char>| s[index_of_code(s, code)]@)
}

/// The entry at a lawful index is what the map holds under its code.
proof fn lemma_entries_map_at(s: Seq<UrlMapping>, i: int)
    requires
        entries_ok(s),
        0 <= i < s.len(),
    ensures
        entries_map(s).contains_key(s[i]@.short_code),
        entries_map(s)[s[i]@.short_code] == s[i]@,
{
    let code = s[i]@.short_code;
    assert(has_code(s, code));
    let j = index_of_code(s, code);
    assert(0 <= j < s.len() && s[j]@.short_code == code);
    assert(j == i);
}

/// Appending an entry under a new short code inserts it into the map.
proof fn lemma_entries_map_push(s: Seq<UrlMapping>, m: UrlMapping)
    requires
        entries_ok(s),
        !has_code(s, m@.short_code),
    ensures
        entries_map(s.push(m)) =~= entries_map(s).insert(m@.short_code, m@),
{
    let s2 = s.push(m);
    let code = m@.short_code;
    assert forall|c: Seq<char>| #[trigger] has_code(s2, c) implies c == code || has_code(s, c) by {
        let i = choose|i: int| 0 <= i < s2.len() && (#[trigger] s2[i])@.short_code == c;
        if i < s.len() {
            assert(s[i]@.short_code == c);
        }
    }
    assert forall|c: Seq<char>| has_code(s, c) implies #[trigger] has_code(s2, c) by {
        let i = choose|i: int| 0 <= i < s.len() && (#[trigger] s[i])@.short_code == c;
        assert(s2[i]@.short_code == c);
    }
    assert(s2[s.len() as int]@.short_code == code);
    assert(has_code(s2, code));
    assert forall|c: Seq<char>| has_code(s2, c) && c != code implies #[trigger] entries_map(s2)[c]
        == entries_map(s)[c] by {
        let i = index_of_code(s2, c);
        assert(0 <= i < s2.len() && s2[i]@.short_code == c);
        assert(i < s.len());
        assert(s[i]@.short_code == c);
        let j = index_of_code(s, c);
        assert(0 <= j < s.len() && s[j]@.short_code == c);
        assert(j == i);
    }
    assert(entries_map(s2)[code] == m@) by {
        let i = index_of_code(s2, code);
        assert(0 <= i < s2.len() && s2[i]@.short_code == code);
        if i < s.len() {
            assert(s[i]@.short_code == code);
            assert(has_code(s, code));
        }
        assert(i == s.len() as int);
    }
}

/// Replacing the entry at an index by one with the same short code updates
/// the map at that code and keeps the contents lawful.
proof fn lemma_entries_map_update(s: Seq<UrlMapping>, i: int, m: UrlMapping)
    requires
        entries_ok(s),
        0 <= i < s.len(),
        m@.short_code == s[i]@.short_code,
        m@.created_at >= 1,
        m@.short_code.len() >= 1,
    ensures
        entries_ok(s.update(i, m)),
        entries_map(s.update(i, m)) =~= entries_map(s).insert(m@.short_code, m@),
{
    let s2 = s.update(i, m);
    let code = m@.short_code;
    assert forall|c: Seq<char>| #[trigger] has_code(s2, c) implies has_code(s, c) by {
        let k = choose|k: int| 0 <= k < s2.len() && (#[trigger] s2[k])@.short_code == c;
        if k == i {
            assert(s[i]@.short_code == c);
        } else {
            assert(s[k]@.short_code == c);
        }
    }
    assert forall|c: Seq<char>| #[trigger] has_code(s, c) implies has_code(s2, c) by {
        let k = choose|k: int| 0 <= k < s.len() && (#[trigger] s[k])@.short_code == c;
        if k == i {
            assert(s2[i]@.short_code == c);
        } else {
            assert(s2[k]@.short_code == c);
        }
    }
    assert forall|c: Seq<char>| has_code(s2, c) && c != code implies #[trigger] entries_map(s2)[c]
        == entries_map(s)[c] by {
        let k = index_of_code(s2, c);
        assert(0 <= k < s2.len() && s2[k]@.short_code == c);
        assert(k != i);
        assert(s[k]@.short_code == c);
        let j = index_of_code(s, c);
        assert(0 <= j < s.len() && s[j]@.short_code == c);
        assert(j == k);
    }
    assert(entries_map(s2)[code] == m@) by {
        assert(s2[i]@.short_code == code);
        assert(has_code(s2, code));
        let k = index_of_code(s2, code);
        assert(0 <= k < s2.len() && s2[k]@.short_code == code);
        if k != i {
            assert(s[k]@.short_code == code);
            assert(s[i]@.short_code == code);
        }
        assert(k == i);
    }
}

/// The URL-shortening registry: the stored mappings, the aggregate count of
/// mappings ever created, and the remaining storage lifetime of its store
/// entries (host ledger units, renewed by every mutating operation).
pub struct UrlShortenerContract {
    entries: Vec<UrlMapping>,
    total: u64,
    ttl: u64,
}

impl View for UrlShortenerContract {
    type V = RegistryModel;

    closed spec fn view(&self) -> RegistryModel {
        RegistryModel {
            mappings: entries_map(self.entries@),
            total: self.total as nat,
            ttl: self.ttl,
        }
    }
}

impl UrlShortenerContract {
    /// Well-formedness: the stored entries are lawful registry content.
    pub closed spec fn wf(&self) -> bool {
        entries_ok(self.entries@)
    }

    /// An empty registry: nothing stored, nothing counted, no storage
    /// lifetime granted yet.
    pub fn new() -> (r: Self)
        ensures
            r.wf(),
            r@ == RegistryModel::init(),
    {
        let r = UrlShortenerContract { entries: Vec::new(), total: 0, ttl: 0 };
        proof {
            assert(r@.mappings =~= Map::<Seq<char>, MappingModel>::empty());
            assert(r@ =~= RegistryModel::init());
        }
        r
    }

    /// Rebuilds a registry from state held outside (entries read back from a
    /// durable store, the stored counter, the remaining lifetime). Hands back
    /// `None` exactly when the entries are not lawful registry content; a
    /// rebuilt registry holds exactly the given entries, keyed by their short
    /// codes.
    pub fn from_state(entries: Vec<UrlMapping>, total: u64, ttl: u64) -> (r: Option<Self>)
        ensures
            match r {
                Some(reg) => {
                    &&& reg.wf()
                    &&& entries_ok(entries@)
                    &&& reg@.total == total as nat
                    &&& reg@.ttl == ttl
                    &&& forall|i: int|
                        0 <= i < entries@.len() ==> reg@.mappings.contains_key(
                            (#[trigger] entries@[i])@.short_code,
                        ) && reg@.mappings[entries@[i]@.short_code] == entries@[i]@
                    &&& forall|c: Seq<char>|
                        reg@.mappings.contains_key(c) ==> exists|i: int|
                            0 <= i < entries@.len() && (#[trigger] entries@[i])@.short_code == c
                },
                None => !entries_ok(entries@),
            },
    {
        let n = entries.len();
        let mut i: usize = 0;
        while i < n
            invariant
                n == entries@.len(),
                i <= n,
                forall|k: int|
                    0 <= k < i ==> (#[trigger] entries@[k])@.created_at >= 1 && entries@[
                        k
                    ]@.short_code.len() >= 1,
                forall|k: int, l: int|
                    0 <= k < i && 0 <= l < entries@.len() && k != l ==> (
                    #[trigger] entries@[k])@.short_code != (#[trigger] entries@[l])@.short_code,
            decreases n - i,
        {
            if entries[i].created_at == 0 || entries[i].short_code.as_str().is_empty() {
                return None;
            }
            let mut j: usize = i + 1;
            while j < n
                invariant
                    n == entries@.len(),
                    i < j <= n,
                    i < n,
                    forall|l: int|
                        i < l < j ==> (#[trigger] entries@[l])@.short_code != entries@[
                            i as int
                        ]@.short_code,
                decreases n - j,
            {
                if entries[i].short_code == entries[j].short_code {
                    return None;
                }
                j += 1;
            }
            proof {
                assert forall|l: int|
                    0 <= l < entries@.len() && l != i implies (#[trigger] entries@[l])@.short_code
                    != entries@[i as int]@.short_code by {}
            }
            i += 1;
        }
        let reg = UrlShortenerContract { entries, total, ttl };
        proof {
            assert(entries_ok(reg.entries@));
            assert forall|k: int| 0 <= k < reg.entries@.len() implies reg@.mappings.contains_key(
                (#[trigger] reg.entries@[k])@.short_code,
            ) && reg@.mappings[reg.entries@[k]@.short_code] == reg.entries@[k]@ by {
                lemma_entries_map_at(reg.entries@, k);
            }
        }
        Some(reg)
    }

    /// Looks up the index of the entry filed under the given key.
    fn find(&self, key: &UrlBook) -> (r: Option<usize>)
        requires
            self.wf(),
        ensures
            match r {
                Some(i) => i < self.entries@.len() && self.entries@[i as int]@.short_code == key@,
                None => !has_code(self.entries@, key@),
            },
    {
        let code = match key {
            UrlBook::Url(code) => code,
        };
        let n = self.entries.len();
        let mut i: usize = 0;
        while i < n
            invariant
                n == self.entries@.len(),
                i <= n,
                code@ == key@,
                forall|j: int|
                    0 <= j < i ==> (#[trigger] self.entries@[j])@.short_code != key@,
            decreases n - i,
        {
            if self.entries[i].short_code == *code {
                return Some(i);
            }
            i += 1;
        }
        None
    }

    /// Applies the fixed lifetime-renewal policy, as every mutating
    /// operation does before it returns.
    fn extend_instance_ttl(&mut self)
        ensures
            final(self).entries == old(self).entries,
            final(self).total == old(self).total,
            final(self).ttl == renewed_ttl(old(self).ttl),
    {
        if self.ttl < TTL_THRESHOLD {
            self.ttl = TTL_EXTEND_TO;
        }
    }

    /// Creates a new short-URL mapping and hands the short code back.
    ///
    /// `authorized` is the identity verifier's verdict on the claimed
    /// creator, and `now` the host clock's timestamp for this operation. An
    /// unauthorized caller is refused first; an authorized one is refused
    /// when the code is already bound. A refused request changes nothing; an
    /// accepted one stores the fresh mapping, counts it, and renews the
    /// storage lifetime.
    pub fn create_short_url(
        &mut self,
        short_code: String,
        original_url: String,
        creator: String,
        authorized: bool,
        now: u64,
    ) -> (r: Result<String, UrlError>)
        requires
            old(self).wf(),
            now >= 1,
            short_code@.len() >= 1,
            old(self)@.total < u64::MAX,
        ensures
            final(self).wf(),
            final(self)@ == create_step(
                old(self)@,
                short_code@,
                original_url@,
                creator@,
                authorized,
                now,
            ),
            match r {
                Ok(code) => create_outcome(old(self)@, short_code@, authorized) is Ok && code@
                    == short_code@,
                Err(e) => create_outcome(old(self)@, short_code@, authorized) == Err::<
                    (),
                    UrlError,
                >(e),
            },
    {
        if !authorized {
            return Err(UrlError::Unauthorized);
        }
        let key = UrlBook::Url(short_code.clone());
        if self.find(&key).is_some() {
            return Err(UrlError::DuplicateShortCode);
        }
        let ghost s0 = self.entries@;
        let mapping = UrlMapping {
            short_code: short_code.clone(),
            original_url: original_url,
            creator: creator,
            created_at: now,
            click_count: 0,
        };
        self.entries.push(mapping);
        self.total = self.total + 1;
        self.extend_instance_ttl();
        proof {
            lemma_entries_map_push(s0, self.entries@.last());
            assert(self@ =~= create_step(
                old(self)@,
                short_code@,
                original_url@,
                creator@,
                authorized,
                now,
            ));
        }
        Ok(short_code)
    }

    /// Resolves a short code to its target URL, recording the access.
    ///
    /// A bound code hands back its stored target, counts one more access on
    /// the mapping, and renews the storage lifetime; an unknown one hands
    /// back the literal `"NOT_FOUND"` and changes nothing.
    pub fn resolve_url(&mut self, short_code: &str) -> (r: String)
        requires
            old(self).wf(),
        ensures
            final(self).wf(),
            final(self)@ == resolve_step(old(self)@, short_code@),
            old(self)@.mappings.contains_key(short_code@) ==> r@ == old(
                self,
            )@.mappings[short_code@].original_url,
            !old(self)@.mappings.contains_key(short_code@) ==> r@ == "NOT_FOUND"@,
    {
        let key = UrlBook::Url(short_code.to_owned());
        match self.find(&key) {
            None => "NOT_FOUND".to_owned(),
            Some(i) => {
                let ghost s0 = self.entries@;
                proof {
                    lemma_entries_map_at(s0, i as int);
                }
                let entry = &mut self.entries[i];
                entry.click_count = if entry.click_count < u64::MAX {
                    entry.click_count + 1
                } else {
                    u64::MAX
                };
                let url = entry.original_url.clone();
                proof {
                    assert(self.entries@[i as int]@ == bumped(s0[i as int]@));
                    lemma_entries_map_update(s0, i as int, self.entries@[i as int]);
                }
                self.extend_instance_ttl();
                proof {
                    assert(self@ =~= resolve_step(old(self)@, short_code@));
                }
                url
            },
        }
    }

    /// Reads the full mapping stored under a short code: the stored record
    /// for a bound code, the canonical absent value for an unknown one. A
    /// pure read: no counter moves and no lifetime is renewed.
    pub fn get_url(&self, short_code: &str) -> (r: UrlMapping)
        requires
            self.wf(),
        ensures
            self@.mappings.contains_key(short_code@) ==> r@ == self@.mappings[short_code@],
            !self@.mappings.contains_key(short_code@) ==> r@ == MappingModel::absent(),
    {
        let key = UrlBook::Url(short_code.to_owned());
        match self.find(&key) {
            Some(i) => {
                proof {
                    lemma_entries_map_at(self.entries@, i as int);
                }
                self.entries[i].clone()
            },
            None => UrlMapping::absent(),
        }
    }

    /// The aggregate counter: how many mappings have ever been created.
    pub fn get_total_urls(&self) -> (r: u64)
        ensures
            r as nat == self@.total,
    {
        self.total
    }

    /// The remaining storage lifetime of the registry's store entries.
    pub fn remaining_ttl(&self) -> (r: u64)
        ensures
            r == self@.ttl,
    {
        self.ttl
    }
}

} // verus!
