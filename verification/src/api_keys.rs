//! API keys of a merchant, full and restricted ones.

use vstd::prelude::*;

use crate::ids::{is_simple, new_simple_id};
use crate::merchants::{generate_secret, hash_key, is_secret, key_hash};
use crate::text::{
    join2, lex_less, lex_less_total, lex_less_transitive, opt_text, text_eq, text_less,
};

verus! {

/// Characters of a raw key that are kept to tell keys apart.
pub const PREFIX_LEN: usize = 16;

/// What a key gives access to.
#[derive(Debug, Clone, Copy, PartialEq, Eq, Structural)]
pub enum KeyType {
    /// The whole account.
    Full,
    /// Invoices and sessions, but not the management of the account.
    Restricted,
}

impl KeyType {
    pub open spec fn spec_str(self) -> Seq<char> {
        match self {
            KeyType::Full => "full"@,
            KeyType::Restricted => "restricted"@,
        }
    }

    pub fn as_str(self) -> (r: &'static str)
        ensures
            r@ == self.spec_str(),
    {
        match self {
            KeyType::Full => "full",
            KeyType::Restricted => "restricted",
        }
    }

    /// The type that a request names.
    pub fn parse(s: &str) -> (r: Option<KeyType>)
        ensures
            match r {
                Some(t) => t.spec_str() == s@,
                None => s@ != "full"@ && s@ != "restricted"@,
            },
    {
        if text_eq(s, "full") {
            Some(KeyType::Full)
        } else if text_eq(s, "restricted") {
            Some(KeyType::Restricted)
        } else {
            None
        }
    }

    /// The type of a stored key; what is not restricted is full.
    pub open spec fn of_stored(s: Seq<char>) -> KeyType {
        if s == "restricted"@ {
            KeyType::Restricted
        } else {
            KeyType::Full
        }
    }

    fn from_stored(s: &str) -> (r: KeyType)
        ensures
            r == KeyType::of_stored(s@),
    {
        if text_eq(s, "restricted") {
            KeyType::Restricted
        } else {
            KeyType::Full
        }
    }

    /// The prefix of a raw key.
    pub open spec fn key_prefix(self) -> Seq<char> {
        match self {
            KeyType::Full => "cpay_sk_"@,
            KeyType::Restricted => "cpay_rk_"@,
        }
    }
}

/// A stored key as it may be shown: without the key and its hash.
#[derive(Debug)]
pub struct ApiKeySummary {
    pub id: String,
    pub label: String,
    pub key_prefix: String,
    pub key_type: KeyType,
    pub created_at: String,
    pub last_used_at: Option<String>,
}

/// A new key, shown once.
#[derive(Debug)]
pub struct CreatedApiKey {
    pub id: String,
    pub key: String,
    pub key_prefix: String,
    pub key_type: KeyType,
    pub label: String,
    pub created_at: String,
}

/// What became of a request to revoke a key.
#[derive(Debug, Clone, Copy, PartialEq, Eq, Structural)]
pub enum RevokeOutcome {
    Revoked,
    /// There is no such key, or it was revoked before.
    NotFound,
    /// It is the last credential with full access.
    LastFullKey,
}

/// A key as it is stored.
pub struct StoredKey {
    pub id: String,
    pub key_hash: String,
    pub key_prefix: String,
    pub key_type: String,
    pub label: String,
    pub created_at: String,
    pub last_used_at: Option<String>,
    pub revoked_at: Option<String>,
}

impl StoredKey {
    pub open spec fn is_live_full(&self) -> bool {
        self.key_type@ == "full"@ && self.revoked_at is None
    }

    pub open spec fn was_revoked(&self) -> bool {
        self.revoked_at matches Some(t) && t@.len() > 0
    }

    /// Whether a summary shows the key.
    pub open spec fn summarized_by(&self, s: &ApiKeySummary) -> bool {
        &&& s.id@ == self.id@
        &&& s.label@ == self.label@
        &&& s.key_prefix@ == self.key_prefix@
        &&& s.key_type == KeyType::of_stored(self.key_type@)
        &&& s.created_at@ == self.created_at@
        &&& opt_text(s.last_used_at) == opt_text(self.last_used_at)
    }
}

/// Draws a raw key.
pub fn generate_raw_key(key_type: KeyType) -> (r: String)
    ensures
        is_secret(r@, key_type.key_prefix()),
{
    match key_type {
        KeyType::Full => generate_secret("cpay_sk_"),
        KeyType::Restricted => generate_secret("cpay_rk_"),
    }
}

/// The first characters of a raw key.
pub open spec fn prefix_text(raw: Seq<char>) -> Seq<char> {
    if raw.len() < PREFIX_LEN {
        raw
    } else {
        raw.take(PREFIX_LEN as int)
    }
}

/// The first characters of a raw key.
pub fn prefix_of(raw: &str) -> (r: String)
    ensures
        r@ == prefix_text(raw@),
{
    let n: usize = raw.unicode_len();
    if n < PREFIX_LEN {
        raw.to_string()
    } else {
        let p: &str = raw.substring_char(0, PREFIX_LEN);
        assert(p@ =~= raw@.take(PREFIX_LEN as int));
        p.to_string()
    }
}

/// The keys of a merchant, and the hash of the key that came with the account,
/// if it is still in use.
pub struct KeyRing {
    pub legacy_hash: String,
    pub keys: Vec<StoredKey>,
}

/// Whether the key at one place is listed before the key at another: the newer
/// one first, and of two that were made at the same time the one that was
/// stored later.
pub open spec fn listed_before(keys: Seq<StoredKey>, i: int, j: int) -> bool {
    ||| lex_less(keys[j].created_at@, keys[i].created_at@)
    ||| keys[i].created_at@ == keys[j].created_at@ && j < i
}

/// Whether `order` holds the places of the live keys among the first `n`, each
/// once, in the order in which they are listed.
pub open spec fn is_listing(keys: Seq<StoredKey>, order: Seq<int>, n: int) -> bool {
    &&& forall|a: int|
        0 <= a < order.len() ==> 0 <= #[trigger] order[a] < n && keys[order[a]].revoked_at is None
    &&& forall|i: int|
        0 <= i < n && (#[trigger] keys[i]).revoked_at is None ==> order.contains(i)
    &&& forall|a: int, b: int|
        0 <= a < b < order.len() ==> listed_before(keys, #[trigger] order[a], #[trigger] order[b])
}

/// Whether summaries show the keys at some places.
pub open spec fn shows(keys: Seq<StoredKey>, order: Seq<int>, out: Seq<ApiKeySummary>) -> bool {
    &&& out.len() == order.len()
    &&& forall|a: int|
        0 <= a < out.len() ==> keys[order[a]].summarized_by(&(#[trigger] out[a]))
}

/// Of three keys the first is listed before the last, where it is listed before
/// one that is.
proof fn order_is_kept(keys: Seq<StoredKey>, i: int, j: int, k: int)
    requires
        listed_before(keys, i, j),
        listed_before(keys, j, k),
    ensures
        listed_before(keys, i, k),
{
    let (a, b, c) = (keys[i].created_at@, keys[j].created_at@, keys[k].created_at@);
    if lex_less(b, a) && lex_less(c, b) {
        lex_less_transitive(c, b, a);
    }
}

/// A listing stays one when the next key is put into its place.
proof fn placed(keys: Seq<StoredKey>, order: Seq<int>, at: int, i: int)
    requires
        is_listing(keys, order, i),
        0 <= i < keys.len(),
        keys[i].revoked_at is None,
        0 <= at <= order.len(),
        forall|a: int| 0 <= a < at ==> listed_before(keys, #[trigger] order[a], i),
        forall|a: int| at <= a < order.len() ==> listed_before(keys, i, #[trigger] order[a]),
    ensures
        is_listing(keys, order.insert(at, i), i + 1),
{
    let after = order.insert(at, i);
    assert(after[at] == i);
    assert forall|k: int| 0 <= k < i + 1 && (#[trigger] keys[k]).revoked_at is None implies
        after.contains(k) by {
        if k < i {
            assert(order.contains(k));
            let a = order.index_of(k);
            if a < at {
                assert(after[a] == k);
            } else {
                assert(after[a + 1] == k);
            }
        }
    }
    assert forall|a: int, b: int| 0 <= a < b < after.len() implies listed_before(
        keys,
        #[trigger] after[a],
        #[trigger] after[b],
    ) by {
        let x = if a < at { a } else { a - 1 };
        let y = if b < at { b } else { b - 1 };
        if a != at {
            assert(after[a] == order[x]);
        }
        if b != at {
            assert(after[b] == order[y]);
        }
    }
}

/// The key that was stored last is listed first, where no other was made later.
pub proof fn newest_key_is_listed_first(keys: Seq<StoredKey>, order: Seq<int>)
    requires
        is_listing(keys, order, keys.len() as int),
        keys.len() > 0,
        keys.last().revoked_at is None,
        forall|i: int|
            0 <= i < keys.len() ==> !lex_less(
                keys.last().created_at@,
                (#[trigger] keys[i]).created_at@,
            ),
    ensures
        order.len() > 0,
        order[0] == keys.len() - 1,
{
    let last = keys.len() - 1;
    assert(keys[last].revoked_at is None);
    assert(order.contains(last));
    let a = order.index_of(last);
    if a > 0 {
        assert(listed_before(keys, order[0], order[a]));
        assert(!lex_less(keys.last().created_at@, keys[order[0]].created_at@));
    }
}

impl KeyRing {
    /// Whether the merchant can reach the whole account with a key.
    pub open spec fn has_full_access(&self) -> bool {
        self.legacy_hash@.len() > 0 || exists|i: int|
            0 <= i < self.keys@.len() && (#[trigger] self.keys@[i]).is_live_full()
    }

    /// Whether another key than the one at a place has full access.
    pub open spec fn has_other_full(&self, i: int) -> bool {
        exists|k: int|
            0 <= k < self.keys@.len() && (#[trigger] self.keys@[k]).is_live_full()
                && self.keys@[k].id@ != self.keys@[i].id@
    }

    /// No two keys have the same identifier.
    pub open spec fn wf(&self) -> bool {
        forall|i: int, j: int|
            0 <= i < j < self.keys@.len() ==> (#[trigger] self.keys@[i]).id@ != (
            #[trigger] self.keys@[j]).id@
    }

    /// Makes a new key. It is stored by its hash; the raw key is in the result
    /// only.
    pub fn create_key(&mut self, key_type: KeyType, label: &str, now: &str) -> (r: CreatedApiKey)
        ensures
            exists|a: Seq<char>| is_simple(a) && r.id@ == #[trigger] ("mak_"@ + a),
            is_secret(r.key@, key_type.key_prefix()),
            r.key_prefix@ == prefix_text(r.key@),
            r.key_type == key_type,
            r.label@ == label@,
            r.created_at@ == now@,
            final(self).legacy_hash == old(self).legacy_hash,
            final(self).keys@.len() == old(self).keys@.len() + 1,
            final(self).keys@.drop_last() == old(self).keys@,
            final(self).keys@.last().id@ == r.id@,
            final(self).keys@.last().key_hash@ == key_hash(r.key@),
            final(self).keys@.last().key_prefix@ == r.key_prefix@,
            final(self).keys@.last().key_type@ == key_type.spec_str(),
            final(self).keys@.last().label@ == label@,
            final(self).keys@.last().created_at@ == now@,
            final(self).keys@.last().last_used_at is None,
            final(self).keys@.last().revoked_at is None,
    {
        let raw: String = generate_raw_key(key_type);
        let key_prefix: String = prefix_of(raw.as_str());
        let tail: String = new_simple_id();
        let id: String = join2("mak_", tail.as_str());
        let ghost before = self.keys@;
        self.keys.push(
            StoredKey {
                id: id.clone(),
                key_hash: hash_key(raw.as_str()),
                key_prefix: key_prefix.clone(),
                key_type: key_type.as_str().to_string(),
                label: label.to_string(),
                created_at: now.to_string(),
                last_used_at: None,
                revoked_at: None,
            },
        );
        assert(self.keys@.drop_last() =~= before);
        CreatedApiKey {
            id,
            key: raw,
            key_prefix,
            key_type,
            label: label.to_string(),
            created_at: now.to_string(),
        }
    }

    /// The keys that were not revoked, as they may be shown, the newest first.
    pub fn list_keys(&self) -> (r: Vec<ApiKeySummary>)
        ensures
            exists|order: Seq<int>| #[trigger]
                is_listing(self.keys@, order, self.keys@.len() as int) && shows(
                    self.keys@,
                    order,
                    r@,
                ),
    {
        let mut out: Vec<ApiKeySummary> = Vec::new();
        let ghost mut order: Seq<int> = Seq::empty();
        let mut i: usize = 0;
        while i < self.keys.len()
            invariant
                i <= self.keys@.len(),
                is_listing(self.keys@, order, i as int),
                shows(self.keys@, order, out@),
            decreases self.keys@.len() - i,
        {
            if self.keys[i].revoked_at.is_none() {
                let at: usize = self.place(i, &out, Ghost(order));
                let s: ApiKeySummary = ApiKeySummary {
                    id: self.keys[i].id.clone(),
                    label: self.keys[i].label.clone(),
                    key_prefix: self.keys[i].key_prefix.clone(),
                    key_type: KeyType::from_stored(self.keys[i].key_type.as_str()),
                    created_at: self.keys[i].created_at.clone(),
                    last_used_at: self.keys[i].last_used_at.clone(),
                };
                let ghost before = order;
                let ghost shown = out@;
                out.insert(at, s);
                proof {
                    order = before.insert(at as int, i as int);
                    placed(self.keys@, before, at as int, i as int);
                    assert forall|a: int| 0 <= a < out@.len() implies self.keys@[order[a]].summarized_by(
                        &(#[trigger] out@[a]),
                    ) by {
                        if a < at {
                            assert(out@[a] == shown[a]);
                        } else if a > at {
                            assert(out@[a] == shown[a - 1]);
                        }
                    }
                }
            }
            i = i + 1;
        }
        assert(is_listing(self.keys@, order, self.keys@.len() as int));
        out
    }

    /// The place at which the next key is listed.
    fn place(&self, i: usize, out: &Vec<ApiKeySummary>, Ghost(order): Ghost<Seq<int>>) -> (r: usize)
        requires
            i < self.keys@.len(),
            is_listing(self.keys@, order, i as int),
            shows(self.keys@, order, out@),
        ensures
            r <= out@.len(),
            forall|a: int|
                0 <= a < r ==> listed_before(self.keys@, #[trigger] order[a], i as int),
            forall|a: int|
                r <= a < out@.len() ==> listed_before(self.keys@, i as int, #[trigger] order[a]),
    {
        let mut r: usize = 0;
        while r < out.len()
            invariant
                r <= out@.len(),
                i < self.keys@.len(),
                is_listing(self.keys@, order, i as int),
                shows(self.keys@, order, out@),
                forall|a: int|
                    0 <= a < r ==> listed_before(self.keys@, #[trigger] order[a], i as int),
            decreases out@.len() - r,
        {
            assert(self.keys@[order[r as int]].summarized_by(&out@[r as int]));
            if !text_less(self.keys[i].created_at.as_str(), out[r].created_at.as_str()) {
                proof {
                    let mine = self.keys@[i as int].created_at@;
                    let theirs = self.keys@[order[r as int]].created_at@;
                    lex_less_total(mine, theirs);
                    assert(listed_before(self.keys@, i as int, order[r as int]));
                    assert forall|a: int| r <= a < out@.len() implies listed_before(
                        self.keys@,
                        i as int,
                        #[trigger] order[a],
                    ) by {
                        if a > r {
                            assert(listed_before(self.keys@, order[r as int], order[a]));
                            order_is_kept(self.keys@, i as int, order[r as int], order[a]);
                        }
                    }
                }
                return r;
            }
            r = r + 1;
        }
        r
    }

    fn find(&self, key_id: &str) -> (r: Option<usize>)
        ensures
            match r {
                Some(i) => i < self.keys@.len() && self.keys@[i as int].id@ == key_id@,
                None => forall|k: int|
                    0 <= k < self.keys@.len() ==> (#[trigger] self.keys@[k]).id@ != key_id@,
            },
    {
        let mut i: usize = 0;
        while i < self.keys.len()
            invariant
                i <= self.keys@.len(),
                forall|k: int| 0 <= k < i ==> (#[trigger] self.keys@[k]).id@ != key_id@,
            decreases self.keys@.len() - i,
        {
            if text_eq(self.keys[i].id.as_str(), key_id) {
                return Some(i);
            }
            i = i + 1;
        }
        None
    }

    fn other_full_exists(&self, i: usize) -> (r: bool)
        requires
            i < self.keys@.len(),
        ensures
            r == self.has_other_full(i as int),
    {
        let mut k: usize = 0;
        while k < self.keys.len()
            invariant
                k <= self.keys@.len(),
                i < self.keys@.len(),
                forall|m: int|
                    0 <= m < k ==> !((#[trigger] self.keys@[m]).is_live_full() && self.keys@[m].id@
                        != self.keys@[i as int].id@),
            decreases self.keys@.len() - k,
        {
            if text_eq(self.keys[k].key_type.as_str(), "full") && self.keys[k].revoked_at.is_none()
                && !text_eq(self.keys[k].id.as_str(), self.keys[i].id.as_str()) {
                return true;
            }
            k = k + 1;
        }
        false
    }

    /// What becomes of a request to revoke a key.
    pub open spec fn revocation(&self, i: Option<int>) -> RevokeOutcome {
        match i {
            None => RevokeOutcome::NotFound,
            Some(i) => if self.keys@[i].was_revoked() {
                RevokeOutcome::NotFound
            } else if self.keys@[i].key_type@ == "full"@ && !self.has_other_full(i)
                && self.legacy_hash@.len() == 0 {
                RevokeOutcome::LastFullKey
            } else {
                RevokeOutcome::Revoked
            },
        }
    }

    /// Revokes a key, unless it is the last one with full access. Who had full
    /// access before has it after.
    pub fn revoke_key(&mut self, key_id: &str, now: &str) -> (r: RevokeOutcome)
        requires
            old(self).wf(),
        ensures
            final(self).wf(),
            old(self).has_full_access() ==> final(self).has_full_access(),
            (forall|k: int|
                0 <= k < old(self).keys@.len() ==> (#[trigger] old(self).keys@[k]).id@ != key_id@)
                ==> r == RevokeOutcome::NotFound,
            forall|i: int|
                0 <= i < old(self).keys@.len() && (#[trigger] old(self).keys@[i]).id@ == key_id@
                    ==> r == old(self).revocation(Some(i)),
            r != RevokeOutcome::Revoked ==> *final(self) == *old(self),
            r == RevokeOutcome::Revoked ==> {
                &&& final(self).legacy_hash == old(self).legacy_hash
                &&& final(self).keys@.len() == old(self).keys@.len()
                &&& forall|i: int|
                    0 <= i < old(self).keys@.len() ==> if old(self).keys@[i].id@ == key_id@ {
                        &&& opt_text((#[trigger] final(self).keys@[i]).revoked_at) == Some(now@)
                        &&& final(self).keys@[i] == (StoredKey {
                            revoked_at: final(self).keys@[i].revoked_at,
                            ..old(self).keys@[i]
                        })
                    } else {
                        final(self).keys@[i] == old(self).keys@[i]
                    }
            },
    {
        let i: usize = match self.find(key_id) {
            Some(i) => i,
            None => {
                return RevokeOutcome::NotFound;
            },
        };
        let ghost before = *self;
        assert forall|k: int|
            0 <= k < before.keys@.len() && (#[trigger] before.keys@[k]).id@ == key_id@ implies k
            == i by {
            if k < i {
                assert(before.keys@[k].id@ != before.keys@[i as int].id@);
            }
            if i < k {
                assert(before.keys@[i as int].id@ != before.keys@[k].id@);
            }
        }
        let revoked: bool = match &self.keys[i].revoked_at {
            Some(t) => !t.as_str().is_empty(),
            None => false,
        };
        if revoked {
            return RevokeOutcome::NotFound;
        }
        if text_eq(self.keys[i].key_type.as_str(), "full") && !self.other_full_exists(i)
            && self.legacy_hash.as_str().is_empty() {
            return RevokeOutcome::LastFullKey;
        }
        let key: StoredKey = StoredKey {
            id: self.keys[i].id.clone(),
            key_hash: self.keys[i].key_hash.clone(),
            key_prefix: self.keys[i].key_prefix.clone(),
            key_type: self.keys[i].key_type.clone(),
            label: self.keys[i].label.clone(),
            created_at: self.keys[i].created_at.clone(),
            last_used_at: self.keys[i].last_used_at.clone(),
            revoked_at: Some(now.to_string()),
        };
        self.keys.set(i, key);
        proof {
            assert forall|a: int, b: int| 0 <= a < b < self.keys@.len() implies (
            #[trigger] self.keys@[a]).id@ != (#[trigger] self.keys@[b]).id@ by {
                assert(before.keys@[a].id@ != before.keys@[b].id@);
            }
            if before.has_full_access() && self.legacy_hash@.len() == 0 {
                let k = if before.keys@[i as int].key_type@ == "full"@ {
                    choose|k: int|
                        0 <= k < before.keys@.len() && (#[trigger] before.keys@[k]).is_live_full()
                            && before.keys@[k].id@ != before.keys@[i as int].id@
                } else {
                    choose|k: int|
                        0 <= k < before.keys@.len() && (#[trigger] before.keys@[k]).is_live_full()
                };
                assert(k != i);
                assert(self.keys@[k].is_live_full());
            }
        }
        RevokeOutcome::Revoked
    }
}

// ---------------------------------------------------------------------------
// Laws
// ---------------------------------------------------------------------------

/// The two types of key are told apart by what is stored and by how the key
/// begins. What is stored is read back, and anything else counts as full.
pub proof fn key_types_are_told_apart(t: KeyType, stored: Seq<char>)
    ensures
        KeyType::of_stored(t.spec_str()) == t,
        KeyType::of_stored(stored) == KeyType::Restricted <==> stored == "restricted"@,
        KeyType::Full.spec_str() == "full"@ && KeyType::Restricted.spec_str() == "restricted"@,
        KeyType::Full.key_prefix() == "cpay_sk_"@,
        KeyType::Restricted.key_prefix() == "cpay_rk_"@,
{
    reveal_strlit("full");
    reveal_strlit("restricted");
    assert("full"@.len() != "restricted"@.len());
}

/// Of a key its first 16 characters are shown, and no more.
pub proof fn key_shows_its_beginning(raw: Seq<char>)
    ensures
        prefix_text(raw).len() <= 16,
        prefix_text(raw).is_prefix_of(raw),
        raw.len() >= 16 ==> prefix_text(raw).len() == 16,
        raw.len() < 16 ==> prefix_text(raw) == raw,
{
}

/// A live key with full access is one of that type that was not revoked.
pub proof fn live_key_has_full_access(k: StoredKey)
    ensures
        k.is_live_full() <==> k.key_type@ == "full"@ && k.revoked_at is None,
        k.was_revoked() ==> k.revoked_at is Some && !k.is_live_full(),
        k.revoked_at is None ==> !k.was_revoked(),
{
}

/// A summary shows what is known of a key but not the key.
pub proof fn summary_shows_the_key(k: StoredKey, s: ApiKeySummary)
    requires
        k.summarized_by(&s),
    ensures
        s.id@ == k.id@ && s.label@ == k.label@ && s.key_prefix@ == k.key_prefix@,
        s.created_at@ == k.created_at@ && opt_text(s.last_used_at) == opt_text(k.last_used_at),
        s.key_type == KeyType::Restricted <==> k.key_type@ == "restricted"@,
{
}

/// A key is revoked unless it is not there or was revoked before, or it is the
/// last credential with full access.
pub proof fn last_full_key_stays(ring: KeyRing, i: int)
    requires
        0 <= i < ring.keys@.len(),
    ensures
        ({
            let r = ring.revocation(Some(i));
            let key = ring.keys@[i];
            let gone = key.revoked_at is Some && key.revoked_at->0@.len() > 0;
            let other = ring.legacy_hash@.len() > 0 || exists|k: int|
                0 <= k < ring.keys@.len() && (#[trigger] ring.keys@[k]).key_type@ == "full"@
                    && ring.keys@[k].revoked_at is None && ring.keys@[k].id@ != key.id@;
            &&& gone <==> r == RevokeOutcome::NotFound
            &&& !gone && key.key_type@ == "full"@ && !other <==> r == RevokeOutcome::LastFullKey
            &&& !gone && (key.key_type@ != "full"@ || other) <==> r == RevokeOutcome::Revoked
        }),
        ring.revocation(None) == RevokeOutcome::NotFound,
{
    let key = ring.keys@[i];
    if ring.has_other_full(i) {
        let k = choose|k: int|
            0 <= k < ring.keys@.len() && (#[trigger] ring.keys@[k]).is_live_full()
                && ring.keys@[k].id@ != key.id@;
        assert(ring.keys@[k].key_type@ == "full"@);
    }
    if exists|k: int|
        0 <= k < ring.keys@.len() && (#[trigger] ring.keys@[k]).key_type@ == "full"@
            && ring.keys@[k].revoked_at is None && ring.keys@[k].id@ != key.id@ {
        let k = choose|k: int|
            0 <= k < ring.keys@.len() && (#[trigger] ring.keys@[k]).key_type@ == "full"@
                && ring.keys@[k].revoked_at is None && ring.keys@[k].id@ != key.id@;
        assert(ring.keys@[k].is_live_full());
    }
}

/// There is full access as long as the first key stands or one live key has it.
pub proof fn full_access_needs_a_key(ring: KeyRing)
    ensures
        ring.has_full_access() <==> ring.legacy_hash@.len() > 0 || exists|i: int|
            0 <= i < ring.keys@.len() && (#[trigger] ring.keys@[i]).key_type@ == "full"@
                && ring.keys@[i].revoked_at is None,
{
    if ring.legacy_hash@.len() == 0 && ring.has_full_access() {
        let i = choose|i: int|
            0 <= i < ring.keys@.len() && (#[trigger] ring.keys@[i]).is_live_full();
        assert(ring.keys@[i].key_type@ == "full"@);
    }
    if exists|i: int|
        0 <= i < ring.keys@.len() && (#[trigger] ring.keys@[i]).key_type@ == "full"@
            && ring.keys@[i].revoked_at is None {
        let i = choose|i: int|
            0 <= i < ring.keys@.len() && (#[trigger] ring.keys@[i]).key_type@ == "full"@
                && ring.keys@[i].revoked_at is None;
        assert(ring.keys@[i].is_live_full());
    }
}

/// A list shows each of its keys at its place.
pub proof fn list_shows_its_keys(
    keys: Seq<StoredKey>,
    order: Seq<int>,
    out: Seq<ApiKeySummary>,
    a: int,
)
    requires
        shows(keys, order, out),
        0 <= a < order.len(),
    ensures
        out.len() == order.len(),
        out[a].id@ == keys[order[a]].id@ && out[a].label@ == keys[order[a]].label@,
        out[a].key_prefix@ == keys[order[a]].key_prefix@,
{
    assert(keys[order[a]].summarized_by(&out[a]));
}

} // verus!
