//! A location-bound ownership registry: the kind of target component a
//! dispatch routes to.
//!
//! Ownership facts are keyed by (owner, token id); token metadata and
//! location data are keyed by token id alone, and a later write for the same
//! token id wins. Failures carry the component's numeric error codes, the
//! opaque cause a dispatcher surfaces as `TargetInvocationFailed`.

use vstd::prelude::*;
use crate::ledger::{bytes_eq, copy_bytes};

verus! {

/// Error code: the (owner, token id) ownership fact already exists.
pub const ERR_TOKEN_EXISTS: u32 = 2;

/// Error code: the token is not owned by the given owner.
pub const ERR_NOT_OWNER: u32 = 3;

/// Error code: no owner holds the token.
pub const ERR_NOT_FOUND: u32 = 4;

/// An ownership fact: `owner` holds `token_id`.
#[derive(Debug)]
pub struct DataKey {
    pub owner: Vec<u8>,
    pub token_id: u32,
}

/// Descriptive data recorded when a token is minted.
#[derive(Debug)]
pub struct TokenMetadata {
    pub name: Vec<u8>,
    pub symbol: Vec<u8>,
    pub uri: Vec<u8>,
    pub latitude: Vec<u8>,
    pub longitude: Vec<u8>,
    pub radius: u32,
    pub created_at: u64,
}

/// A token's current location bounds.
#[derive(Debug)]
pub struct LocationData {
    pub latitude: Vec<u8>,
    pub longitude: Vec<u8>,
    pub radius: u32,
}

/// The mathematical shape of a token's metadata.
#[verifier::ext_equal]
pub ghost struct MetadataView {
    pub name: Seq<u8>,
    pub symbol: Seq<u8>,
    pub uri: Seq<u8>,
    pub latitude: Seq<u8>,
    pub longitude: Seq<u8>,
    pub radius: u32,
    pub created_at: u64,
}

impl View for TokenMetadata {
    type V = MetadataView;

    open spec fn view(&self) -> MetadataView {
        MetadataView {
            name: self.name@,
            symbol: self.symbol@,
            uri: self.uri@,
            latitude: self.latitude@,
            longitude: self.longitude@,
            radius: self.radius,
            created_at: self.created_at,
        }
    }
}

/// The mathematical shape of a token's location data.
#[verifier::ext_equal]
pub ghost struct LocationView {
    pub latitude: Seq<u8>,
    pub longitude: Seq<u8>,
    pub radius: u32,
}

impl View for LocationData {
    type V = LocationView;

    open spec fn view(&self) -> LocationView {
        LocationView {
            latitude: self.latitude@,
            longitude: self.longitude@,
            radius: self.radius,
        }
    }
}

/// The mapping an append-only association list denotes: a later entry for
/// the same key wins.
pub open spec fn assoc_view_map<T: View>(s: Seq<(u32, T)>) -> Map<u32, T::V>
    decreases s.len(),
{
    if s.len() == 0 {
        Map::empty()
    } else {
        assoc_view_map(s.drop_last()).insert(s.last().0, s.last().1@)
    }
}

proof fn lemma_assoc_found<T: View>(s: Seq<(u32, T)>, k: u32, i: int)
    requires
        0 <= i < s.len(),
        s[i].0 == k,
        forall|j: int| i < j < s.len() ==> (#[trigger] s[j]).0 != k,
    ensures
        assoc_view_map(s).contains_key(k),
        assoc_view_map(s)[k] == s[i].1@,
    decreases s.len(),
{
    if i == s.len() - 1 {
    } else {
        assert(s.last().0 != k);
        assert(s.drop_last()[i] == s[i]);
        assert forall|j: int| i < j < s.drop_last().len() implies (#[trigger] s.drop_last()[
        j]).0 != k by {
            assert(s.drop_last()[j] == s[j]);
        }
        lemma_assoc_found(s.drop_last(), k, i);
    }
}

proof fn lemma_assoc_missing<T: View>(s: Seq<(u32, T)>, k: u32)
    requires
        forall|j: int| 0 <= j < s.len() ==> (#[trigger] s[j]).0 != k,
    ensures
        !assoc_view_map(s).contains_key(k),
    decreases s.len(),
{
    if s.len() > 0 {
        assert forall|j: int| 0 <= j < s.drop_last().len() implies (#[trigger] s.drop_last()[
        j]).0 != k by {
            assert(s.drop_last()[j] == s[j]);
        }
        lemma_assoc_missing(s.drop_last(), k);
    }
}

proof fn lemma_owned_push(s: Seq<DataKey>, key: DataKey)
    ensures
        owned_set(s.push(key)) == owned_set(s).insert((key.owner@, key.token_id)),
{
    let pair = (key.owner@, key.token_id);
    let t = s.push(key);
    let n = s.len() as int;
    assert forall|p: (Seq<u8>, u32)| owned_set(t).contains(p) implies owned_set(s).contains(p)
        || p == pair by {
        let i = choose|i: int|
            0 <= i < t.len() && (#[trigger] t[i]).owner@ == p.0 && t[i].token_id == p.1;
        if i < n {
            assert((#[trigger] s[i]).owner@ == p.0 && s[i].token_id == p.1);
        } else {
            assert(t[i] == key);
        }
    }
    assert forall|p: (Seq<u8>, u32)| owned_set(s).contains(p) implies owned_set(t).contains(
        p,
    ) by {
        let i = choose|i: int|
            0 <= i < s.len() && (#[trigger] s[i]).owner@ == p.0 && s[i].token_id == p.1;
        assert((#[trigger] t[i]).owner@ == p.0 && t[i].token_id == p.1);
    }
    assert((#[trigger] t[n]).owner@ == pair.0 && t[n].token_id == pair.1);
    assert(owned_set(t).contains(pair));
    assert(owned_set(t) =~= owned_set(s).insert(pair));
}

proof fn lemma_owned_push_unique(s: Seq<DataKey>, key: DataKey)
    requires
        keys_unique(s),
        !owned_set(s).contains((key.owner@, key.token_id)),
    ensures
        keys_unique(s.push(key)),
{
    let t = s.push(key);
    let n = s.len() as int;
    assert forall|i: int, j: int| 0 <= i < j < t.len() implies !((#[trigger] t[i]).owner@ == (
    #[trigger] t[j]).owner@ && t[i].token_id == t[j].token_id) by {
        if j < n {
            assert(t[i] == s[i] && t[j] == s[j]);
        } else {
            assert(t[j] == key);
            assert(t[i] == s[i]);
            if s[i].owner@ == key.owner@ && s[i].token_id == key.token_id {
                assert((#[trigger] s[i]).owner@ == key.owner@ && s[i].token_id == key.token_id);
                assert(owned_set(s).contains((key.owner@, key.token_id)));
            }
        }
    }
}

proof fn lemma_owned_remove(s: Seq<DataKey>, i: int)
    requires
        0 <= i < s.len(),
        keys_unique(s),
    ensures
        owned_set(s.remove(i)) == owned_set(s).remove((s[i].owner@, s[i].token_id)),
        keys_unique(s.remove(i)),
{
    let pair = (s[i].owner@, s[i].token_id);
    let t = s.remove(i);
    s.remove_ensures(i);
    assert forall|p: (Seq<u8>, u32)| owned_set(t).contains(p) implies owned_set(s).contains(p)
        && p != pair by {
        let j = choose|j: int|
            0 <= j < t.len() && (#[trigger] t[j]).owner@ == p.0 && t[j].token_id == p.1;
        let j2: int = if j < i {
            j
        } else {
            j + 1
        };
        assert((#[trigger] s[j2]).owner@ == p.0 && s[j2].token_id == p.1);
        assert(j2 != i);
        if p == pair {
            if j2 < i {
                assert(!(s[j2].owner@ == s[i].owner@ && s[j2].token_id == s[i].token_id));
            } else {
                assert(!(s[i].owner@ == s[j2].owner@ && s[i].token_id == s[j2].token_id));
            }
        }
    }
    assert forall|p: (Seq<u8>, u32)| owned_set(s).contains(p) && p != pair implies owned_set(
        t,
    ).contains(p) by {
        let j = choose|j: int|
            0 <= j < s.len() && (#[trigger] s[j]).owner@ == p.0 && s[j].token_id == p.1;
        if j != i {
            let j2: int = if j < i {
                j
            } else {
                j - 1
            };
            assert((#[trigger] t[j2]).owner@ == p.0 && t[j2].token_id == p.1);
        }
    }
    assert(owned_set(t) =~= owned_set(s).remove(pair));
    assert forall|a: int, b: int| 0 <= a < b < t.len() implies !((#[trigger] t[a]).owner@ == (
    #[trigger] t[b]).owner@ && t[a].token_id == t[b].token_id) by {
        let a2: int = if a < i {
            a
        } else {
            a + 1
        };
        let b2: int = if b < i {
            b
        } else {
            b + 1
        };
        assert(t[a] == s[a2] && t[b] == s[b2]);
        assert(!((#[trigger] s[a2]).owner@ == (#[trigger] s[b2]).owner@ && s[a2].token_id
            == s[b2].token_id));
    }
}

/// The set of ownership facts a list of entries denotes.
pub open spec fn owned_set(s: Seq<DataKey>) -> Set<(Seq<u8>, u32)> {
    Set::new(
        |p: (Seq<u8>, u32)|
            exists|i: int|
                0 <= i < s.len() && (#[trigger] s[i]).owner@ == p.0 && s[i].token_id == p.1,
    )
}

/// No two entries carry the same (owner, token id) pair.
pub open spec fn keys_unique(s: Seq<DataKey>) -> bool {
    forall|i: int, j: int|
        0 <= i < j < s.len() ==> !((#[trigger] s[i]).owner@ == (#[trigger] s[j]).owner@
            && s[i].token_id == s[j].token_id)
}

/// The mathematical shape of the registry's state.
#[verifier::ext_equal]
pub ghost struct RegistryView {
    pub admin: Option<Seq<u8>>,
    pub name: Seq<u8>,
    pub symbol: Seq<u8>,
    pub supply: u32,
    pub owned: Set<(Seq<u8>, u32)>,
    pub metadata: Map<u32, MetadataView>,
    pub locations: Map<u32, LocationView>,
}

/// The registry's durable state: administrative configuration, the total
/// supply counter, and the three token tables.
pub struct LocationNFT {
    admin: Option<Vec<u8>>,
    name: Vec<u8>,
    symbol: Vec<u8>,
    supply: u32,
    owned: Vec<DataKey>,
    metadata: Vec<(u32, TokenMetadata)>,
    locations: Vec<(u32, LocationData)>,
}

impl View for LocationNFT {
    type V = RegistryView;

    closed spec fn view(&self) -> RegistryView {
        RegistryView {
            admin: match self.admin {
                Some(a) => Some(a@),
                None => None,
            },
            name: self.name@,
            symbol: self.symbol@,
            supply: self.supply,
            owned: owned_set(self.owned@),
            metadata: assoc_view_map(self.metadata@),
            locations: assoc_view_map(self.locations@),
        }
    }
}

impl LocationNFT {
    /// Internal invariant: the ownership table holds each pair at most once.
    pub closed spec fn wf(self) -> bool {
        keys_unique(self.owned@)
    }

    /// An empty registry: unconfigured, no tokens.
    pub fn new() -> (r: Self)
        ensures
            r.wf(),
            r@.admin == None::<Seq<u8>>,
            r@.supply == 0,
            r@.owned == Set::<(Seq<u8>, u32)>::empty(),
            r@.metadata == Map::<u32, MetadataView>::empty(),
            r@.locations == Map::<u32, LocationView>::empty(),
    {
        let r = LocationNFT {
            admin: None,
            name: Vec::new(),
            symbol: Vec::new(),
            supply: 0,
            owned: Vec::new(),
            metadata: Vec::new(),
            locations: Vec::new(),
        };
        proof {
            assert(r@.owned =~= Set::<(Seq<u8>, u32)>::empty());
        }
        r
    }

    /// Configure the registry with its admin, name and symbol, and reset the
    /// supply counter. The token tables are left as they are.
    pub fn initialize(&mut self, admin: Vec<u8>, name: Vec<u8>, symbol: Vec<u8>)
        requires
            old(self).wf(),
        ensures
            final(self).wf(),
            final(self)@ == (RegistryView {
                admin: Some(admin@),
                name: name@,
                symbol: symbol@,
                supply: 0,
                ..old(self)@
            }),
    {
        self.admin = Some(admin);
        self.name = name;
        self.symbol = symbol;
        self.supply = 0;
        proof {
            assert(self@ =~= (RegistryView {
                admin: Some(admin@),
                name: name@,
                symbol: symbol@,
                supply: 0,
                ..old(self)@
            }));
        }
    }

    /// Index of the entry recording that `owner` holds `token_id`, if any.
    fn find_owned(&self, owner: &Vec<u8>, token_id: u32) -> (r: Option<usize>)
        ensures
            match r {
                Some(i) => i < self.owned@.len() && self.owned@[i as int].owner@ == owner@
                    && self.owned@[i as int].token_id == token_id,
                None => !owned_set(self.owned@).contains((owner@, token_id)),
            },
    {
        let mut i: usize = 0;
        while i < self.owned.len()
            invariant
                i <= self.owned@.len(),
                forall|j: int|
                    0 <= j < i ==> !((#[trigger] self.owned@[j]).owner@ == owner@
                        && self.owned@[j].token_id == token_id),
            decreases self.owned@.len() - i,
        {
            if self.owned[i].token_id == token_id && bytes_eq(&self.owned[i].owner, owner) {
                return Some(i);
            }
            i = i + 1;
        }
        proof {
            assert(!owned_set(self.owned@).contains((owner@, token_id)));
        }
        None
    }

    /// Does `owner` hold `token_id`?
    pub fn is_owner(&self, owner: &Vec<u8>, token_id: u32) -> (r: bool)
        ensures
            r == self@.owned.contains((owner@, token_id)),
    {
        match self.find_owned(owner, token_id) {
            Some(i) => {
                proof {
                    assert((#[trigger] self.owned@[i as int]).owner@ == owner@ && self.owned@[
                    i as int].token_id == token_id);
                    assert(self@.owned.contains((owner@, token_id)));
                }
                true
            },
            None => false,
        }
    }

    /// The owner currently holding `token_id`, or `ERR_NOT_FOUND` when no
    /// owner holds it.
    pub fn owner_of(&self, token_id: u32) -> (r: Result<Vec<u8>, u32>)
        ensures
            match r {
                Ok(o) => self@.owned.contains((o@, token_id)),
                Err(code) => code == ERR_NOT_FOUND && forall|o: Seq<u8>|
                    !self@.owned.contains((o, token_id)),
            },
    {
        let mut i: usize = 0;
        while i < self.owned.len()
            invariant
                i <= self.owned@.len(),
                forall|j: int| 0 <= j < i ==> (#[trigger] self.owned@[j]).token_id != token_id,
            decreases self.owned@.len() - i,
        {
            if self.owned[i].token_id == token_id {
                let o = copy_bytes(&self.owned[i].owner);
                proof {
                    assert((#[trigger] self.owned@[i as int]).owner@ == o@ && self.owned@[
                    i as int].token_id == token_id);
                    assert(self@.owned.contains((o@, token_id)));
                }
                return Ok(o);
            }
            i = i + 1;
        }
        proof {
            assert forall|o: Seq<u8>| !self@.owned.contains((o, token_id)) by {
                if self@.owned.contains((o, token_id)) {
                    let j = choose|j: int|
                        0 <= j < self.owned@.len() && (#[trigger] self.owned@[j]).owner@ == o
                            && self.owned@[j].token_id == token_id;
                    assert(false);
                }
            }
        }
        Err(ERR_NOT_FOUND)
    }

    /// How many of the token ids minted so far (1 up to the current supply)
    /// `owner` holds.
    pub fn balance_of(&self, owner: &Vec<u8>) -> (r: u32)
        ensures
            r == balance_count(self@.owned, owner@, self@.supply),
    {
        let mut count: u32 = 0;
        let mut i: u32 = 0;
        while i < self.supply
            invariant
                i <= self.supply,
                count <= i,
                count == balance_count(owned_set(self.owned@), owner@, i),
            decreases self.supply - i,
        {
            i = i + 1;
            if self.is_owner(owner, i) {
                count = count + 1;
            }
        }
        count
    }

    /// The registry's configured name.
    pub fn name(&self) -> (r: Vec<u8>)
        requires
            self@.admin != None::<Seq<u8>>,
        ensures
            r@ == self@.name,
    {
        copy_bytes(&self.name)
    }

    /// The registry's configured symbol.
    pub fn symbol(&self) -> (r: Vec<u8>)
        requires
            self@.admin != None::<Seq<u8>>,
        ensures
            r@ == self@.symbol,
    {
        copy_bytes(&self.symbol)
    }

    /// How many tokens have been minted since initialization.
    pub fn total_supply(&self) -> (r: u32)
        ensures
            r == self@.supply,
    {
        self.supply
    }

    /// Record a new token: its ownership fact, its metadata and its location,
    /// and count it in the supply. Fails with `ERR_TOKEN_EXISTS` when `to`
    /// already holds `token_id`, mutating nothing.
    pub fn mint(
        &mut self,
        to: Vec<u8>,
        token_id: u32,
        name: Vec<u8>,
        symbol: Vec<u8>,
        uri: Vec<u8>,
        latitude: Vec<u8>,
        longitude: Vec<u8>,
        radius: u32,
        current_time: u64,
    ) -> (r: Result<(), u32>)
        requires
            old(self).wf(),
            old(self)@.supply < u32::MAX,
        ensures
            final(self).wf(),
            old(self)@.owned.contains((to@, token_id)) ==> r == Err::<(), u32>(ERR_TOKEN_EXISTS)
                && final(self)@ == old(self)@,
            !old(self)@.owned.contains((to@, token_id)) ==> r == Ok::<(), u32>(())
                && final(self)@ == (RegistryView {
                supply: (old(self)@.supply + 1) as u32,
                owned: old(self)@.owned.insert((to@, token_id)),
                metadata: old(self)@.metadata.insert(
                    token_id,
                    MetadataView {
                        name: name@,
                        symbol: symbol@,
                        uri: uri@,
                        latitude: latitude@,
                        longitude: longitude@,
                        radius: radius,
                        created_at: current_time,
                    },
                ),
                locations: old(self)@.locations.insert(
                    token_id,
                    LocationView { latitude: latitude@, longitude: longitude@, radius: radius },
                ),
                ..old(self)@
            }),
    {
        match self.find_owned(&to, token_id) {
            Some(i) => {
                proof {
                    assert((#[trigger] self.owned@[i as int]).owner@ == to@ && self.owned@[
                    i as int].token_id == token_id);
                    assert(self@.owned.contains((to@, token_id)));
                }
                return Err(ERR_TOKEN_EXISTS);
            },
            None => {},
        }
        let key = DataKey { owner: to, token_id };
        proof {
            lemma_owned_push(self.owned@, key);
            lemma_owned_push_unique(self.owned@, key);
        }
        self.owned.push(key);
        let meta = TokenMetadata {
            name,
            symbol,
            uri,
            latitude: copy_bytes(&latitude),
            longitude: copy_bytes(&longitude),
            radius,
            created_at: current_time,
        };
        self.metadata.push((token_id, meta));
        proof {
            assert(self.metadata@.drop_last() =~= old(self).metadata@);
        }
        self.locations.push((token_id, LocationData { latitude, longitude, radius }));
        proof {
            assert(self.locations@.drop_last() =~= old(self).locations@);
        }
        self.supply = self.supply + 1;
        proof {
            assert(self@ =~= (RegistryView {
                supply: (old(self)@.supply + 1) as u32,
                owned: old(self)@.owned.insert((key.owner@, token_id)),
                metadata: old(self)@.metadata.insert(token_id, meta@),
                locations: old(self)@.locations.insert(
                    token_id,
                    LocationView { latitude: latitude@, longitude: longitude@, radius: radius },
                ),
                ..old(self)@
            }));
        }
        Ok(())
    }

    /// Move `token_id` from `from` to `to`. Fails with `ERR_NOT_OWNER` when
    /// `from` does not hold it, mutating nothing.
    pub fn transfer(&mut self, from: Vec<u8>, to: Vec<u8>, token_id: u32) -> (r: Result<(), u32>)
        requires
            old(self).wf(),
        ensures
            final(self).wf(),
            !old(self)@.owned.contains((from@, token_id)) ==> r == Err::<(), u32>(ERR_NOT_OWNER)
                && final(self)@ == old(self)@,
            old(self)@.owned.contains((from@, token_id)) ==> r == Ok::<(), u32>(())
                && final(self)@ == (RegistryView {
                owned: old(self)@.owned.remove((from@, token_id)).insert((to@, token_id)),
                ..old(self)@
            }),
    {
        let i = match self.find_owned(&from, token_id) {
            Some(i) => i,
            None => {
                return Err(ERR_NOT_OWNER);
            },
        };
        proof {
            assert((#[trigger] self.owned@[i as int]).owner@ == from@ && self.owned@[
            i as int].token_id == token_id);
            assert(self@.owned.contains((from@, token_id)));
            lemma_owned_remove(self.owned@, i as int);
        }
        let _removed = self.owned.remove(i);
        match self.find_owned(&to, token_id) {
            Some(j) => {
                proof {
                    assert((#[trigger] self.owned@[j as int]).owner@ == to@ && self.owned@[
                    j as int].token_id == token_id);
                    assert(owned_set(self.owned@).contains((to@, token_id)));
                    assert(owned_set(self.owned@).insert((to@, token_id)) =~= owned_set(
                        self.owned@,
                    ));
                    assert(self@ =~= (RegistryView {
                        owned: old(self)@.owned.remove((from@, token_id)).insert(
                            (to@, token_id),
                        ),
                        ..old(self)@
                    }));
                }
            },
            None => {
                let key = DataKey { owner: to, token_id };
                proof {
                    lemma_owned_push(self.owned@, key);
                    lemma_owned_push_unique(self.owned@, key);
                }
                self.owned.push(key);
                proof {
                    assert(self@ =~= (RegistryView {
                        owned: old(self)@.owned.remove((from@, token_id)).insert(
                            (to@, token_id),
                        ),
                        ..old(self)@
                    }));
                }
            },
        }
        Ok(())
    }

    /// Replace the location data recorded for `token_id`.
    pub fn update_location(
        &mut self,
        token_id: u32,
        latitude: Vec<u8>,
        longitude: Vec<u8>,
        radius: u32,
    ) -> (r: Result<(), u32>)
        requires
            old(self).wf(),
        ensures
            final(self).wf(),
            r == Ok::<(), u32>(()),
            final(self)@ == (RegistryView {
                locations: old(self)@.locations.insert(
                    token_id,
                    LocationView { latitude: latitude@, longitude: longitude@, radius: radius },
                ),
                ..old(self)@
            }),
    {
        self.locations.push((token_id, LocationData { latitude, longitude, radius }));
        proof {
            assert(self.locations@.drop_last() =~= old(self).locations@);
            assert(self@ =~= (RegistryView {
                locations: old(self)@.locations.insert(
                    token_id,
                    LocationView { latitude: latitude@, longitude: longitude@, radius: radius },
                ),
                ..old(self)@
            }));
        }
        Ok(())
    }

    /// The metadata recorded for `token_id`; the latest write wins. A token
    /// never minted is reported as `ERR_NOT_FOUND`.
    pub fn get_metadata(&self, token_id: u32) -> (r: Result<TokenMetadata, u32>)
        ensures
            match r {
                Ok(m) => self@.metadata.contains_key(token_id) && m@ == self@.metadata[token_id],
                Err(code) => code == ERR_NOT_FOUND && !self@.metadata.contains_key(token_id),
            },
    {
        let mut i: usize = self.metadata.len();
        while i > 0
            invariant
                i <= self.metadata@.len(),
                forall|j: int|
                    i <= j < self.metadata@.len() ==> (#[trigger] self.metadata@[j]).0
                        != token_id,
            decreases i,
        {
            i = i - 1;
            if self.metadata[i].0 == token_id {
                proof {
                    lemma_assoc_found(self.metadata@, token_id, i as int);
                }
                return Ok(copy_metadata(&self.metadata[i].1));
            }
        }
        proof {
            lemma_assoc_missing(self.metadata@, token_id);
        }
        Err(ERR_NOT_FOUND)
    }

    /// The location data recorded for `token_id`; the latest write wins. A
    /// token never minted is reported as `ERR_NOT_FOUND`.
    pub fn get_location(&self, token_id: u32) -> (r: Result<LocationData, u32>)
        ensures
            match r {
                Ok(l) => self@.locations.contains_key(token_id) && l@
                    == self@.locations[token_id],
                Err(code) => code == ERR_NOT_FOUND && !self@.locations.contains_key(token_id),
            },
    {
        let mut i: usize = self.locations.len();
        while i > 0
            invariant
                i <= self.locations@.len(),
                forall|j: int|
                    i <= j < self.locations@.len() ==> (#[trigger] self.locations@[j]).0
                        != token_id,
            decreases i,
        {
            i = i - 1;
            if self.locations[i].0 == token_id {
                proof {
                    lemma_assoc_found(self.locations@, token_id, i as int);
                }
                return Ok(copy_location(&self.locations[i].1));
            }
        }
        proof {
            lemma_assoc_missing(self.locations@, token_id);
        }
        Err(ERR_NOT_FOUND)
    }
}

/// How many of the token ids 1 up to `upto` the set of ownership facts
/// assigns to `owner`.
pub open spec fn balance_count(owned: Set<(Seq<u8>, u32)>, owner: Seq<u8>, upto: u32) -> nat
    decreases upto,
{
    if upto == 0 {
        0
    } else {
        balance_count(owned, owner, (upto - 1) as u32) + (if owned.contains(
            (owner, upto),
        ) {
            1nat
        } else {
            0nat
        })
    }
}

fn copy_metadata(m: &TokenMetadata) -> (r: TokenMetadata)
    ensures
        r@ == m@,
{
    let r = TokenMetadata {
        name: copy_bytes(&m.name),
        symbol: copy_bytes(&m.symbol),
        uri: copy_bytes(&m.uri),
        latitude: copy_bytes(&m.latitude),
        longitude: copy_bytes(&m.longitude),
        radius: m.radius,
        created_at: m.created_at,
    };
    proof {
        assert(r@ =~= m@);
    }
    r
}

fn copy_location(l: &LocationData) -> (r: LocationData)
    ensures
        r@ == l@,
{
    let r = LocationData {
        latitude: copy_bytes(&l.latitude),
        longitude: copy_bytes(&l.longitude),
        radius: l.radius,
    };
    proof {
        assert(r@ =~= l@);
    }
    r
}

} // verus!
