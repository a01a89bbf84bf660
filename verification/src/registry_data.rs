//! Loaded registries: their entries, the manager that holds them by key,
//! and the lookups the server makes in them.
use crate::identifier::Identifier;
use crate::nbt::error::NbtError;
use crate::nbt::value::Value;
use crate::protocol_version::{spec_version_number, ProtocolVersion};
use crate::registries::{DimensionInfo, RegistryKeys, RegistryManagerBuilder};
use vstd::prelude::*;
use vstd::std_specs::cmp::PartialEqSpec;

verus! {

/// Two identifiers name the same thing.
/// The text of an identifier's namespace and path.
pub open spec fn id_view(id: Identifier) -> (Seq<char>, Seq<char>) {
    (id.namespace@, id.thing@)
}

/// Two identifiers name the same thing.
pub open spec fn same_identifier(a: Identifier, b: Identifier) -> bool {
    id_view(a) == id_view(b)
}

/// Two registry keys name the same registry.
pub open spec fn same_key(a: RegistryKeys, b: RegistryKeys) -> bool {
    a.eq_spec(&b)
}

/// Why a registry lookup or a version check failed.
#[derive(Debug)]
pub enum Error {
    /// The version is outside the range that the operation supports.
    IncompatibleVersion {
        current: ProtocolVersion,
        minimum: ProtocolVersion,
        maximum: ProtocolVersion,
    },
    /// No entry has this identifier.
    UnknownRegistryEntry(Identifier),
    /// No registry of this key was loaded.
    UnknownRegistry(RegistryKeys),
    /// The entry is not of the kind asked for.
    NotOfType,
    /// A value could not be written as NBT.
    Nbt(NbtError),
}

impl Error {
    /// `Ok` when `current` lies between `minimum` and `maximum`, both
    /// included; the version error otherwise.
    pub fn incompatible_version(
        current: ProtocolVersion,
        minimum: ProtocolVersion,
        maximum: ProtocolVersion,
    ) -> (r: Result<(), Error>)
        ensures
            r is Ok <==> spec_version_number(minimum) <= spec_version_number(current)
                <= spec_version_number(maximum),
            r matches Err(e) ==> e == (Error::IncompatibleVersion { current, minimum, maximum }),
    {
        let n = current.version_number();
        if minimum.version_number() <= n && n <= maximum.version_number() {
            Ok(())
        } else {
            Err(Error::IncompatibleVersion { current, minimum, maximum })
        }
    }
}

/// The identifier under which an entry is registered.
pub struct RegistryKey {
    value: Identifier,
}

impl RegistryKey {
    pub closed spec fn spec_value(&self) -> Identifier {
        self.value
    }

    pub fn new(value: Identifier) -> (r: Self)
        ensures
            r.spec_value() == value,
    {
        Self { value }
    }

    pub fn get_value(&self) -> (r: &Identifier)
        ensures
            *r == self.spec_value(),
    {
        &self.value
    }
}

/// A dimension type as a registry entry describes it.
#[derive(Debug, Clone, Copy, PartialEq, Eq, Structural)]
pub struct DimensionType {
    pub height: i32,
    pub min_height: i32,
}

impl DimensionType {
    pub fn get_height(&self) -> (r: i32)
        ensures
            r == self.height,
    {
        self.height
    }

    pub fn get_min_height(&self) -> (r: i32)
        ensures
            r == self.min_height,
    {
        self.min_height
    }
}

/// What the server reads of a registry entry's value.
pub enum RegistryEntryValue {
    DimensionType(DimensionType),
    /// An entry of another kind, carried only as NBT.
    Other,
}

/// Asking an entry for a kind that it is not.
#[derive(Debug, PartialEq, Eq, Structural)]
pub enum RegistryEntryError {
    NotOfType,
}

/// One entry of a registry: its value, its NBT, its key and its protocol id.
pub struct RegistryEntry {
    value: RegistryEntryValue,
    raw_value: Value,
    registry_key: RegistryKey,
    protocol_id: u32,
}

impl RegistryEntry {
    pub closed spec fn spec_value(&self) -> RegistryEntryValue {
        self.value
    }

    pub closed spec fn spec_raw_value(&self) -> Value {
        self.raw_value
    }

    pub closed spec fn spec_key(&self) -> Identifier {
        self.registry_key.spec_value()
    }

    pub closed spec fn spec_protocol_id(&self) -> u32 {
        self.protocol_id
    }

    pub fn new(
        value: RegistryEntryValue,
        raw_value: Value,
        registry_key: RegistryKey,
        protocol_id: u32,
    ) -> (r: Self)
        ensures
            r.spec_value() == value,
            r.spec_raw_value() == raw_value,
            r.spec_key() == registry_key.spec_value(),
            r.spec_protocol_id() == protocol_id,
    {
        Self { value, raw_value, registry_key, protocol_id }
    }

    /// The dimension type of this entry, when it is one.
    pub fn get_dimension(&self) -> (r: Result<&DimensionType, RegistryEntryError>)
        ensures
            match self.spec_value() {
                RegistryEntryValue::DimensionType(d) => r == Ok::<&DimensionType, RegistryEntryError>(
                    &d,
                ),
                RegistryEntryValue::Other => r == Err::<&DimensionType, RegistryEntryError>(
                    RegistryEntryError::NotOfType,
                ),
            },
    {
        match &self.value {
            RegistryEntryValue::DimensionType(dimension) => Ok(dimension),
            RegistryEntryValue::Other => Err(RegistryEntryError::NotOfType),
        }
    }

    pub fn get_protocol_id(&self) -> (r: u32)
        ensures
            r == self.spec_protocol_id(),
    {
        self.protocol_id
    }

    pub fn get_registry_key(&self) -> (r: &RegistryKey)
        ensures
            r.spec_value() == self.spec_key(),
    {
        &self.registry_key
    }

    pub fn get_raw_value(&self) -> (r: &Value)
        ensures
            *r == self.spec_raw_value(),
    {
        &self.raw_value
    }
}

/// The position of the first entry registered under `id`, if any.
pub open spec fn entry_index(entries: Seq<RegistryEntry>, key: (Seq<char>, Seq<char>)) -> Option<int> {
    if exists|i: int| 0 <= i < entries.len() && id_view(#[trigger] entries[i].spec_key()) == key {
        Some(
            choose|i: int|
                0 <= i < entries.len() && id_view(#[trigger] entries[i].spec_key()) == key && (
                forall|j: int| 0 <= j < i ==> id_view(#[trigger] entries[j].spec_key()) != key),
        )
    } else {
        None
    }
}

/// A registry: its key and its entries in order.
pub struct Registry {
    registry_key: RegistryKey,
    entries: Vec<RegistryEntry>,
}

impl Registry {
    pub closed spec fn spec_key(&self) -> Identifier {
        self.registry_key.spec_value()
    }

    pub closed spec fn spec_entries(&self) -> Seq<RegistryEntry> {
        self.entries@
    }

    pub fn new(registry_key: RegistryKey, entries: Vec<RegistryEntry>) -> (r: Self)
        ensures
            r.spec_key() == registry_key.spec_value(),
            r.spec_entries() == entries@,
    {
        Self { registry_key, entries }
    }

    pub fn get_registry_key(&self) -> (r: &RegistryKey)
        ensures
            r.spec_value() == self.spec_key(),
    {
        &self.registry_key
    }

    pub fn get_entries(&self) -> (r: &Vec<RegistryEntry>)
        ensures
            r@ == self.spec_entries(),
    {
        &self.entries
    }

    /// The first entry registered under `id`, if any.
    pub fn get_optional(&self, id: &Identifier) -> (r: Option<&RegistryEntry>)
        ensures
            match entry_index(self.spec_entries(), id_view(*id)) {
                Some(i) => r == Some(&self.spec_entries()[i]),
                None => r is None,
            },
    {
        let mut i: usize = 0;
        while i < self.entries.len()
            invariant
                i <= self.entries@.len(),
                forall|j: int|
                    0 <= j < i ==> !same_identifier(#[trigger] self.entries@[j].spec_key(), *id),
            decreases self.entries@.len() - i,
        {
            if self.entries[i].registry_key.get_value().eq(id) {
                let ghost e = self.spec_entries();
                assert(same_identifier(e[i as int].spec_key(), *id));
                assert(entry_index(e, id_view(*id)) == Some(i as int)) by {
                    let key = id_view(*id);
                    let k = choose|k: int|
                        0 <= k < e.len() && id_view(#[trigger] e[k].spec_key()) == key && (
                        forall|j: int| 0 <= j < k ==> id_view(#[trigger] e[j].spec_key()) != key);
                    assert(0 <= i < e.len() && id_view(e[i as int].spec_key()) == key && (
                    forall|j: int| 0 <= j < i ==> id_view(#[trigger] e[j].spec_key()) != key));
                    if k < i {
                    } else if k > i {
                        assert(!same_identifier(e[i as int].spec_key(), *id));
                    }
                }
                return Some(&self.entries[i]);
            }
            i = i + 1;
        }
        None
    }

    /// The first entry registered under `id`, or the error naming it.
    pub fn get(&self, id: &Identifier) -> (r: Result<&RegistryEntry, Error>)
        ensures
            match entry_index(self.spec_entries(), id_view(*id)) {
                Some(i) => r == Ok::<&RegistryEntry, Error>(&self.spec_entries()[i]),
                None => r matches Err(Error::UnknownRegistryEntry(x)) && x == *id,
            },
    {
        match self.get_optional(id) {
            Some(entry) => Ok(entry),
            None => Err(Error::UnknownRegistryEntry(id.clone())),
        }
    }
}

/// No key occurs twice.
pub open spec fn keys_distinct(registries: Seq<(RegistryKeys, Registry)>) -> bool {
    forall|i: int, j: int|
        0 <= i < j < registries.len() ==> !same_key(#[trigger] registries[i].0, #[trigger] registries[j].0)
}

/// The position of the registry of `key`, if any.
pub open spec fn registry_index(registries: Seq<(RegistryKeys, Registry)>, key: RegistryKeys) -> Option<
    int,
> {
    if exists|i: int| 0 <= i < registries.len() && same_key(#[trigger] registries[i].0, key) {
        Some(choose|i: int| 0 <= i < registries.len() && same_key(#[trigger] registries[i].0, key))
    } else {
        None
    }
}

/// Putting a registry under a key, as a map does: a key already present
/// keeps its place and takes the new registry; a new key is appended.
pub open spec fn spec_put(
    registries: Seq<(RegistryKeys, Registry)>,
    key: RegistryKeys,
    registry: Registry,
) -> Seq<(RegistryKeys, Registry)> {
    match registry_index(registries, key) {
        Some(i) => registries.update(i, (registries[i].0, registry)),
        None => registries.push((key, registry)),
    }
}

/// The pairs put one after another, as collecting them into a map does.
pub open spec fn spec_collect(pairs: Seq<(RegistryKeys, Registry)>) -> Seq<(RegistryKeys, Registry)>
    decreases pairs.len(),
{
    if pairs.len() == 0 {
        Seq::empty()
    } else {
        spec_put(spec_collect(pairs.drop_last()), pairs.last().0, pairs.last().1)
    }
}

/// With distinct keys, the registry of a key is the one at a position
/// holding that key.
proof fn lemma_registry_index_is(rs: Seq<(RegistryKeys, Registry)>, key: RegistryKeys, i: int)
    requires
        keys_distinct(rs),
        0 <= i < rs.len(),
        same_key(rs[i].0, key),
    ensures
        registry_index(rs, key) == Some(i),
{
    let k = choose|k: int| 0 <= k < rs.len() && same_key(#[trigger] rs[k].0, key);
    if k != i {
        lemma_same_key_symmetric_transitive(rs[k].0, key, rs[i].0);
        lemma_same_key_symmetric_transitive(rs[i].0, key, rs[k].0);
        if k < i {
            assert(!same_key(rs[k].0, rs[i].0));
        } else {
            assert(!same_key(rs[i].0, rs[k].0));
        }
    }
}

/// Puts a registry under a key, keeping the keys distinct.
fn put(registries: &mut Vec<(RegistryKeys, Registry)>, key: RegistryKeys, registry: Registry)
    requires
        keys_distinct(old(registries)@),
    ensures
        final(registries)@ == spec_put(old(registries)@, key, registry),
        keys_distinct(final(registries)@),
{
    let mut i: usize = 0;
    while i < registries.len()
        invariant
            i <= registries@.len(),
            registries@ == old(registries)@,
            keys_distinct(registries@),
            forall|j: int| 0 <= j < i ==> !same_key(#[trigger] registries@[j].0, key),
        decreases registries@.len() - i,
    {
        if registries[i].0.eq(&key) {
            proof {
                lemma_registry_index_is(registries@, key, i as int);
            }
            let existing = registries[i].0.clone();
            registries.set(i, (existing, registry));
            proof {
                assert forall|a: int, b: int|
                    0 <= a < b < registries@.len() implies !same_key(
                    #[trigger] registries@[a].0,
                    #[trigger] registries@[b].0,
                ) by {
                    assert(registries@[a].0 == old(registries)@[a].0);
                    assert(registries@[b].0 == old(registries)@[b].0);
                }
            }
            return ;
        }
        i = i + 1;
    }
    proof {
        assert(!(exists|j: int| 0 <= j < registries@.len() && same_key(#[trigger] registries@[j].0, key)));
    }
    registries.push((key, registry));
    proof {
        assert forall|a: int, b: int|
            0 <= a < b < registries@.len() implies !same_key(
            #[trigger] registries@[a].0,
            #[trigger] registries@[b].0,
        ) by {
            if b == registries@.len() - 1 {
                lemma_same_key_symmetric_transitive(registries@[a].0, key, key);
                assert(!same_key(old(registries)@[a].0, key));
            } else {
                assert(registries@[a] == old(registries)@[a]);
                assert(registries@[b] == old(registries)@[b]);
            }
        }
    }
}

/// The loaded registries, by key.
pub struct RegistryManager {
    registries: Vec<(RegistryKeys, Registry)>,
}

impl RegistryManager {
    pub closed spec fn spec_registries(&self) -> Seq<(RegistryKeys, Registry)> {
        self.registries@
    }

    /// No key occurs twice.
    #[verifier::type_invariant]
    spec fn wf(&self) -> bool {
        keys_distinct(self.registries@)
    }

    pub fn builder() -> (r: RegistryManagerBuilder)
        ensures
            r.spec_keys() == Seq::<RegistryKeys>::empty(),
    {
        RegistryManagerBuilder::new()
    }

    /// The registry of `key`, if it was loaded.
    pub fn get_optional(&self, key: &RegistryKeys) -> (r: Option<&Registry>)
        ensures
            match registry_index(self.spec_registries(), *key) {
                Some(i) => r == Some(&self.spec_registries()[i].1),
                None => r is None,
            },
    {
        proof {
            use_type_invariant(self);
        }
        let mut i: usize = 0;
        while i < self.registries.len()
            invariant
                i <= self.registries@.len(),
                keys_distinct(self.registries@),
                forall|j: int| 0 <= j < i ==> !same_key(#[trigger] self.registries@[j].0, *key),
            decreases self.registries@.len() - i,
        {
            if self.registries[i].0.eq(key) {
                proof {
                    lemma_registry_index_is(self.registries@, *key, i as int);
                }
                return Some(&self.registries[i].1);
            }
            i = i + 1;
        }
        None
    }

    /// The registry of `key`, if it was loaded.
    pub fn try_get(&self, key: &RegistryKeys) -> (r: Option<&Registry>)
        ensures
            match registry_index(self.spec_registries(), *key) {
                Some(i) => r == Some(&self.spec_registries()[i].1),
                None => r is None,
            },
    {
        self.get_optional(key)
    }

    /// The registry of `key`, or the error naming the key.
    pub fn get(&self, key: &RegistryKeys) -> (r: Result<&Registry, Error>)
        ensures
            match registry_index(self.spec_registries(), *key) {
                Some(i) => r == Ok::<&Registry, Error>(&self.spec_registries()[i].1),
                None => r matches Err(Error::UnknownRegistry(k)) && k == *key,
            },
    {
        match self.get_optional(key) {
            Some(registry) => Ok(registry),
            None => Err(Error::UnknownRegistry(key.clone())),
        }
    }
}

impl RegistryManager {
    /// The manager holding the registries of the pairs; when a key occurs
    /// twice, the later registry replaces the earlier one in its place.
    pub fn from_loaded(pairs: Vec<(RegistryKeys, Registry)>) -> (r: RegistryManager)
        ensures
            r.spec_registries() == spec_collect(pairs@),
    {
        let ghost all = pairs@;
        let n: usize = pairs.len();
        let mut rest = pairs;
        let mut registries: Vec<(RegistryKeys, Registry)> = Vec::new();
        let mut k: usize = 0;
        while rest.len() > 0
            invariant
                k <= all.len(),
                all.len() == n,
                rest@ == all.skip(k as int),
                registries@ == spec_collect(all.take(k as int)),
                keys_distinct(registries@),
            decreases rest@.len(),
        {
            let (key, registry) = rest.remove(0);
            proof {
                assert(all.take(k + 1).drop_last() =~= all.take(k as int));
                assert(all.take(k + 1).last() == all[k as int]);
                assert(all[k as int] == (key, registry));
            }
            put(&mut registries, key, registry);
            k = k + 1;
            assert(rest@ =~= all.skip(k as int));
        }
        assert(all.take(k as int) =~= all);
        RegistryManager { registries }
    }
}

/// What the server needs of the dimension type registered under `id`:
/// nothing when no dimension type registry was loaded, no entry has that
/// identifier, or the entry is not a dimension type.
pub open spec fn spec_dimension_info(registries: Seq<(RegistryKeys, Registry)>, id: Identifier) -> Option<
    DimensionInfo,
> {
    match registry_index(registries, RegistryKeys::DimensionType) {
        None => None,
        Some(i) => match entry_index(registries[i].1.spec_entries(), id_view(id)) {
            None => None,
            Some(j) => {
                let entry = registries[i].1.spec_entries()[j];
                match entry.spec_value() {
                    RegistryEntryValue::DimensionType(d) => Some(
                        DimensionInfo {
                            height: d.height,
                            min_y: d.min_height,
                            protocol_id: entry.spec_protocol_id(),
                            registry_key: entry.spec_key(),
                        },
                    ),
                    RegistryEntryValue::Other => None,
                }
            },
        },
    }
}

/// The protocol id of the biome registered under `id`, if a biome registry
/// was loaded and has it.
pub open spec fn spec_biome_protocol_id(registries: Seq<(RegistryKeys, Registry)>, id: Identifier) -> Option<
    u32,
> {
    match registry_index(registries, RegistryKeys::Biome) {
        None => None,
        Some(i) => match entry_index(registries[i].1.spec_entries(), id_view(id)) {
            None => None,
            Some(j) => Some(registries[i].1.spec_entries()[j].spec_protocol_id()),
        },
    }
}

/// The dimension type registered under `dimension_identifier`, if any.
pub fn get_dimension_info(registry_manager: &RegistryManager, dimension_identifier: &Identifier) -> (r:
    Option<DimensionInfo>)
    ensures
        r == spec_dimension_info(registry_manager.spec_registries(), *dimension_identifier),
{
    let registry = match registry_manager.get_optional(&RegistryKeys::DimensionType) {
        Some(registry) => registry,
        None => return None,
    };
    let element = match registry.get_optional(dimension_identifier) {
        Some(element) => element,
        None => return None,
    };
    let protocol_id = element.get_protocol_id();
    let registry_key = element.get_registry_key().get_value().clone();
    match element.get_dimension() {
        Ok(dimension) => Some(
            DimensionInfo {
                height: dimension.get_height(),
                min_y: dimension.get_min_height(),
                protocol_id,
                registry_key,
            },
        ),
        Err(_) => None,
    }
}

/// The protocol id of the biome registered under `biome_identifier`, if any.
pub fn get_biome_protocol_id(registry_manager: &RegistryManager, biome_identifier: &Identifier) -> (r:
    Option<u32>)
    ensures
        r == spec_biome_protocol_id(registry_manager.spec_registries(), *biome_identifier),
{
    match registry_manager.get_optional(&RegistryKeys::Biome) {
        Some(registry) => match registry.get_optional(biome_identifier) {
            Some(entry) => Some(entry.get_protocol_id()),
            None => None,
        },
        None => None,
    }
}

/// The entry of the dimension type registered under `dimension_identifier`,
/// or the error naming it when the registry or the entry is missing.
pub fn get_dimension<'a>(registry_manager: &'a RegistryManager, dimension_identifier: &Identifier) -> (r:
    Result<&'a RegistryEntry, Error>)
    ensures
        match registry_index(registry_manager.spec_registries(), RegistryKeys::DimensionType) {
            Some(i) => match entry_index(
                registry_manager.spec_registries()[i].1.spec_entries(),
                id_view(*dimension_identifier),
            ) {
                Some(j) => r == Ok::<&RegistryEntry, Error>(
                    &registry_manager.spec_registries()[i].1.spec_entries()[j],
                ),
                None => r matches Err(Error::UnknownRegistryEntry(x)) && x == *dimension_identifier,
            },
            None => r matches Err(Error::UnknownRegistryEntry(x)) && x == *dimension_identifier,
        },
{
    match registry_manager.try_get(&RegistryKeys::DimensionType) {
        Some(registry) => match registry.get_optional(dimension_identifier) {
            Some(entry) => Ok(entry),
            None => Err(Error::UnknownRegistryEntry(dimension_identifier.clone())),
        },
        None => Err(Error::UnknownRegistryEntry(dimension_identifier.clone())),
    }
}

/// Key equality is an equivalence: symmetric and transitive.
proof fn lemma_same_key_symmetric_transitive(a: RegistryKeys, b: RegistryKeys, c: RegistryKeys)
    ensures
        same_key(a, b) ==> same_key(b, a),
        same_key(a, b) && same_key(b, c) ==> same_key(a, c),
{
}

/// The registry of the last pair whose key is `key`, if any.
pub open spec fn last_with_key(pairs: Seq<(RegistryKeys, Registry)>, key: RegistryKeys) -> Option<
    Registry,
>
    decreases pairs.len(),
{
    if pairs.len() == 0 {
        None
    } else if same_key(pairs.last().0, key) {
        Some(pairs.last().1)
    } else {
        last_with_key(pairs.drop_last(), key)
    }
}

/// What `registry_index` finds when there is a match.
proof fn lemma_registry_index_some(rs: Seq<(RegistryKeys, Registry)>, key: RegistryKeys)
    ensures
        registry_index(rs, key) matches Some(i) ==> 0 <= i < rs.len() && same_key(rs[i].0, key),
        registry_index(rs, key) is None ==> forall|j: int|
            0 <= j < rs.len() ==> !same_key(#[trigger] rs[j].0, key),
{
}

/// Putting keeps the keys distinct.
proof fn lemma_put_distinct(acc: Seq<(RegistryKeys, Registry)>, key: RegistryKeys, r: Registry)
    requires
        keys_distinct(acc),
    ensures
        keys_distinct(spec_put(acc, key, r)),
{
    lemma_registry_index_some(acc, key);
    let out = spec_put(acc, key, r);
    match registry_index(acc, key) {
        Some(i) => {
            assert forall|a: int, b: int| 0 <= a < b < out.len() implies !same_key(
                #[trigger] out[a].0,
                #[trigger] out[b].0,
            ) by {
                assert(out[a].0 == acc[a].0);
                assert(out[b].0 == acc[b].0);
            }
        },
        None => {
            assert forall|a: int, b: int| 0 <= a < b < out.len() implies !same_key(
                #[trigger] out[a].0,
                #[trigger] out[b].0,
            ) by {
                if b == acc.len() {
                    assert(!same_key(acc[a].0, key));
                } else {
                    assert(out[a] == acc[a]);
                    assert(out[b] == acc[b]);
                }
            }
        },
    }
}

/// Collecting pairs gives distinct keys.
pub proof fn lemma_collect_distinct(pairs: Seq<(RegistryKeys, Registry)>)
    ensures
        keys_distinct(spec_collect(pairs)),
    decreases pairs.len(),
{
    if pairs.len() > 0 {
        lemma_collect_distinct(pairs.drop_last());
        lemma_put_distinct(spec_collect(pairs.drop_last()), pairs.last().0, pairs.last().1);
    }
}

/// A lookup after a put: the key put gives the registry put; any other
/// key gives what it gave before.
proof fn lemma_put_lookup(
    acc: Seq<(RegistryKeys, Registry)>,
    key: RegistryKeys,
    r: Registry,
    q: RegistryKeys,
)
    requires
        keys_distinct(acc),
    ensures
        same_key(key, q) ==> (registry_index(spec_put(acc, key, r), q) matches Some(i) && spec_put(
            acc,
            key,
            r,
        )[i].1 == r),
        !same_key(key, q) ==> match registry_index(acc, q) {
            Some(m) => registry_index(spec_put(acc, key, r), q) == Some(m) && spec_put(acc, key, r)[m].1
                == acc[m].1,
            None => registry_index(spec_put(acc, key, r), q) is None,
        },
{
    lemma_put_distinct(acc, key, r);
    lemma_registry_index_some(acc, key);
    lemma_registry_index_some(acc, q);
    let out = spec_put(acc, key, r);
    lemma_registry_index_some(out, q);
    match registry_index(acc, key) {
        Some(i) => {
            if same_key(key, q) {
                lemma_same_key_symmetric_transitive(acc[i].0, key, q);
                lemma_registry_index_is(out, q, i);
            } else {
                if let Some(m) = registry_index(acc, q) {
                    if m == i {
                        lemma_same_key_symmetric_transitive(acc[i].0, q, key);
                        lemma_same_key_symmetric_transitive(key, acc[i].0, q);
                        lemma_same_key_symmetric_transitive(q, acc[i].0, key);
                    }
                    assert(out[m].0 == acc[m].0);
                    lemma_registry_index_is(out, q, m);
                } else {
                    assert forall|j: int| 0 <= j < out.len() implies !same_key(#[trigger] out[j].0, q) by {
                        assert(out[j].0 == acc[j].0);
                    }
                }
            }
        },
        None => {
            if same_key(key, q) {
                lemma_registry_index_is(out, q, acc.len() as int);
            } else {
                if let Some(m) = registry_index(acc, q) {
                    assert(out[m] == acc[m]);
                    lemma_registry_index_is(out, q, m);
                } else {
                    assert forall|j: int| 0 <= j < out.len() implies !same_key(#[trigger] out[j].0, q) by {
                        if j < acc.len() {
                            assert(out[j] == acc[j]);
                        }
                    }
                }
            }
        },
    }
}

/// A manager built from loaded pairs holds, for each key, the registry of
/// the last pair with that key, and nothing for a key that no pair has.
pub proof fn lemma_collect_lookup(pairs: Seq<(RegistryKeys, Registry)>, key: RegistryKeys)
    ensures
        match registry_index(spec_collect(pairs), key) {
            Some(i) => last_with_key(pairs, key) == Some(spec_collect(pairs)[i].1),
            None => last_with_key(pairs, key) is None,
        },
    decreases pairs.len(),
{
    if pairs.len() > 0 {
        let prev = spec_collect(pairs.drop_last());
        lemma_collect_distinct(pairs.drop_last());
        lemma_collect_lookup(pairs.drop_last(), key);
        lemma_put_lookup(prev, pairs.last().0, pairs.last().1, key);
    }
}

} // verus!
