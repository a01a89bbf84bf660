//! What the server sends of its registries, per protocol version: the
//! dimension codec (1.16.2 to 1.18.2), the registry codec (1.16 and
//! 1.16.1) and the registry data packets (since 1.20.5), all built from a
//! loaded registry manager.
use crate::identifier::{spec_identifier_text, Identifier};
use crate::nbt::error::NbtError;
use crate::nbt::options::NbtOptions;
use crate::nbt::value::{clone_entries, lemma_view_entries_len, view_entries, Value, ValueView};
use crate::nbt::writer::{spec_check_root, spec_write_root, to_bytes_with_options};
use crate::protocol_version::{spec_version_number, ProtocolVersion};
use crate::registries::{
    default_registries, spec_default_registries, spec_dimension_path, spec_is_mandatory,
    spec_minimum_protocol, Dimension, RegistryDataEntry, RegistryKeys,
};
use crate::registry_data::{
    entry_index, get_dimension, registry_index, Error, Registry, RegistryEntry,
    RegistryManager,
};
use vstd::prelude::*;

verus! {

/// Whether `v` lies between `lo` and `hi`, both included.
pub open spec fn in_range(v: ProtocolVersion, lo: ProtocolVersion, hi: ProtocolVersion) -> bool {
    spec_version_number(lo) <= spec_version_number(v) <= spec_version_number(hi)
}

/// Whether NBT sent to a client of version `v` has a nameless root: from
/// 1.20.2 on.
pub open spec fn spec_nameless_for(v: ProtocolVersion) -> bool {
    spec_version_number(v) >= spec_version_number(ProtocolVersion::V1_20_2)
}

/// The newest protocol version the server knows.
pub fn latest() -> (r: ProtocolVersion)
    ensures
        r == ProtocolVersion::V1_21_4,
{
    ProtocolVersion::V1_21_4
}

/// `Ok` when `version` lies between `minimum` and `maximum`.
fn check_version(version: ProtocolVersion, minimum: ProtocolVersion, maximum: ProtocolVersion) -> (r:
    Result<(), Error>)
    ensures
        r is Ok <==> in_range(version, minimum, maximum),
        r matches Err(e) ==> e == (Error::IncompatibleVersion { current: version, minimum, maximum }),
{
    Error::incompatible_version(version, minimum, maximum)
}

/// Whether the registry `key` is sent to a client whose protocol number is
/// `number`: it is mandatory and its first version is not newer.
pub open spec fn spec_key_sent(key: RegistryKeys, number: u32) -> bool {
    spec_is_mandatory(key) && match spec_minimum_protocol(key) {
        Some(m) => m <= number,
        None => false,
    }
}

/// The keys among `keys` that are sent to a client whose protocol number is
/// `number`, in their order.
pub open spec fn spec_keys_sent(keys: Seq<RegistryKeys>, number: u32) -> Seq<RegistryKeys>
    decreases keys.len(),
{
    if keys.len() == 0 {
        keys
    } else {
        let before = spec_keys_sent(keys.drop_last(), number);
        if spec_key_sent(keys.last(), number) {
            before.push(keys.last())
        } else {
            before
        }
    }
}

/// The registries sent to a client of `v`: the default registries that are
/// mandatory and exist in `v`, in their default order.
pub open spec fn spec_registry_keys(v: ProtocolVersion) -> Seq<RegistryKeys> {
    spec_keys_sent(spec_default_registries(), spec_version_number(v))
}

/// The registries sent to a client of `protocol_version` (1.16 to the
/// newest version): the default registries that are mandatory and exist
/// in that version, in their default order.
pub fn get_registry_keys(protocol_version: ProtocolVersion) -> (r: Result<Vec<RegistryKeys>, Error>)
    ensures
        !in_range(protocol_version, ProtocolVersion::V1_16, ProtocolVersion::V1_21_4) ==> r
            == Err::<Vec<RegistryKeys>, Error>(
            Error::IncompatibleVersion {
                current: protocol_version,
                minimum: ProtocolVersion::V1_16,
                maximum: ProtocolVersion::V1_21_4,
            },
        ),
        in_range(protocol_version, ProtocolVersion::V1_16, ProtocolVersion::V1_21_4) ==> (r matches Ok(
            keys,
        ) && keys@ == spec_registry_keys(protocol_version)),
{
    match check_version(protocol_version, ProtocolVersion::V1_16, latest()) {
        Ok(()) => {},
        Err(e) => return Err(e),
    }
    let number = protocol_version.version_number();
    let defaults = default_registries();
    let mut out: Vec<RegistryKeys> = Vec::new();
    let mut k: usize = 0;
    while k < defaults.len()
        invariant
            k <= defaults@.len(),
            defaults@ == spec_default_registries(),
            number == spec_version_number(protocol_version),
            out@ == spec_keys_sent(defaults@.take(k as int), number),
        decreases defaults@.len() - k,
    {
        assert(defaults@.take(k + 1).drop_last() =~= defaults@.take(k as int));
        let key = &defaults[k];
        let sent = key.is_mandatory() && match key.get_minimum_version() {
            Some(m) => m <= number,
            None => false,
        };
        if sent {
            out.push(key.clone());
        }
        k = k + 1;
    }
    assert(defaults@.take(k as int) =~= defaults@);
    Ok(out)
}

/// A key is among those sent exactly when it is among `keys` and is sent
/// to a client of that protocol number.
pub proof fn lemma_keys_sent_contains(keys: Seq<RegistryKeys>, number: u32, k: RegistryKeys)
    ensures
        spec_keys_sent(keys, number).contains(k) <==> keys.contains(k) && spec_key_sent(k, number),
    decreases keys.len(),
{
    if keys.len() > 0 {
        lemma_keys_sent_contains(keys.drop_last(), number, k);
        let before = spec_keys_sent(keys.drop_last(), number);
        if keys.contains(k) {
            let j = choose|j: int| 0 <= j < keys.len() && keys[j] == k;
            if j < keys.len() - 1 {
                assert(keys.drop_last()[j] == k);
            }
        }
        if keys.drop_last().contains(k) {
            let j = choose|j: int| 0 <= j < keys.drop_last().len() && keys.drop_last()[j] == k;
            assert(keys[j] == k);
        }
        if spec_key_sent(keys.last(), number) {
            assert(before.push(keys.last())[before.len() as int] == keys.last());
            if before.contains(k) {
                let j = choose|j: int| 0 <= j < before.len() && before[j] == k;
                assert(before.push(keys.last())[j] == k);
            }
            if before.push(keys.last()).contains(k) {
                let j = choose|j: int|
                    0 <= j < before.push(keys.last()).len() && before.push(keys.last())[j] == k;
                if j < before.len() {
                    assert(before[j] == k);
                }
            }
        }
        assert(keys[keys.len() - 1] == keys.last());
    }
}

/// The first version of each registry: dimension types from 1.16, biomes
/// from 1.16.2, damage types from 1.19.4, wolf variants from 1.20.5,
/// painting variants from 1.21; cat, chicken, cow, frog, pig and wolf sound
/// variants from 1.21.5 (protocol 770), timelines and zombie nautilus
/// variants from 1.21.11 (protocol 774), both newer than every known
/// version; `Root` and custom registries are never sent.
pub proof fn lemma_registry_first_versions(id: crate::identifier::Identifier)
    ensures
        spec_minimum_protocol(RegistryKeys::DimensionType) == Some(
            spec_version_number(ProtocolVersion::V1_16),
        ),
        spec_minimum_protocol(RegistryKeys::Biome) == Some(
            spec_version_number(ProtocolVersion::V1_16_2),
        ),
        spec_minimum_protocol(RegistryKeys::DamageType) == Some(
            spec_version_number(ProtocolVersion::V1_19_4),
        ),
        spec_minimum_protocol(RegistryKeys::WolfVariant) == Some(
            spec_version_number(ProtocolVersion::V1_20_5),
        ),
        spec_minimum_protocol(RegistryKeys::PaintingVariant) == Some(
            spec_version_number(ProtocolVersion::V1_21),
        ),
        spec_minimum_protocol(RegistryKeys::CatVariant) == Some(770u32),
        spec_minimum_protocol(RegistryKeys::ChickenVariant) == Some(770u32),
        spec_minimum_protocol(RegistryKeys::CowVariant) == Some(770u32),
        spec_minimum_protocol(RegistryKeys::FrogVariant) == Some(770u32),
        spec_minimum_protocol(RegistryKeys::PigVariant) == Some(770u32),
        spec_minimum_protocol(RegistryKeys::WolfSoundVariant) == Some(770u32),
        spec_minimum_protocol(RegistryKeys::Timeline) == Some(774u32),
        spec_minimum_protocol(RegistryKeys::ZombieNautilusVariant) == Some(774u32),
        770 > spec_version_number(ProtocolVersion::V1_21_4),
        spec_minimum_protocol(RegistryKeys::Root) == None::<u32>,
        spec_minimum_protocol(RegistryKeys::Custom(id)) == None::<u32>,
{
}

/// A registry is sent to a client of `v` exactly when it is one of the
/// default registries, it is mandatory and `v` is not older than its first
/// version. In particular damage types are sent to every client from 1.19.4
/// on, biomes from 1.16.2 on and dimension types to every supported client.
pub proof fn lemma_registry_keys_membership(v: ProtocolVersion, k: RegistryKeys)
    ensures
        spec_registry_keys(v).contains(k) <==> spec_default_registries().contains(k)
            && spec_is_mandatory(k) && (spec_minimum_protocol(k) matches Some(m) && m
            <= spec_version_number(v)),
        spec_registry_keys(v).contains(RegistryKeys::DamageType) <==> spec_version_number(v)
            >= spec_version_number(ProtocolVersion::V1_19_4),
        spec_registry_keys(v).contains(RegistryKeys::Biome) <==> spec_version_number(v)
            >= spec_version_number(ProtocolVersion::V1_16_2),
        spec_registry_keys(v).contains(RegistryKeys::DimensionType) <==> spec_version_number(v)
            >= spec_version_number(ProtocolVersion::V1_16),
{
    let d = spec_default_registries();
    let n = spec_version_number(v);
    lemma_keys_sent_contains(d, n, k);
    lemma_keys_sent_contains(d, n, RegistryKeys::DamageType);
    lemma_keys_sent_contains(d, n, RegistryKeys::Biome);
    lemma_keys_sent_contains(d, n, RegistryKeys::DimensionType);
    assert(d[0] == RegistryKeys::Biome);
    assert(d[4] == RegistryKeys::DamageType);
    assert(d[5] == RegistryKeys::DimensionType);
}

/// The registries sent to each supported version, in order: dimension
/// types alone before 1.16.2; then biomes first; damage types from 1.19.4;
/// wolf variants from 1.20.5; painting variants, before wolf variants,
/// from 1.21.
pub proof fn lemma_registry_keys_per_version(v: ProtocolVersion)
    requires
        in_range(v, ProtocolVersion::V1_16, ProtocolVersion::V1_21_4),
    ensures
        spec_version_number(v) < 751 ==> spec_registry_keys(v) == seq![RegistryKeys::DimensionType],
        751 <= spec_version_number(v) < 762 ==> spec_registry_keys(v) == seq![
            RegistryKeys::Biome,
            RegistryKeys::DimensionType,
        ],
        762 <= spec_version_number(v) < 766 ==> spec_registry_keys(v) == seq![
            RegistryKeys::Biome,
            RegistryKeys::DamageType,
            RegistryKeys::DimensionType,
        ],
        spec_version_number(v) == 766 ==> spec_registry_keys(v) == seq![
            RegistryKeys::Biome,
            RegistryKeys::DamageType,
            RegistryKeys::DimensionType,
            RegistryKeys::WolfVariant,
        ],
        767 <= spec_version_number(v) ==> spec_registry_keys(v) == seq![
            RegistryKeys::Biome,
            RegistryKeys::DamageType,
            RegistryKeys::DimensionType,
            RegistryKeys::PaintingVariant,
            RegistryKeys::WolfVariant,
        ],
{
    let d = spec_default_registries();
    let p1 = d.take(1);
    reveal_with_fuel(spec_keys_sent, 14);
    assert(d.drop_last() =~= d.take(12));
    assert(d.take(12).drop_last() =~= d.take(11));
    assert(d.take(11).drop_last() =~= d.take(10));
    assert(d.take(10).drop_last() =~= d.take(9));
    assert(d.take(9).drop_last() =~= d.take(8));
    assert(d.take(8).drop_last() =~= d.take(7));
    assert(d.take(7).drop_last() =~= d.take(6));
    assert(d.take(6).drop_last() =~= d.take(5));
    assert(d.take(5).drop_last() =~= d.take(4));
    assert(d.take(4).drop_last() =~= d.take(3));
    assert(d.take(3).drop_last() =~= d.take(2));
    assert(d.take(2).drop_last() =~= p1);
    assert(p1.drop_last() =~= Seq::<RegistryKeys>::empty());
}

/// Writes a value as NBT for a client of `protocol_version`: with a
/// nameless root from 1.20.2 on, else with an empty root name.
pub fn encode_nameless_compound_to_bytes(protocol_version: ProtocolVersion, value: &Value) -> (r:
    Result<Vec<u8>, NbtError>)
    ensures
        match r {
            Ok(bytes) => spec_check_root(Seq::empty(), value@, spec_nameless_for(protocol_version))
                is Ok && bytes@ == spec_write_root(
                Seq::empty(),
                value@,
                spec_nameless_for(protocol_version),
            ),
            Err(e) => spec_check_root(Seq::empty(), value@, spec_nameless_for(protocol_version))
                == Err::<(), NbtError>(e),
        },
{
    proof {
        reveal_strlit("");
    }
    let is_nameless = protocol_version.version_number() >= ProtocolVersion::V1_20_2.version_number();
    let options = NbtOptions::new().nameless_root(is_nameless);
    to_bytes_with_options(value, "", options)
}

/// The registry of `key`, if loaded.
pub open spec fn spec_registry(registries: Seq<(RegistryKeys, Registry)>, key: RegistryKeys) -> Option<
    Registry,
> {
    match registry_index(registries, key) {
        Some(i) => Some(registries[i].1),
        None => None,
    }
}

/// The entry registered under `id` in the dimension type registry, if any.
pub open spec fn spec_dimension_entry(registries: Seq<(RegistryKeys, Registry)>, id: (Seq<char>, Seq<char>)) -> Option<
    RegistryEntry,
> {
    match spec_registry(registries, RegistryKeys::DimensionType) {
        Some(reg) => match entry_index(reg.spec_entries(), id) {
            Some(j) => Some(reg.spec_entries()[j]),
            None => None,
        },
        None => None,
    }
}

/// The dimension codec of a dimension, sent from 1.16.2 up to 1.18.2: the
/// NBT of its dimension type entry.
pub fn get_dimension_codec_v1_16_2(
    protocol_version: ProtocolVersion,
    registry_manager: &RegistryManager,
    dimension: &Dimension,
) -> (r: Result<Vec<u8>, Error>)
    ensures
        !in_range(protocol_version, ProtocolVersion::V1_16_2, ProtocolVersion::V1_18_2) ==> r
            == Err::<Vec<u8>, Error>(
            Error::IncompatibleVersion {
                current: protocol_version,
                minimum: ProtocolVersion::V1_16_2,
                maximum: ProtocolVersion::V1_18_2,
            },
        ),
        in_range(protocol_version, ProtocolVersion::V1_16_2, ProtocolVersion::V1_18_2) ==> match spec_dimension_entry(
            registry_manager.spec_registries(),
            ("minecraft"@, spec_dimension_path(*dimension)),
        ) {
            None => r matches Err(Error::UnknownRegistryEntry(x)) && x.namespace@ == "minecraft"@
                && x.thing@ == spec_dimension_path(*dimension),
            Some(e) => match spec_check_root(
                Seq::empty(),
                e.spec_raw_value()@,
                spec_nameless_for(protocol_version),
            ) {
                Err(ne) => r matches Err(Error::Nbt(x)) && x == ne,
                Ok(()) => r matches Ok(b) && b@ == spec_write_root(
                    Seq::empty(),
                    e.spec_raw_value()@,
                    spec_nameless_for(protocol_version),
                ),
            },
        },
{
    match check_version(protocol_version, ProtocolVersion::V1_16_2, ProtocolVersion::V1_18_2) {
        Ok(()) => {},
        Err(e) => return Err(e),
    }
    let id = dimension.identifier();
    let entry = match get_dimension(registry_manager, &id) {
        Ok(entry) => entry,
        Err(e) => return Err(e),
    };
    match encode_nameless_compound_to_bytes(protocol_version, entry.get_raw_value()) {
        Ok(bytes) => Ok(bytes),
        Err(e) => Err(Error::Nbt(e)),
    }
}

/// The entry of the registry codec for a dimension type entry: a compound
/// with the entry's identifier as `name`, followed by the entries of its
/// NBT; `None` when its NBT is not a compound.
pub open spec fn spec_codec_entry(e: RegistryEntry) -> Option<ValueView> {
    match e.spec_raw_value()@ {
        ValueView::Compound(es) => Some(
            ValueView::Compound(
                seq![
                    (
                        "name"@,
                        ValueView::String(
                            spec_identifier_text(e.spec_key().namespace@, e.spec_key().thing@),
                        ),
                    ),
                ] + es,
            ),
        ),
        _ => None,
    }
}

/// The codec entries of all entries, in order, or `None` when one has no
/// compound NBT.
pub open spec fn spec_codec_entries(entries: Seq<RegistryEntry>) -> Option<Seq<ValueView>>
    decreases entries.len(),
{
    if entries.len() == 0 {
        Some(Seq::empty())
    } else {
        match spec_codec_entries(entries.drop_last()) {
            None => None,
            Some(vs) => match spec_codec_entry(entries.last()) {
                None => None,
                Some(v) => Some(vs.push(v)),
            },
        }
    }
}

/// The registry codec of 1.16 and 1.16.1: a compound whose `dimension`
/// list holds the codec entries of the dimension type registry.
pub open spec fn spec_registry_codec(registry: Registry) -> Option<ValueView> {
    match spec_codec_entries(registry.spec_entries()) {
        Some(vs) => Some(ValueView::Compound(seq![("dimension"@, ValueView::List(vs))])),
        None => None,
    }
}

/// The codec entry of one registry entry.
fn codec_entry(e: &RegistryEntry) -> (r: Option<Value>)
    ensures
        match r {
            Some(v) => spec_codec_entry(*e) == Some(v@),
            None => spec_codec_entry(*e) is None,
        },
{
    match e.get_raw_value() {
        Value::Compound(entries) => {
            let name = e.get_registry_key().get_value().to_string();
            let mut out: Vec<(String, Value)> = Vec::new();
            out.push(("name".to_owned(), Value::String(name)));
            let rest = clone_entries(entries);
            let ghost head = out@;
            let mut k: usize = 0;
            let mut rest = rest;
            let ghost all = rest@;
            proof {
                lemma_view_entries_len(all);
                assert(view_entries(head) =~= seq![("name"@, ValueView::String(name@))]) by {
                    reveal_with_fuel(view_entries, 2);
                }
            }
            let n = rest.len();
            while k < n
                invariant
                    k <= n,
                    n == all.len(),
                    rest@ == all.skip(k as int),
                    view_entries(out@) == view_entries(head) + view_entries(all.take(k as int)),
                decreases n - k,
            {
                let item = rest.remove(0);
                proof {
                    assert(item == all[k as int]);
                    crate::nbt::value::lemma_view_entries_push(out@, item);
                    crate::nbt::value::lemma_view_entries_push(all.take(k as int), item);
                    assert(all.take(k + 1) =~= all.take(k as int).push(item));
                }
                out.push(item);
                k = k + 1;
                assert(rest@ =~= all.skip(k as int));
            }
            proof {
                assert(all.take(k as int) =~= all);
                reveal_strlit("name");
            }
            Some(Value::Compound(out))
        },
        _ => None,
    }
}

/// The registry codec sent to clients of 1.16 and 1.16.1: the dimension
/// types, each named by its identifier, written as NBT.
pub fn get_registry_codec_bytes_v1_16(
    protocol_version: ProtocolVersion,
    registry_manager: &RegistryManager,
) -> (r: Result<Vec<u8>, Error>)
    ensures
        !in_range(protocol_version, ProtocolVersion::V1_16, ProtocolVersion::V1_16_1) ==> r == Err::<
            Vec<u8>,
            Error,
        >(
            Error::IncompatibleVersion {
                current: protocol_version,
                minimum: ProtocolVersion::V1_16,
                maximum: ProtocolVersion::V1_16_1,
            },
        ),
        in_range(protocol_version, ProtocolVersion::V1_16, ProtocolVersion::V1_16_1) ==> match spec_registry(
            registry_manager.spec_registries(),
            RegistryKeys::DimensionType,
        ) {
            None => r matches Err(Error::UnknownRegistry(k)) && k == RegistryKeys::DimensionType,
            Some(reg) => match spec_registry_codec(reg) {
                None => r matches Err(Error::NotOfType),
                Some(codec) => match spec_check_root(
                    Seq::empty(),
                    codec,
                    spec_nameless_for(protocol_version),
                ) {
                    Err(ne) => r matches Err(Error::Nbt(x)) && x == ne,
                    Ok(()) => r matches Ok(b) && b@ == spec_write_root(
                        Seq::empty(),
                        codec,
                        spec_nameless_for(protocol_version),
                    ),
                },
            },
        },
{
    match check_version(protocol_version, ProtocolVersion::V1_16, ProtocolVersion::V1_16_1) {
        Ok(()) => {},
        Err(e) => return Err(e),
    }
    let registry = match registry_manager.get(&RegistryKeys::DimensionType) {
        Ok(registry) => registry,
        Err(e) => return Err(e),
    };
    let entries = registry.get_entries();
    let mut list: Vec<Value> = Vec::new();
    let mut k: usize = 0;
    while k < entries.len()
        invariant
            k <= entries@.len(),
            entries@ == registry.spec_entries(),
            in_range(protocol_version, ProtocolVersion::V1_16, ProtocolVersion::V1_16_1),
            spec_registry(registry_manager.spec_registries(), RegistryKeys::DimensionType) == Some(
                *registry,
            ),
            spec_codec_entries(entries@.take(k as int)) == Some(
                crate::nbt::value::view_values(list@),
            ),
        decreases entries@.len() - k,
    {
        assert(entries@.take(k + 1).drop_last() =~= entries@.take(k as int));
        match codec_entry(&entries[k]) {
            Some(v) => {
                proof {
                    crate::nbt::value::lemma_view_values_push(list@, v);
                }
                list.push(v);
            },
            None => {
                proof {
                    lemma_codec_entries_none_stays(entries@, k as int);
                }
                return Err(Error::NotOfType);
            },
        }
        k = k + 1;
    }
    assert(entries@.take(k as int) =~= entries@);
    let ghost items = crate::nbt::value::view_values(list@);
    let key = "dimension".to_owned();
    let mut fields: Vec<(String, Value)> = Vec::new();
    fields.push((key, Value::List(list)));
    proof {
        reveal_with_fuel(view_entries, 2);
        assert(view_entries(fields@) =~= seq![("dimension"@, ValueView::List(items))]);
    }
    let codec = Value::Compound(fields);
    assert(spec_registry_codec(*registry) == Some(codec@));
    match encode_nameless_compound_to_bytes(protocol_version, &codec) {
        Ok(bytes) => Ok(bytes),
        Err(e) => Err(Error::Nbt(e)),
    }
}

/// A failing entry makes every longer prefix fail.
proof fn lemma_codec_entries_none_stays(entries: Seq<RegistryEntry>, k: int)
    requires
        0 <= k < entries.len(),
        spec_codec_entry(entries[k]) is None,
    ensures
        spec_codec_entries(entries) is None,
    decreases entries.len() - k,
{
    if k + 1 < entries.len() {
        lemma_codec_entries_none_stays(entries.drop_last(), k);
    } else {
        assert(entries.last() == entries[k]);
    }
}

/// The data of one entry: its identifier and its NBT with a nameless root;
/// `None` when its NBT cannot be written.
pub open spec fn spec_entry_data(e: RegistryEntry) -> Option<((Seq<char>, Seq<char>), Seq<u8>)> {
    if spec_check_root(Seq::empty(), e.spec_raw_value()@, true) is Ok {
        Some(
            (
                (e.spec_key().namespace@, e.spec_key().thing@),
                spec_write_root(Seq::empty(), e.spec_raw_value()@, true),
            ),
        )
    } else {
        None
    }
}

/// The data of the entries that can be written, in order; the others are
/// left out.
pub open spec fn spec_entries_data(entries: Seq<RegistryEntry>) -> Seq<
    ((Seq<char>, Seq<char>), Seq<u8>),
>
    decreases entries.len(),
{
    if entries.len() == 0 {
        Seq::empty()
    } else {
        spec_entries_data(entries.drop_last()) + match spec_entry_data(entries.last()) {
            Some(d) => seq![d],
            None => Seq::empty(),
        }
    }
}

/// The data of the registries of `keys` that are loaded, in the order of
/// the keys: each registry's identifier and the data of its entries.
pub open spec fn spec_registry_data(registries: Seq<(RegistryKeys, Registry)>, keys: Seq<RegistryKeys>) -> Seq<
    ((Seq<char>, Seq<char>), Seq<((Seq<char>, Seq<char>), Seq<u8>)>),
>
    decreases keys.len(),
{
    if keys.len() == 0 {
        Seq::empty()
    } else {
        spec_registry_data(registries, keys.drop_last()) + match spec_registry(
            registries,
            keys.last(),
        ) {
            Some(reg) => seq![
                (
                    (reg.spec_key().namespace@, reg.spec_key().thing@),
                    spec_entries_data(reg.spec_entries()),
                ),
            ],
            None => Seq::empty(),
        }
    }
}

/// The views of registry data entries.
pub open spec fn data_entry_views(es: Seq<RegistryDataEntry>) -> Seq<
    ((Seq<char>, Seq<char>), Seq<u8>),
> {
    es.map_values(|e: RegistryDataEntry| ((e.entry_id.namespace@, e.entry_id.thing@), e.nbt_bytes@))
}

/// The views of the registries' data.
pub open spec fn registry_data_views(rs: Seq<(Identifier, Vec<RegistryDataEntry>)>) -> Seq<
    ((Seq<char>, Seq<char>), Seq<((Seq<char>, Seq<char>), Seq<u8>)>),
> {
    rs.map_values(
        |r: (Identifier, Vec<RegistryDataEntry>)|
            ((r.0.namespace@, r.0.thing@), data_entry_views(r.1@)),
    )
}

/// The data of one registry's entries.
fn entries_data(registry: &Registry) -> (r: Vec<RegistryDataEntry>)
    ensures
        data_entry_views(r@) == spec_entries_data(registry.spec_entries()),
{
    proof {
        reveal_strlit("");
    }
    let entries = registry.get_entries();
    let mut out: Vec<RegistryDataEntry> = Vec::new();
    let mut k: usize = 0;
    while k < entries.len()
        invariant
            k <= entries@.len(),
            entries@ == registry.spec_entries(),
            data_entry_views(out@) == spec_entries_data(entries@.take(k as int)),
        decreases entries@.len() - k,
    {
        assert(entries@.take(k + 1).drop_last() =~= entries@.take(k as int));
        assert(entries@.take(k + 1).last() == entries@[k as int]);
        let e = &entries[k];
        let options = NbtOptions::new().nameless_root(true).dynamic_lists(true);
        let ghost before = out@;
        match to_bytes_with_options(e.get_raw_value(), "", options) {
            Ok(bytes) => {
                let id = e.get_registry_key().get_value().clone();
                out.push(RegistryDataEntry::new(id, bytes));
                assert(data_entry_views(out@) =~= data_entry_views(before).push(
                    ((e.spec_key().namespace@, e.spec_key().thing@), bytes@),
                ));
            },
            Err(_) => {},
        }
        k = k + 1;
        assert(data_entry_views(out@) =~= spec_entries_data(entries@.take(k as int)));
    }
    assert(entries@.take(k as int) =~= entries@);
    out
}

/// The registry data sent since 1.20.5, one packet per registry: for each
/// of the registries sent to a client of `protocol_version` (see
/// `get_registry_keys`) that is loaded in `registry_manager`, its
/// identifier and, for each entry whose NBT can be written, the entry's
/// identifier and its NBT with a nameless root.
pub fn get_registry_data_v1_20_5(
    protocol_version: ProtocolVersion,
    registry_manager: &RegistryManager,
) -> (r: Result<Vec<(Identifier, Vec<RegistryDataEntry>)>, Error>)
    ensures
        !in_range(protocol_version, ProtocolVersion::V1_20_5, ProtocolVersion::V1_21_4) ==> r
            == Err::<Vec<(Identifier, Vec<RegistryDataEntry>)>, Error>(
            Error::IncompatibleVersion {
                current: protocol_version,
                minimum: ProtocolVersion::V1_20_5,
                maximum: ProtocolVersion::V1_21_4,
            },
        ),
        in_range(protocol_version, ProtocolVersion::V1_20_5, ProtocolVersion::V1_21_4) ==> (r matches Ok(
            data,
        ) && registry_data_views(data@) == spec_registry_data(
            registry_manager.spec_registries(),
            spec_registry_keys(protocol_version),
        )),
{
    match check_version(protocol_version, ProtocolVersion::V1_20_5, latest()) {
        Ok(()) => {},
        Err(e) => return Err(e),
    }
    let keys = match get_registry_keys(protocol_version) {
        Ok(keys) => keys,
        Err(e) => return Err(e),
    };
    Ok(registry_data_for_keys(registry_manager, keys.as_slice()))
}

/// For each of `keys` whose registry is loaded, its identifier and the data
/// of its entries.
fn registry_data_for_keys(registry_manager: &RegistryManager, keys: &[RegistryKeys]) -> (r: Vec<
    (Identifier, Vec<RegistryDataEntry>),
>)
    ensures
        registry_data_views(r@) == spec_registry_data(registry_manager.spec_registries(), keys@),
{
    let mut out: Vec<(Identifier, Vec<RegistryDataEntry>)> = Vec::new();
    let mut k: usize = 0;
    while k < keys.len()
        invariant
            k <= keys@.len(),
            registry_data_views(out@) == spec_registry_data(
                registry_manager.spec_registries(),
                keys@.take(k as int),
            ),
        decreases keys@.len() - k,
    {
        assert(keys@.take(k + 1).drop_last() =~= keys@.take(k as int));
        assert(keys@.take(k + 1).last() == keys@[k as int]);
        let ghost before = out@;
        match registry_manager.try_get(&keys[k]) {
            Some(registry) => {
                let id = registry.get_registry_key().get_value().clone();
                let entries = entries_data(registry);
                out.push((id, entries));
                assert(registry_data_views(out@) =~= registry_data_views(before).push(
                    ((registry.spec_key().namespace@, registry.spec_key().thing@), data_entry_views(
                        entries@,
                    )),
                ));
            },
            None => {},
        }
        k = k + 1;
        assert(registry_data_views(out@) =~= spec_registry_data(
            registry_manager.spec_registries(),
            keys@.take(k as int),
        ));
    }
    assert(keys@.take(k as int) =~= keys@);
    out
}

} // verus!
