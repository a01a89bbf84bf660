//! Registry keys, the registry manager builder and the data that registry
//! providers hand out.
use crate::identifier::Identifier;
use vstd::prelude::*;
use vstd::std_specs::cmp::PartialEqSpecImpl;
use vstd::string::StringExecFns;

verus! {

/// The registries that the server knows by name; only the mandatory ones are
/// mapped, any other is `Custom`.
#[derive(Debug, Hash)]
pub enum RegistryKeys {
    Root,
    CatVariant,
    ChickenVariant,
    CowVariant,
    DamageType,
    DimensionType,
    FrogVariant,
    PaintingVariant,
    PigVariant,
    WolfSoundVariant,
    WolfVariant,
    Timeline,
    ZombieNautilusVariant,
    Biome,
    Custom(Identifier),
}

/// The path of the vanilla identifier of a registry key other than `Custom`.
pub open spec fn spec_registry_path(key: RegistryKeys) -> Seq<char> {
    match key {
        RegistryKeys::Root => "root"@,
        RegistryKeys::CatVariant => "cat_variant"@,
        RegistryKeys::ChickenVariant => "chicken_variant"@,
        RegistryKeys::CowVariant => "cow_variant"@,
        RegistryKeys::DamageType => "damage_type"@,
        RegistryKeys::DimensionType => "dimension_type"@,
        RegistryKeys::FrogVariant => "frog_variant"@,
        RegistryKeys::PaintingVariant => "painting_variant"@,
        RegistryKeys::PigVariant => "pig_variant"@,
        RegistryKeys::WolfSoundVariant => "wolf_sound_variant"@,
        RegistryKeys::WolfVariant => "wolf_variant"@,
        RegistryKeys::Timeline => "timeline"@,
        RegistryKeys::ZombieNautilusVariant => "zombie_nautilus_variant"@,
        RegistryKeys::Biome => "worldgen/biome"@,
        RegistryKeys::Custom(id) => id.thing@,
    }
}

/// The identifier of a registry key: `minecraft:` and its path, or the
/// identifier of a `Custom` key.
pub open spec fn spec_registry_id(key: RegistryKeys) -> (Seq<char>, Seq<char>) {
    match key {
        RegistryKeys::Custom(id) => (id.namespace@, id.thing@),
        _ => ("minecraft"@, spec_registry_path(key)),
    }
}

/// Whether a registry must be sent to clients.
pub open spec fn spec_is_mandatory(key: RegistryKeys) -> bool {
    !(key is Root || key is Custom)
}

/// The registries that a manager loads by default, in order.
pub open spec fn spec_default_registries() -> Seq<RegistryKeys> {
    seq![
        RegistryKeys::Biome,
        RegistryKeys::CatVariant,
        RegistryKeys::ChickenVariant,
        RegistryKeys::CowVariant,
        RegistryKeys::DamageType,
        RegistryKeys::DimensionType,
        RegistryKeys::FrogVariant,
        RegistryKeys::PaintingVariant,
        RegistryKeys::PigVariant,
        RegistryKeys::Timeline,
        RegistryKeys::WolfSoundVariant,
        RegistryKeys::WolfVariant,
        RegistryKeys::ZombieNautilusVariant,
    ]
}

/// The protocol number of the first version that has the registry `key`,
/// if it is sent at all: 1.16 (735), 1.16.2 (751), 1.19.4 (762), 1.20.5
/// (766), 1.21 (767), 1.21.5 (770) or 1.21.11 (774).
pub open spec fn spec_minimum_protocol(key: RegistryKeys) -> Option<u32> {
    match key {
        RegistryKeys::CatVariant | RegistryKeys::ChickenVariant | RegistryKeys::CowVariant
        | RegistryKeys::FrogVariant | RegistryKeys::PigVariant | RegistryKeys::WolfSoundVariant => Some(
            770,
        ),
        RegistryKeys::DamageType => Some(762),
        RegistryKeys::DimensionType => Some(735),
        RegistryKeys::PaintingVariant => Some(767),
        RegistryKeys::WolfVariant => Some(766),
        RegistryKeys::Timeline | RegistryKeys::ZombieNautilusVariant => Some(774),
        RegistryKeys::Biome => Some(751),
        _ => None,
    }
}

impl RegistryKeys {
    /// The identifier of this registry.
    pub fn id(&self) -> (r: Identifier)
        ensures
            (r.namespace@, r.thing@) == spec_registry_id(*self),
    {
        proof {
            reveal_strlit("minecraft");
            reveal_strlit("root");
            reveal_strlit("cat_variant");
            reveal_strlit("chicken_variant");
            reveal_strlit("cow_variant");
            reveal_strlit("damage_type");
            reveal_strlit("dimension_type");
            reveal_strlit("frog_variant");
            reveal_strlit("painting_variant");
            reveal_strlit("pig_variant");
            reveal_strlit("wolf_sound_variant");
            reveal_strlit("wolf_variant");
            reveal_strlit("timeline");
            reveal_strlit("zombie_nautilus_variant");
            reveal_strlit("worldgen/biome");
        }
        match self {
            Self::Root => Identifier::minecraft("root"),
            Self::CatVariant => Identifier::minecraft("cat_variant"),
            Self::ChickenVariant => Identifier::minecraft("chicken_variant"),
            Self::CowVariant => Identifier::minecraft("cow_variant"),
            Self::DamageType => Identifier::minecraft("damage_type"),
            Self::DimensionType => Identifier::minecraft("dimension_type"),
            Self::FrogVariant => Identifier::minecraft("frog_variant"),
            Self::PaintingVariant => Identifier::minecraft("painting_variant"),
            Self::PigVariant => Identifier::minecraft("pig_variant"),
            Self::WolfSoundVariant => Identifier::minecraft("wolf_sound_variant"),
            Self::WolfVariant => Identifier::minecraft("wolf_variant"),
            Self::Timeline => Identifier::minecraft("timeline"),
            Self::ZombieNautilusVariant => Identifier::minecraft("zombie_nautilus_variant"),
            Self::Biome => Identifier::minecraft("worldgen/biome"),
            Self::Custom(identifier) => identifier.clone(),
        }
    }

    /// The protocol number of the first version that has this registry;
    /// `None` for `Root` and `Custom`, which are never sent. Versions are
    /// given by number because some of them are newer than every
    /// `ProtocolVersion`.
    pub fn get_minimum_version(&self) -> (r: Option<u32>)
        ensures
            r == spec_minimum_protocol(*self),
    {
        match self {
            Self::CatVariant | Self::ChickenVariant | Self::CowVariant | Self::FrogVariant
            | Self::PigVariant | Self::WolfSoundVariant => Some(770),
            Self::DamageType => Some(762),
            Self::DimensionType => Some(735),
            Self::PaintingVariant => Some(767),
            Self::WolfVariant => Some(766),
            Self::Timeline | Self::ZombieNautilusVariant => Some(774),
            Self::Biome => Some(751),
            _ => None,
        }
    }

    /// Whether this registry must be sent to clients: every mapped key but
    /// `Root` and `Custom`.
    pub fn is_mandatory(&self) -> (r: bool)
        ensures
            r == spec_is_mandatory(*self),
    {
        match self {
            Self::Root | Self::Custom(_) => false,
            _ => true,
        }
    }

    pub fn is_root(&self) -> (r: bool)
        ensures
            r == (*self is Root),
    {
        matches!(self, Self::Root)
    }

    /// The path of the tags of this registry: `tags/` and the registry's path.
    pub fn get_tag_path(&self) -> (r: String)
        ensures
            r@ == "tags/"@ + spec_registry_id(*self).1,
    {
        let mut path = String::from_str("tags/");
        let id = self.id();
        path.append(id.thing.as_str());
        path
    }

    /// The text of the identifier of this registry.
    pub fn to_string(&self) -> (r: String)
        ensures
            r@ == spec_registry_id(*self).0 + seq![':'] + spec_registry_id(*self).1,
    {
        self.id().to_string()
    }
}

impl Clone for RegistryKeys {
    fn clone(&self) -> (r: Self)
        ensures
            r == *self,
    {
        match self {
            Self::Root => Self::Root,
            Self::CatVariant => Self::CatVariant,
            Self::ChickenVariant => Self::ChickenVariant,
            Self::CowVariant => Self::CowVariant,
            Self::DamageType => Self::DamageType,
            Self::DimensionType => Self::DimensionType,
            Self::FrogVariant => Self::FrogVariant,
            Self::PaintingVariant => Self::PaintingVariant,
            Self::PigVariant => Self::PigVariant,
            Self::WolfSoundVariant => Self::WolfSoundVariant,
            Self::WolfVariant => Self::WolfVariant,
            Self::Timeline => Self::Timeline,
            Self::ZombieNautilusVariant => Self::ZombieNautilusVariant,
            Self::Biome => Self::Biome,
            Self::Custom(identifier) => Self::Custom(identifier.clone()),
        }
    }
}

impl PartialEq for RegistryKeys {
    fn eq(&self, other: &Self) -> (r: bool) {
        match (self, other) {
            (Self::Custom(a), Self::Custom(b)) => a == b,
            (Self::Custom(_), _) | (_, Self::Custom(_)) => false,
            _ => self.discriminant() == other.discriminant(),
        }
    }
}

impl PartialEqSpecImpl for RegistryKeys {
    open spec fn obeys_eq_spec() -> bool {
        true
    }

    open spec fn eq_spec(&self, other: &Self) -> bool {
        match (*self, *other) {
            (RegistryKeys::Custom(a), RegistryKeys::Custom(b)) => a.namespace@ == b.namespace@
                && a.thing@ == b.thing@,
            (RegistryKeys::Custom(_), _) => false,
            (_, RegistryKeys::Custom(_)) => false,
            _ => *self == *other,
        }
    }
}

impl Eq for RegistryKeys {

}

impl RegistryKeys {
    /// The position of a mapped key among the variants.
    fn discriminant(&self) -> (r: u8)
        ensures
            forall|other: RegistryKeys|
                !(other is Custom) && !(*self is Custom) ==> (r == #[trigger] discriminant_of(
                    other,
                ) <==> other == *self),
            r == discriminant_of(*self),
    {
        match self {
            Self::Root => 0,
            Self::CatVariant => 1,
            Self::ChickenVariant => 2,
            Self::CowVariant => 3,
            Self::DamageType => 4,
            Self::DimensionType => 5,
            Self::FrogVariant => 6,
            Self::PaintingVariant => 7,
            Self::PigVariant => 8,
            Self::WolfSoundVariant => 9,
            Self::WolfVariant => 10,
            Self::Timeline => 11,
            Self::ZombieNautilusVariant => 12,
            Self::Biome => 13,
            Self::Custom(_) => 255,
        }
    }
}

/// The position of a key among the variants.
pub open spec fn discriminant_of(key: RegistryKeys) -> u8 {
    match key {
        RegistryKeys::Root => 0,
        RegistryKeys::CatVariant => 1,
        RegistryKeys::ChickenVariant => 2,
        RegistryKeys::CowVariant => 3,
        RegistryKeys::DamageType => 4,
        RegistryKeys::DimensionType => 5,
        RegistryKeys::FrogVariant => 6,
        RegistryKeys::PaintingVariant => 7,
        RegistryKeys::PigVariant => 8,
        RegistryKeys::WolfSoundVariant => 9,
        RegistryKeys::WolfVariant => 10,
        RegistryKeys::Timeline => 11,
        RegistryKeys::ZombieNautilusVariant => 12,
        RegistryKeys::Biome => 13,
        RegistryKeys::Custom(_) => 255,
    }
}

/// The default set of registries that a manager loads.
pub fn default_registries() -> (r: Vec<RegistryKeys>)
    ensures
        r@ == spec_default_registries(),
{
    let mut keys: Vec<RegistryKeys> = Vec::new();
    keys.push(RegistryKeys::Biome);
    keys.push(RegistryKeys::CatVariant);
    keys.push(RegistryKeys::ChickenVariant);
    keys.push(RegistryKeys::CowVariant);
    keys.push(RegistryKeys::DamageType);
    keys.push(RegistryKeys::DimensionType);
    keys.push(RegistryKeys::FrogVariant);
    keys.push(RegistryKeys::PaintingVariant);
    keys.push(RegistryKeys::PigVariant);
    keys.push(RegistryKeys::Timeline);
    keys.push(RegistryKeys::WolfSoundVariant);
    keys.push(RegistryKeys::WolfVariant);
    keys.push(RegistryKeys::ZombieNautilusVariant);
    assert(keys@ =~= spec_default_registries());
    keys
}

/// Collects the registries that a registry manager will load.
pub struct RegistryManagerBuilder {
    registry_keys: Vec<RegistryKeys>,
}

impl RegistryManagerBuilder {
    /// The keys registered so far, in order.
    pub closed spec fn spec_keys(&self) -> Seq<RegistryKeys> {
        self.registry_keys@
    }

    pub fn new() -> (r: Self)
        ensures
            r.spec_keys() == Seq::<RegistryKeys>::empty(),
    {
        Self { registry_keys: Vec::new() }
    }

    /// Registers a single registry key.
    pub fn register(self, key: RegistryKeys) -> (r: Self)
        ensures
            r.spec_keys() == self.spec_keys().push(key),
    {
        let mut s = self;
        s.registry_keys.push(key);
        s
    }

    /// Registers several registry keys at once, in order.
    pub fn register_all(self, keys: &[RegistryKeys]) -> (r: Self)
        ensures
            r.spec_keys() == self.spec_keys() + keys@,
    {
        let mut s = self;
        let mut i: usize = 0;
        while i < keys.len()
            invariant
                i <= keys@.len(),
                s.spec_keys() == self.spec_keys() + keys@.take(i as int),
            decreases keys@.len() - i,
        {
            s.registry_keys.push(keys[i].clone());
            i = i + 1;
            assert(s.spec_keys() =~= self.spec_keys() + keys@.take(i as int));
        }
        assert(keys@.take(i as int) =~= keys@);
        s
    }

    /// Registers the default set of registry keys.
    pub fn with_defaults(self) -> (r: Self)
        ensures
            r.spec_keys() == self.spec_keys() + spec_default_registries(),
    {
        let defaults = default_registries();
        self.register_all(defaults.as_slice())
    }

    /// The keys registered so far, in order.
    pub fn registry_keys(&self) -> (r: &Vec<RegistryKeys>)
        ensures
            r@ == self.spec_keys(),
    {
        &self.registry_keys
    }
}

impl Default for RegistryManagerBuilder {
    fn default() -> (r: Self)
        ensures
            r.spec_keys() == Seq::<RegistryKeys>::empty(),
    {
        Self::new()
    }
}

/// The three vanilla dimensions.
#[derive(Debug, Clone, Copy, PartialEq, Eq, Structural)]
pub enum Dimension {
    Overworld,
    TheNether,
    TheEnd,
}

/// The path of the vanilla identifier of a dimension.
pub open spec fn spec_dimension_path(d: Dimension) -> Seq<char> {
    match d {
        Dimension::Overworld => "overworld"@,
        Dimension::TheNether => "the_nether"@,
        Dimension::TheEnd => "the_end"@,
    }
}

impl Dimension {
    /// The identifier of this dimension, in the `minecraft` namespace.
    pub fn identifier(&self) -> (r: Identifier)
        ensures
            r.namespace@ == "minecraft"@,
            r.thing@ == spec_dimension_path(*self),
    {
        proof {
            reveal_strlit("overworld");
            reveal_strlit("the_nether");
            reveal_strlit("the_end");
        }
        match self {
            Self::Overworld => Identifier::minecraft("overworld"),
            Self::TheNether => Identifier::minecraft("the_nether"),
            Self::TheEnd => Identifier::minecraft("the_end"),
        }
    }
}

/// One entry of a registry as sent since 1.20.5: its identifier and its
/// nameless NBT.
pub struct RegistryDataEntry {
    pub entry_id: Identifier,
    pub nbt_bytes: Vec<u8>,
}

impl RegistryDataEntry {
    pub fn new(entry_id: Identifier, nbt_bytes: Vec<u8>) -> (r: Self)
        ensures
            r.entry_id == entry_id,
            r.nbt_bytes == nbt_bytes,
    {
        Self { entry_id, nbt_bytes }
    }
}

/// What the server needs to know of a dimension type.
#[derive(Debug)]
pub struct DimensionInfo {
    pub height: i32,
    pub min_y: i32,
    pub protocol_id: u32,
    pub registry_key: Identifier,
}

/// A dimension type as the registry tool prints it.
#[derive(Debug)]
pub struct DimensionType {
    height: i32,
    min_y: i32,
    protocol_id: u32,
    registry_key: Identifier,
}

} // verus!
