use pico_limbo::registry_provider::encode_nameless_compound_to_bytes;
use pico_limbo::registry_provider::get_dimension_codec_v1_16_2;
use pico_limbo::registry_provider::get_registry_codec_bytes_v1_16;
use pico_limbo::registry_provider::{get_registry_data_v1_20_5, get_registry_keys};
use pico_limbo::identifier::Identifier;
use pico_limbo::nbt::value::Value;
use pico_limbo::protocol_version::ProtocolVersion;
use pico_limbo::registries::{default_registries, Dimension, RegistryKeys, RegistryManagerBuilder};
use pico_limbo::registry_data::{
    get_biome_protocol_id, get_dimension, get_dimension_info, DimensionType, Error, Registry,
    RegistryEntry, RegistryEntryError, RegistryEntryValue, RegistryKey, RegistryManager,
};

fn entry(path: &str, value: RegistryEntryValue, id: u32) -> RegistryEntry {
    RegistryEntry::new(value, Value::Byte(0), RegistryKey::new(Identifier::minecraft(path)), id)
}

fn dimension_registry() -> Registry {
    Registry::new(
        RegistryKey::new(Identifier::minecraft("dimension_type")),
        vec![
            entry("overworld", RegistryEntryValue::DimensionType(DimensionType { height: 384, min_height: -64 }), 0),
            entry("the_nether", RegistryEntryValue::DimensionType(DimensionType { height: 256, min_height: 0 }), 1),
            entry("odd", RegistryEntryValue::Other, 2),
        ],
    )
}

fn biome_registry(plains_id: u32) -> Registry {
    Registry::new(
        RegistryKey::new(Identifier::minecraft("worldgen/biome")),
        vec![entry("plains", RegistryEntryValue::Other, plains_id)],
    )
}

#[test]
fn registry_key_identifiers() {
    assert_eq!(RegistryKeys::Biome.id(), Identifier::minecraft("worldgen/biome"));
    assert_eq!(RegistryKeys::DimensionType.to_string(), "minecraft:dimension_type");
    assert_eq!(RegistryKeys::WolfVariant.get_tag_path(), "tags/wolf_variant");
    assert!(RegistryKeys::Timeline.is_mandatory());
    assert!(!RegistryKeys::Root.is_mandatory());
    assert!(RegistryKeys::Root.is_root());
    let custom = RegistryKeys::Custom(Identifier::new("pico", "thing"));
    assert!(!custom.is_mandatory());
    assert_eq!(custom.id(), Identifier::new("pico", "thing"));
    assert_eq!(custom.clone(), custom);
    assert_ne!(custom, RegistryKeys::Root);
}

#[test]
fn builder_keeps_keys_in_order() {
    let b = RegistryManager::builder()
        .register(RegistryKeys::Biome)
        .register_all(&[RegistryKeys::DimensionType, RegistryKeys::Root]);
    assert_eq!(b.registry_keys(), &vec![RegistryKeys::Biome, RegistryKeys::DimensionType, RegistryKeys::Root]);
    let d = RegistryManagerBuilder::default().with_defaults();
    assert_eq!(d.registry_keys(), &default_registries());
    assert_eq!(default_registries().len(), 13);
    assert_eq!(default_registries()[0], RegistryKeys::Biome);
}

#[test]
fn manager_lookups() {
    let manager = RegistryManager::from_loaded(vec![
        (RegistryKeys::Biome, biome_registry(1)),
        (RegistryKeys::DimensionType, dimension_registry()),
        (RegistryKeys::Biome, biome_registry(40)),
    ]);
    assert_eq!(get_biome_protocol_id(&manager, &Identifier::minecraft("plains")), Some(40));
    assert_eq!(get_biome_protocol_id(&manager, &Identifier::minecraft("desert")), None);
    let info = get_dimension_info(&manager, &Identifier::minecraft("overworld")).unwrap();
    assert_eq!((info.height, info.min_y, info.protocol_id), (384, -64, 0));
    assert_eq!(info.registry_key, Identifier::minecraft("overworld"));
    assert!(get_dimension_info(&manager, &Identifier::minecraft("odd")).is_none());
    assert!(get_dimension_info(&manager, &Identifier::minecraft("missing")).is_none());
    let nether = get_dimension(&manager, &Dimension::TheNether.identifier()).unwrap();
    assert_eq!(nether.get_protocol_id(), 1);
    assert_eq!(nether.get_dimension().unwrap().get_height(), 256);
    assert!(matches!(
        get_dimension(&manager, &Dimension::TheEnd.identifier()),
        Err(Error::UnknownRegistryEntry(id)) if id == Identifier::minecraft("the_end")
    ));
    assert!(matches!(manager.get(&RegistryKeys::Timeline), Err(Error::UnknownRegistry(RegistryKeys::Timeline))));
    assert!(manager.get_optional(&RegistryKeys::Biome).is_some());
}

#[test]
fn entries_of_the_wrong_kind() {
    let e = entry("x", RegistryEntryValue::Other, 9);
    assert_eq!(e.get_dimension().unwrap_err(), RegistryEntryError::NotOfType);
    assert_eq!(e.get_registry_key().get_value(), &Identifier::minecraft("x"));
    assert_eq!(e.get_raw_value(), &Value::Byte(0));
}

#[test]
fn version_ranges() {
    assert!(Error::incompatible_version(ProtocolVersion::V1_20, ProtocolVersion::V1_16, ProtocolVersion::V1_21_4).is_ok());
    assert!(Error::incompatible_version(ProtocolVersion::V1_16, ProtocolVersion::V1_16, ProtocolVersion::V1_16).is_ok());
    assert!(matches!(
        Error::incompatible_version(ProtocolVersion::V1_15, ProtocolVersion::V1_16, ProtocolVersion::V1_21_4),
        Err(Error::IncompatibleVersion { .. })
    ));
}

#[test]
fn dimension_identifiers() {
    assert_eq!(Dimension::Overworld.identifier().to_string(), "minecraft:overworld");
    assert_eq!(Dimension::TheNether.identifier().to_string(), "minecraft:the_nether");
    assert_eq!(Dimension::TheEnd.identifier().to_string(), "minecraft:the_end");
}

fn codec_manager() -> RegistryManager {
    let overworld = Value::Compound(vec![("height".to_string(), Value::Int(384))]);
    let registry = Registry::new(
        RegistryKey::new(Identifier::minecraft("dimension_type")),
        vec![RegistryEntry::new(
            RegistryEntryValue::DimensionType(DimensionType { height: 384, min_height: -64 }),
            overworld,
            RegistryKey::new(Identifier::minecraft("overworld")),
            0,
        )],
    );
    RegistryManager::from_loaded(vec![(RegistryKeys::DimensionType, registry)])
}

#[test]
fn nameless_roots_from_1_20_2() {
    let v = Value::Compound(vec![]);
    assert_eq!(encode_nameless_compound_to_bytes(ProtocolVersion::V1_20_2, &v).unwrap(), vec![10, 0]);
    assert_eq!(encode_nameless_compound_to_bytes(ProtocolVersion::V1_20, &v).unwrap(), vec![10, 0, 0, 0]);
}

#[test]
fn dimension_codec_for_supported_versions() {
    let manager = codec_manager();
    let bytes = get_dimension_codec_v1_16_2(ProtocolVersion::V1_17, &manager, &Dimension::Overworld).unwrap();
    let (name, value) = pico_limbo::nbt::reader::from_slice(&bytes).unwrap();
    assert_eq!(name, "");
    assert_eq!(value, Value::Compound(vec![("height".to_string(), Value::Int(384))]));
    assert!(matches!(
        get_dimension_codec_v1_16_2(ProtocolVersion::V1_19, &manager, &Dimension::Overworld),
        Err(Error::IncompatibleVersion { .. })
    ));
    assert!(matches!(
        get_dimension_codec_v1_16_2(ProtocolVersion::V1_17, &manager, &Dimension::TheEnd),
        Err(Error::UnknownRegistryEntry(_))
    ));
}

#[test]
fn registry_codec_of_1_16() {
    let bytes = get_registry_codec_bytes_v1_16(ProtocolVersion::V1_16, &codec_manager()).unwrap();
    let (_, value) = pico_limbo::nbt::reader::from_slice(&bytes).unwrap();
    let expected = Value::Compound(vec![(
        "dimension".to_string(),
        Value::List(vec![Value::Compound(vec![
            ("name".to_string(), Value::String("minecraft:overworld".to_string())),
            ("height".to_string(), Value::Int(384)),
        ])]),
    )]);
    assert_eq!(value, expected);
    assert!(matches!(
        get_registry_codec_bytes_v1_16(ProtocolVersion::V1_16_2, &codec_manager()),
        Err(Error::IncompatibleVersion { .. })
    ));
    let empty = RegistryManager::from_loaded(vec![]);
    assert!(matches!(
        get_registry_codec_bytes_v1_16(ProtocolVersion::V1_16, &empty),
        Err(Error::UnknownRegistry(RegistryKeys::DimensionType))
    ));
}

#[test]
fn registry_data_since_1_20_5() {
    let manager = codec_manager();
    let data = get_registry_data_v1_20_5(ProtocolVersion::V1_21_4, &manager).unwrap();
    assert_eq!(data.len(), 1);
    assert_eq!(data[0].0, Identifier::minecraft("dimension_type"));
    assert_eq!(data[0].1.len(), 1);
    assert_eq!(data[0].1[0].entry_id, Identifier::minecraft("overworld"));
    assert_eq!(data[0].1[0].nbt_bytes, vec![10, 3, 0, 6, b'h', b'e', b'i', b'g', b'h', b't', 0, 0, 1, 0x80, 0]);
    assert!(matches!(
        get_registry_data_v1_20_5(ProtocolVersion::V1_20_3, &manager),
        Err(Error::IncompatibleVersion { .. })
    ));
}

#[test]
fn registry_keys_per_version() {
    assert_eq!(get_registry_keys(ProtocolVersion::V1_16).unwrap(), vec![RegistryKeys::DimensionType]);
    assert_eq!(
        get_registry_keys(ProtocolVersion::V1_16_2).unwrap(),
        vec![RegistryKeys::Biome, RegistryKeys::DimensionType]
    );
    assert_eq!(
        get_registry_keys(ProtocolVersion::V1_21_4).unwrap(),
        vec![
            RegistryKeys::Biome,
            RegistryKeys::DamageType,
            RegistryKeys::DimensionType,
            RegistryKeys::PaintingVariant,
            RegistryKeys::WolfVariant,
        ]
    );
    assert!(matches!(
        get_registry_keys(ProtocolVersion::V1_15_2),
        Err(Error::IncompatibleVersion { .. })
    ));
}

#[test]
fn registry_minimum_versions() {
    assert_eq!(RegistryKeys::DimensionType.get_minimum_version(), Some(735));
    assert_eq!(RegistryKeys::Biome.get_minimum_version(), Some(751));
    assert_eq!(RegistryKeys::CatVariant.get_minimum_version(), Some(770));
    assert_eq!(RegistryKeys::Timeline.get_minimum_version(), Some(774));
    assert_eq!(RegistryKeys::Root.get_minimum_version(), None);
}
