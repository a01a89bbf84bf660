use pico_limbo::inventory::item_registry_from_report;
use pico_limbo::nbt::json::{JsonNumber, JsonValue};
use pico_limbo::world::{find_largest_internal_id, BlockIds};
use pico_limbo::configuration::{FloodgateConfig, PickItemConfig};
use pico_limbo::inventory::{
    item_id, item_identifier_candidates, pick_item_update, push_unique, resolve_item_id_for_block,
    InvalidHotbarSlot, Inventory, PickedItem, SlotUpdate,
};

#[test]
fn hotbar_selection_accepts_only_slots_zero_to_eight() {
    let mut inv = Inventory::default();
    assert_eq!(inv.current_slot(), 0);
    assert_eq!(inv.select_hotbar_slot(8), Ok(()));
    assert_eq!(inv.current_slot(), 8);
    assert_eq!(inv.select_hotbar_slot(9), Err(InvalidHotbarSlot));
    assert_eq!(inv.select_hotbar_slot(-1), Err(InvalidHotbarSlot));
    assert_eq!(inv.current_slot(), 8);
    inv.set_current_slot(3);
    assert_eq!(inv.clone().current_slot(), 3);
}

#[test]
fn candidates_for_blocks() {
    assert_eq!(item_identifier_candidates("minecraft:stone"), vec!["minecraft:stone"]);
    assert_eq!(
        item_identifier_candidates("minecraft:potted_oak_sapling"),
        vec!["minecraft:potted_oak_sapling", "minecraft:oak_sapling"]
    );
    assert_eq!(
        item_identifier_candidates("minecraft:wall_torch"),
        vec!["minecraft:wall_torch"]
    );
    assert_eq!(
        item_identifier_candidates("minecraft:redstone_wall_torch"),
        vec!["minecraft:redstone_wall_torch", "minecraft:redstone_torch"]
    );
    assert_eq!(
        item_identifier_candidates("minecraft:oak_wall_hanging_sign"),
        vec!["minecraft:oak_wall_hanging_sign", "minecraft:oak_hanging_sign"]
    );
    assert_eq!(
        item_identifier_candidates("minecraft:oak_wall_sign"),
        vec!["minecraft:oak_wall_sign", "minecraft:oak_sign"]
    );
    assert_eq!(
        item_identifier_candidates("minecraft:zombie_wall_head"),
        vec!["minecraft:zombie_wall_head", "minecraft:zombie_head"]
    );
    assert_eq!(
        item_identifier_candidates("minecraft:skeleton_wall_skull"),
        vec!["minecraft:skeleton_wall_skull", "minecraft:skeleton_skull"]
    );
    // `replacen` replaces the first occurrence.
    assert_eq!(
        item_identifier_candidates("x:wall_head_wall_head"),
        vec!["x:wall_head_wall_head", "x:head_wall_head"]
    );
}

#[test]
fn push_unique_skips_duplicates() {
    let mut v = vec!["a".to_string()];
    push_unique(&mut v, "b".to_string());
    push_unique(&mut v, "a".to_string());
    assert_eq!(v, vec!["a", "b"]);
}

#[test]
fn resolves_the_first_known_candidate() {
    let registry = vec![
        ("minecraft:oak_sign".to_string(), 900),
        ("minecraft:oak_wall_sign".to_string(), 901),
        ("minecraft:redstone_torch".to_string(), 12),
    ];
    assert_eq!(item_id(&registry, "minecraft:oak_sign"), Some(900));
    assert_eq!(item_id(&registry, "minecraft:nothing"), None);
    assert_eq!(resolve_item_id_for_block(&registry, "minecraft:oak_wall_sign"), Some(901));
    assert_eq!(resolve_item_id_for_block(&registry, "minecraft:redstone_wall_torch"), Some(12));
    assert_eq!(resolve_item_id_for_block(&registry, "minecraft:stone"), None);
}

#[test]
fn pick_item_updates() {
    let off = PickItemConfig::default();
    assert!(!off.enabled);
    assert_eq!(off.stack_size, 1);
    assert_eq!(pick_item_update(&off, 2, true, Some(5)), None);
    let on = PickItemConfig { enabled: true, stack_size: 64 };
    assert_eq!(pick_item_update(&on, 2, false, Some(5)), Some(SlotUpdate { slot: None, item: None }));
    assert_eq!(
        pick_item_update(&on, 2, true, Some(5)),
        Some(SlotUpdate { slot: Some(2), item: Some(PickedItem { id: 5, count: 64 }) })
    );
    assert_eq!(pick_item_update(&on, 4, true, None), Some(SlotUpdate { slot: Some(4), item: None }));
}

#[test]
fn floodgate_settings_defaults() {
    let c = FloodgateConfig::default();
    assert!(!c.enabled);
    assert_eq!(c.key_file, "key.pem");
    assert_eq!(c.username_prefix, ".");
    assert!(c.replace_spaces);
    assert!(!c.education);
}

#[test]
fn item_registry_from_a_report() {
    let obj = |es: Vec<(&str, JsonValue)>| JsonValue::Object(es.into_iter().map(|(k, v)| (k.to_string(), v)).collect());
    let id = |i: i64| obj(vec![("protocol_id", JsonValue::Number(JsonNumber::Int(i)))]);
    let report = obj(vec![
        ("minecraft:block", obj(vec![])),
        (
            "minecraft:item",
            obj(vec![(
                "entries",
                obj(vec![
                    ("minecraft:stone", id(1)),
                    ("minecraft:too_big", id(1 << 40)),
                    ("minecraft:no_id", obj(vec![])),
                    ("minecraft:dirt", id(28)),
                ]),
            )]),
        ),
    ]);
    assert_eq!(
        item_registry_from_report(&report),
        Some(vec![("minecraft:stone".to_string(), 1), ("minecraft:dirt".to_string(), 28)])
    );
    assert_eq!(item_registry_from_report(&obj(vec![])), None);
    assert_eq!(item_registry_from_report(&obj(vec![("minecraft:item", obj(vec![("entries", JsonValue::Null)]))])), None);
}

#[test]
fn largest_internal_id() {
    assert_eq!(find_largest_internal_id(&[]), 0);
    let blocks = vec![
        BlockIds { default_internal_id: 3, state_ids: vec![1, 2, 3] },
        BlockIds { default_internal_id: 10, state_ids: vec![] },
        BlockIds { default_internal_id: 4, state_ids: vec![4, 17, 5] },
    ];
    assert_eq!(find_largest_internal_id(&blocks), 17);
}
