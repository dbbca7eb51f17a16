use mcproto_rs::types::{BytesSerializer, ItemStack, Slot, VarInt};
use mcproto_rs::v1_16_3::{
    Recipe, RecipeCraftingShapedSpec, RecipeCraftingShapelessSpec, RecipeIngredient,
    RecipeSmeltingSpec, RecipeSmithingSpec, RecipeSpec, RecipeStonecuttingSpec,
};
use mcproto_rs::{Deserialize, DeserializeErr, Serialize};
use std::fmt::Debug;

fn to_bytes<S: Serialize>(value: &S) -> Vec<u8> {
    let mut test = BytesSerializer::default();
    value.mc_serialize(&mut test).expect("serialization should succeed");
    test.into_bytes()
}

fn test_type<S: Serialize + Deserialize + PartialEq + Debug>(value: S) {
    let bytes = to_bytes(&value);
    let deserialized = S::mc_deserialize(bytes.as_slice()).expect("deserialization should succeed");
    assert!(deserialized.data.is_empty());
    assert_eq!(deserialized.value, value, "deserialized value == serialized value");
    assert_eq!(to_bytes(&deserialized.value), bytes);
}

fn text(value: &str) -> Vec<u8> {
    let mut out = vec![value.len() as u8];
    out.extend_from_slice(value.as_bytes());
    out
}

fn stack(item_id: i32, item_count: i8) -> Slot {
    Some(ItemStack { item_id: VarInt(item_id), item_count, nbt: None })
}

fn ingredient(items: Vec<Slot>) -> RecipeIngredient {
    RecipeIngredient { items: items.into() }
}

#[test]
fn recipe_kind_comes_before_the_name() {
    let recipe = RecipeSpec { recipe: Recipe::CraftingArmorDye, id: "dye".to_owned() };
    let mut expected = text("minecraft:crafting_special_armordye");
    expected.extend(text("dye"));
    assert_eq!(to_bytes(&recipe), expected);
    assert_eq!(recipe.recipe.id(), "minecraft:crafting_special_armordye");
    assert_eq!(recipe.recipe.name(), "minecraft:crafting_special_armordye");
    test_type(recipe);
    let recipe = RecipeSpec {
        recipe: Recipe::StoneCutting(RecipeStonecuttingSpec {
            group: "g".to_owned(),
            ingredient: ingredient(vec![stack(1, 1)]),
            result: stack(2, 3),
        }),
        id: "minecraft:slab".to_owned(),
    };
    let mut expected = text("minecraft:stonecutting");
    expected.extend(text("minecraft:slab"));
    expected.extend(text("g"));
    expected.extend([0x01, 0x01, 0x01, 0x01, 0x00]); // one stack: present, item 1, count 1, no tag
    expected.extend([0x01, 0x02, 0x03, 0x00]);
    assert_eq!(to_bytes(&recipe), expected);
    test_type(recipe);
}

#[test]
fn every_kind_of_recipe_round_trips() {
    assert_eq!(Recipe::variant_count(), 22);
    let smelting = RecipeSmeltingSpec {
        group: "ores".to_owned(),
        ingredient: ingredient(vec![stack(14, 1), stack(15, 1)]),
        result: stack(265, 1),
        experience: 0.7f32.to_bits(),
        cooking_time: VarInt(200),
    };
    let recipes = vec![
        Recipe::CraftingShapeless(RecipeCraftingShapelessSpec {
            group: String::new(),
            ingredients: vec![ingredient(vec![stack(5, 1)]), ingredient(Vec::new())].into(),
            result: stack(6, 4),
        }),
        Recipe::CraftingShaped(RecipeCraftingShapedSpec {
            width: VarInt(2),
            height: VarInt(1),
            group: "planks".to_owned(),
            ingredients: vec![ingredient(vec![stack(5, 1)]), ingredient(vec![None])],
            result: None,
        }),
        Recipe::CraftingBookCloning,
        Recipe::CraftingMapCloning,
        Recipe::CraftingMapExtending,
        Recipe::CraftingFireworkRocket,
        Recipe::CraftingFireworkStar,
        Recipe::CraftingFireworkStarFade,
        Recipe::CraftingRepairItem,
        Recipe::CraftingTippedArrow,
        Recipe::CraftingBannerDuplicate,
        Recipe::CraftingBannerAddPattern,
        Recipe::CraftingShieldDecoration,
        Recipe::CraftingShulkerBoxColoring,
        Recipe::CraftingSuspiciousStew,
        Recipe::Smelting(smelting.clone()),
        Recipe::Blasting(smelting.clone()),
        Recipe::Smoking(smelting.clone()),
        Recipe::CampfireCooking(smelting),
        Recipe::Smithing(RecipeSmithingSpec {
            base: ingredient(vec![stack(1, 1)]),
            addition: ingredient(vec![stack(2, 1)]),
            result: stack(3, 1),
        }),
    ];
    for recipe in recipes {
        test_type(recipe.clone());
        test_type(RecipeSpec { recipe, id: "some:name".to_owned() });
    }
}

#[test]
fn shaped_recipe_has_an_ingredient_for_each_cell() {
    let shaped = RecipeCraftingShapedSpec {
        width: VarInt(2),
        height: VarInt(2),
        group: String::new(),
        ingredients: vec![
            ingredient(vec![stack(1, 1)]),
            ingredient(Vec::new()),
            ingredient(vec![None]),
            ingredient(vec![stack(2, 2), stack(3, 3)]),
        ],
        result: stack(9, 1),
    };
    assert_eq!(
        to_bytes(&shaped),
        vec![
            0x02, 0x02, 0x00, // width, height, group
            0x01, 0x01, 0x01, 0x01, 0x00, // one stack
            0x00, // none
            0x01, 0x00, // one empty slot
            0x02, 0x01, 0x02, 0x02, 0x00, 0x01, 0x03, 0x03, 0x00, // two stacks
            0x01, 0x09, 0x01, 0x00, // result
        ]
    );
    test_type(shaped);
    // no cells: the result follows the group at once
    let empty = RecipeCraftingShapedSpec {
        width: VarInt(0),
        height: VarInt(7),
        group: "x".to_owned(),
        ingredients: Vec::new(),
        result: None,
    };
    assert_eq!(to_bytes(&empty), vec![0x00, 0x07, 0x01, b'x', 0x00]);
    test_type(empty);
    // three cells announced, two there
    let bytes = vec![0x03, 0x01, 0x00, 0x00, 0x00];
    assert!(matches!(
        RecipeCraftingShapedSpec::mc_deserialize(&bytes),
        Err(DeserializeErr::Eof)
    ));
    // a width below zero counts as more cells than any input holds
    let bytes = vec![0xFF, 0xFF, 0xFF, 0xFF, 0x0F, 0x01, 0x00, 0x00, 0x00];
    assert!(matches!(
        RecipeCraftingShapedSpec::mc_deserialize(&bytes),
        Err(DeserializeErr::Eof)
    ));
}

#[test]
fn recipe_of_no_known_kind_is_refused() {
    let mut bytes = text("minecraft:brewing");
    bytes.extend(text("potion"));
    match RecipeSpec::mc_deserialize(&bytes) {
        Err(DeserializeErr::CannotUnderstandValue(message)) => {
            assert_eq!(message, "invalid Recipe ident 'minecraft:brewing'")
        }
        other => panic!("expected CannotUnderstandValue, got {:?}", other.map(|d| d.value)),
    }
    match Recipe::mc_deserialize(&text("Minecraft:smelting")) {
        Err(DeserializeErr::CannotUnderstandValue(message)) => {
            assert_eq!(message, "invalid Recipe ident 'Minecraft:smelting'")
        }
        other => panic!("expected CannotUnderstandValue, got {:?}", other.map(|d| d.value)),
    }
    assert!(matches!(RecipeSpec::mc_deserialize(&text("minecraft:smelting")), Err(DeserializeErr::Eof)));
    let read = Recipe::deserialize_with_id("minecraft:crafting_special_repairitem", &[1, 2])
        .expect("decodes");
    assert_eq!(read.value, Recipe::CraftingRepairItem);
    assert_eq!(read.data, &[1, 2]);
}
