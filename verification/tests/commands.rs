use mcproto_rs::types::{BytesSerializer, VarInt};
use mcproto_rs::v1_16_3::{
    CommandArgumentNodeSpec, CommandLiteralNodeSpec, CommandNode, CommandNodeSpec,
    CommandParserSpec, DoubleParserProps, EntityParserFlags, FloatParserProps,
    IntegerParserProps, NumParserProps, RangeParserProps, ScoreHolderFlags, StringParserMode,
    SuggestionsTypeSpec,
};
use mcproto_rs::{Deserialize, DeserializeErr, Serialize};
use std::fmt::Debug;

fn to_bytes<S: Serialize>(value: &S) -> Vec<u8> {
    let mut test = BytesSerializer::default();
    value.mc_serialize(&mut test).expect("serialization should succeed");
    test.into_bytes()
}

fn test_type<S: Serialize + Deserialize + PartialEq + Debug>(value: S) {
    let bytes = to_bytes(&value);
    let deserialized = S::mc_deserialize(bytes.as_slice()).expect("deserialization should succeed");
    assert!(deserialized.data.is_empty());
    assert_eq!(deserialized.value, value, "deserialized value == serialized value");
    assert_eq!(to_bytes(&deserialized.value), bytes);
}

fn text(value: &str) -> Vec<u8> {
    let mut out = vec![value.len() as u8];
    out.extend_from_slice(value.as_bytes());
    out
}

#[test]
fn number_bounds_say_which_are_there() {
    let none: IntegerParserProps = NumParserProps { min: None, max: None };
    assert_eq!(to_bytes(&none), vec![0x00]);
    test_type(none);
    let least: IntegerParserProps = NumParserProps { min: Some(-1), max: None };
    assert_eq!(to_bytes(&least), vec![0x01, 0xFF, 0xFF, 0xFF, 0xFF]);
    test_type(least);
    let most: IntegerParserProps = NumParserProps { min: None, max: Some(5) };
    assert_eq!(to_bytes(&most), vec![0x02, 0, 0, 0, 5]);
    test_type(most);
    let both: FloatParserProps =
        NumParserProps { min: Some(0.5f32.to_bits()), max: Some(2.0f32.to_bits()) };
    assert_eq!(to_bytes(&both), vec![0x03, 0x3F, 0, 0, 0, 0x40, 0, 0, 0]);
    test_type(both);
    let wide: DoubleParserProps = NumParserProps { min: Some(1.0f64.to_bits()), max: None };
    assert_eq!(to_bytes(&wide), vec![0x01, 0x3F, 0xF0, 0, 0, 0, 0, 0, 0]);
    test_type(wide);
    // other bits of the flags say nothing
    let read = <IntegerParserProps>::mc_deserialize(&[0xFE, 0, 0, 0, 9, 7]).expect("decodes");
    assert_eq!(read.value, NumParserProps { min: None, max: Some(9) });
    assert_eq!(read.data, &[7]);
    assert!(matches!(<IntegerParserProps>::mc_deserialize(&[0x03, 0, 0, 0, 1]), Err(DeserializeErr::Eof)));
}

#[test]
fn root_node_is_flags_and_children() {
    let root = CommandNodeSpec {
        children_indices: vec![VarInt(1), VarInt(2)].into(),
        redirect_node: None,
        is_executable: false,
        node: CommandNode::Root,
    };
    assert_eq!(to_bytes(&root), vec![0x00, 0x02, 0x01, 0x02]);
    test_type(root);
}

#[test]
fn literal_node_carries_its_word() {
    let node = CommandNodeSpec {
        children_indices: Vec::new().into(),
        redirect_node: Some(VarInt(3)),
        is_executable: true,
        node: CommandNode::Literal(CommandLiteralNodeSpec { name: "tp".to_owned() }),
    };
    assert_eq!(to_bytes(&node), vec![0x0D, 0x00, 0x03, 0x02, b't', b'p']);
    test_type(node);
    let node = CommandNodeSpec {
        children_indices: vec![VarInt(300)].into(),
        redirect_node: None,
        is_executable: false,
        node: CommandNode::Literal(CommandLiteralNodeSpec { name: String::new() }),
    };
    assert_eq!(to_bytes(&node), vec![0x01, 0x01, 0xAC, 0x02, 0x00]);
    test_type(node);
}

#[test]
fn argument_node_says_whether_suggestions_follow() {
    let with = CommandNodeSpec {
        children_indices: Vec::new().into(),
        redirect_node: None,
        is_executable: false,
        node: CommandNode::Argument(CommandArgumentNodeSpec {
            name: "x".to_owned(),
            parser: CommandParserSpec::Integer(NumParserProps { min: Some(0), max: None }),
            suggestions_types: Some(SuggestionsTypeSpec::AskServer),
        }),
    };
    let mut expected = vec![0x12, 0x00, 0x01, b'x'];
    expected.extend(text("brigadier:integer"));
    expected.extend([0x01, 0, 0, 0, 0]);
    expected.extend(text("minecraft:ask_server"));
    assert_eq!(to_bytes(&with), expected);
    test_type(with);
    let without = CommandNodeSpec {
        children_indices: vec![VarInt(0)].into(),
        redirect_node: Some(VarInt(1)),
        is_executable: true,
        node: CommandNode::Argument(CommandArgumentNodeSpec {
            name: "who".to_owned(),
            parser: CommandParserSpec::Entity(EntityParserFlags(0x03)),
            suggestions_types: None,
        }),
    };
    let mut expected = vec![0x0E, 0x01, 0x00, 0x01, 0x03, b'w', b'h', b'o'];
    expected.extend(text("minecraft:entity"));
    expected.push(0x03);
    assert_eq!(to_bytes(&without), expected);
    test_type(without);
}

#[test]
fn flags_with_both_kind_bits_are_refused() {
    match CommandNodeSpec::mc_deserialize(&[0x03, 0x00]) {
        Err(DeserializeErr::CannotUnderstandValue(message)) => {
            assert_eq!(message, "invalid CommandNode 3")
        }
        other => panic!("expected CannotUnderstandValue, got {:?}", other.map(|d| d.value)),
    }
    match CommandNode::deserialize_with_flags(0xFF, &[]) {
        Err(DeserializeErr::CannotUnderstandValue(message)) => {
            assert_eq!(message, "invalid CommandNode 3")
        }
        other => panic!("expected CannotUnderstandValue, got {:?}", other.map(|d| d.value)),
    }
    assert!(matches!(CommandNodeSpec::mc_deserialize(&[]), Err(DeserializeErr::Eof)));
    assert!(matches!(CommandNodeSpec::mc_deserialize(&[0x08, 0x00]), Err(DeserializeErr::Eof)));
    assert!(matches!(CommandNodeSpec::mc_deserialize(&[0x01, 0x00]), Err(DeserializeErr::Eof)));
}

#[test]
fn every_kind_of_argument_round_trips() {
    assert_eq!(CommandParserSpec::variant_count(), 45);
    let parsers = vec![
        CommandParserSpec::Bool,
        CommandParserSpec::Double(NumParserProps { min: Some(0), max: Some(u64::MAX) }),
        CommandParserSpec::Float(NumParserProps { min: None, max: Some(1) }),
        CommandParserSpec::Integer(NumParserProps { min: Some(i32::MIN), max: Some(i32::MAX) }),
        CommandParserSpec::StringParser(StringParserMode::GreedyPhrase),
        CommandParserSpec::Entity(EntityParserFlags(0x01)),
        CommandParserSpec::GameProfile,
        CommandParserSpec::Vec3,
        CommandParserSpec::ScoreHolder(ScoreHolderFlags(0x01)),
        CommandParserSpec::Range(RangeParserProps { decimal: true }),
        CommandParserSpec::UUID,
        CommandParserSpec::Time,
    ];
    for parser in parsers {
        test_type(parser.clone());
        test_type(CommandNodeSpec {
            children_indices: vec![VarInt(5)].into(),
            redirect_node: None,
            is_executable: true,
            node: CommandNode::Argument(CommandArgumentNodeSpec {
                name: "arg".to_owned(),
                parser,
                suggestions_types: Some(SuggestionsTypeSpec::AvailableBiomes),
            }),
        });
    }
    assert_eq!(to_bytes(&CommandParserSpec::Time), text("minecraft:time"));
    assert_eq!(CommandParserSpec::NbtPath.name(), "minecraft:nbt_path");
    match CommandParserSpec::mc_deserialize(&text("brigadier:long")) {
        Err(DeserializeErr::CannotUnderstandValue(message)) => {
            assert_eq!(message, "invalid CommandParserSpec ident 'brigadier:long'")
        }
        other => panic!("expected CannotUnderstandValue, got {:?}", other.map(|d| d.value)),
    }
}

#[test]
fn parser_flags_read_and_set_their_bits() {
    let mut flags = EntityParserFlags::default();
    assert!(!flags.is_single_target());
    assert!(!flags.is_players_only());
    flags.set_players_only(true);
    assert_eq!(flags, EntityParserFlags(0x02));
    assert!(flags.is_players_only());
    flags.set_single_target(true);
    assert_eq!(flags, EntityParserFlags(0x03));
    test_type(flags);
    let mut holder = ScoreHolderFlags(0);
    holder.set_multiple(true);
    assert!(holder.is_multiple());
    assert_eq!(to_bytes(&holder), vec![0x01]);
    assert_eq!(to_bytes(&StringParserMode::QuotablePharse), vec![0x01]);
    assert_eq!(to_bytes(&SuggestionsTypeSpec::AllRecipes), text("minecraft:all_recipes"));
    test_type(SuggestionsTypeSpec::SummonableEntities);
}
