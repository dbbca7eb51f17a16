use mcproto_rs::types::{BytesSerializer, ChunkPosition, ItemStack, VarInt, VarLong, Vec2, Vec3};
use mcproto_rs::uuid::UUID4;
use mcproto_rs::v1_16_3::{
    AdvancementDisplayFlags, AdvancementDisplaySpec, AdvancementFrameType, AdvancementSpec,
    AdvancementTabAction, BossBarAction, BossBarAddSpec, BossBarColor, BossBarDivision,
    BossBarFlags, BossBarUpdateStyleSpec, ClientDisplayedSkinParts, CombatEndSpec,
    CombatEntityDeadSpec, CombatEvent, DemoEvent, EntityPropertyModifierOperation,
    EntityPropertyModifierSpec, EntityPropertySpec, GameMode, Hand, InteractAtSpec, InteractKind,
    MapIconSpec, MapIconType, PlayerAddActionSpec, PlayerAddProperty, PlayerInfoAction,
    PlayerInfoActionList, ScoreboardObjectiveAction, ScoreboardObjectiveKind,
    ScoreboardObjectiveSpec, Statistic, StatisticCategory, StatisticKind, TabCompleteMatch,
    TeamAction, TeamActionCreateSpec, TeamActionPlayerList, TeamCollisionRule,
    TeamFriendlyFlags, TeamMember, TeamTagNameVisibility, TitleActionSpec, TitleTimesSpec,
    TradeSpec, WorldBorderAction, WorldBorderInitiaializeSpec, WorldBorderSetSizeSpec,
};
use mcproto_rs::{Deserialize, DeserializeErr, Serialize};
use std::fmt::Debug;

fn to_bytes<S: Serialize>(value: &S) -> Vec<u8> {
    let mut test = BytesSerializer::default();
    value.mc_serialize(&mut test).expect("serialization should succeed");
    test.into_bytes()
}

fn test_type<S: Serialize + Deserialize + PartialEq + Debug>(value: S) {
    let bytes = to_bytes(&value);
    let deserialized = S::mc_deserialize(bytes.as_slice()).expect("deserialization should succeed");
    assert!(deserialized.data.is_empty());
    assert_eq!(deserialized.value, value, "deserialized value == serialized value");
    assert_eq!(to_bytes(&deserialized.value), bytes);
}

fn text(value: &str) -> Vec<u8> {
    let mut out = vec![value.len() as u8];
    out.extend_from_slice(value.as_bytes());
    out
}

#[test]
fn boss_bar_actions_round_trip() {
    let add = BossBarAction::Add(BossBarAddSpec {
        title: "{\"text\":\"boss\"}".to_owned(),
        health: 0.5f32.to_bits(),
        color: BossBarColor::Red,
        division: BossBarDivision::TenNotches,
        flags: BossBarFlags(0x05),
    });
    let mut expected = vec![0x00];
    expected.extend(text("{\"text\":\"boss\"}"));
    expected.extend([0x3F, 0x00, 0x00, 0x00, 0x02, 0x02, 0x05]);
    assert_eq!(to_bytes(&add), expected);
    assert_eq!(add.id(), VarInt(0));
    assert_eq!(add.name(), "Add");
    test_type(add);
    assert_eq!(to_bytes(&BossBarAction::Remove), vec![0x01]);
    test_type(BossBarAction::Remove);
    test_type(BossBarAction::UpdateStyle(BossBarUpdateStyleSpec {
        color: BossBarColor::White,
        dividers: BossBarDivision::NoDivision,
    }));
    assert_eq!(BossBarAction::variant_count(), 6);
    match BossBarAction::mc_deserialize(&[0x06]) {
        Err(DeserializeErr::CannotUnderstandValue(message)) => {
            assert_eq!(message, "invalid BossBarAction 6")
        }
        other => panic!("expected CannotUnderstandValue, got {:?}", other.map(|d| d.value)),
    }
    match BossBarColor::mc_deserialize(&[0xFF, 0xFF, 0xFF, 0xFF, 0x0F]) {
        Err(DeserializeErr::CannotUnderstandValue(message)) => {
            assert_eq!(message, "invalid BossBarColor -1")
        }
        other => panic!("expected CannotUnderstandValue, got {:?}", other.map(|d| d.value)),
    }
}

#[test]
fn flags_read_and_set_their_bits() {
    let mut flags = BossBarFlags::default();
    assert_eq!(flags, BossBarFlags(0));
    assert!(!flags.is_darken_sky());
    flags.set_darken_sky(true);
    assert!(flags.is_darken_sky());
    flags.set_create_fog(true);
    assert_eq!(flags, BossBarFlags(0x05));
    assert!(!flags.is_dragon_bar());
    assert!(flags.is_create_fog());
    // setting a flag again leaves it set
    flags.set_create_fog(true);
    assert_eq!(flags, BossBarFlags(0x05));
    // clearing turns the bit over
    flags.set_darken_sky(false);
    assert_eq!(flags, BossBarFlags(0x04));
    flags.set_darken_sky(false);
    assert_eq!(flags, BossBarFlags(0x05));
    assert_eq!(to_bytes(&flags), vec![0x05]);
    test_type(flags);
    for raw in 0..=255u8 {
        test_type(ClientDisplayedSkinParts(raw));
    }
    let parts = ClientDisplayedSkinParts(0x41);
    assert!(parts.is_cape_enabled());
    assert!(parts.is_hat_enabled());
    assert!(!parts.is_jacket_enabled());
    let mut friendly = TeamFriendlyFlags(0);
    friendly.set_show_invisible_teammates(true);
    assert!(friendly.show_invisible_teammates());
    assert!(!friendly.allow_friendly_fire());
    assert_eq!(friendly, TeamFriendlyFlags(0x02));
    assert!(matches!(BossBarFlags::mc_deserialize(&[]), Err(DeserializeErr::Eof)));
}

#[test]
fn team_actions_round_trip() {
    let create = TeamAction::Create(TeamActionCreateSpec {
        display_name: "{}".to_owned(),
        friendly_flags: TeamFriendlyFlags(0x01),
        tag_name_visibility: TeamTagNameVisibility::HideForOtherTeams,
        collision_rule: TeamCollisionRule::PushOwnTeam,
        color: VarInt(4),
        prefix: "[".to_owned(),
        suffix: "]".to_owned(),
        entities: vec![
            TeamMember::Player("Notch".to_owned()),
            TeamMember::Entity(UUID4::from(0x0123_4567_89AB_4DEF_8123_4567_89AB_CDEFu128)),
        ]
        .into(),
    });
    let bytes = to_bytes(&create);
    let mut expected = vec![0x00];
    expected.extend(text("{}"));
    expected.push(0x01);
    expected.extend(text("hideForOtherTeams"));
    expected.extend(text("pushOwnTeam"));
    expected.push(0x04);
    expected.extend(text("["));
    expected.extend(text("]"));
    expected.push(0x02);
    expected.extend(text("Notch"));
    expected.extend(text("01234567-89ab-4def-8123-456789abcdef"));
    assert_eq!(bytes, expected);
    test_type(create);
    test_type(TeamAction::Remove);
    test_type(TeamAction::AddPlayers(TeamActionPlayerList {
        entities: vec![TeamMember::Player("a".to_owned())].into(),
    }));
    assert_eq!(to_bytes(&TeamTagNameVisibility::Never), text("never"));
    assert_eq!(TeamCollisionRule::PushForOtherTeams.name(), "pushForOtherTeams");
    match TeamTagNameVisibility::mc_deserialize(&text("Always")) {
        Err(DeserializeErr::CannotUnderstandValue(message)) => {
            assert_eq!(message, "invalid TeamTagNameVisibility ident 'Always'")
        }
        other => panic!("expected CannotUnderstandValue, got {:?}", other.map(|d| d.value)),
    }
    match TeamAction::mc_deserialize(&[0x05]) {
        Err(DeserializeErr::CannotUnderstandValue(message)) => {
            assert_eq!(message, "invalid TeamAction 5")
        }
        other => panic!("expected CannotUnderstandValue, got {:?}", other.map(|d| d.value)),
    }
}

#[test]
fn world_border_actions_round_trip() {
    let all = WorldBorderAction::Initialize(WorldBorderInitiaializeSpec {
        position: ChunkPosition { x: 1.5f64.to_bits(), z: (-2.0f64).to_bits() },
        old_diameter: 100.0f64.to_bits(),
        new_diameter: 50.0f64.to_bits(),
        speed: VarLong(1000),
        portal_teleport_boundary: VarLong(29999984),
        warning_time: VarInt(15),
        warning_blocks: VarInt(5),
    });
    let bytes = to_bytes(&all);
    assert_eq!(bytes[0], 0x03);
    assert_eq!(&bytes[1..9], &1.5f64.to_be_bytes());
    assert_eq!(&bytes[9..17], &(-2.0f64).to_be_bytes());
    assert_eq!(&bytes[17..25], &100.0f64.to_be_bytes());
    assert_eq!(&bytes[25..33], &50.0f64.to_be_bytes());
    assert_eq!(&bytes[33..35], &[0xE8, 0x07]);
    assert_eq!(&bytes[bytes.len() - 2..], &[0x0F, 0x05]);
    test_type(all);
    let size = WorldBorderAction::SetSize(WorldBorderSetSizeSpec { diameter: 8.0f64.to_bits() });
    assert_eq!(to_bytes(&size), vec![0x00, 0x40, 0x20, 0, 0, 0, 0, 0, 0]);
    test_type(size);
    test_type(WorldBorderAction::SetCenter(ChunkPosition { x: 0, z: u64::MAX }));
    assert!(matches!(WorldBorderAction::mc_deserialize(&[0x00, 0x40]), Err(DeserializeErr::Eof)));
}

#[test]
fn fights_and_objectives_round_trip() {
    assert_eq!(to_bytes(&CombatEvent::Enter), vec![0x00]);
    test_type(CombatEvent::Enter);
    let end = CombatEvent::End(CombatEndSpec { duration_ticks: VarInt(20), entity_id: -1 });
    assert_eq!(to_bytes(&end), vec![0x01, 0x14, 0xFF, 0xFF, 0xFF, 0xFF]);
    test_type(end);
    test_type(CombatEvent::EntityDead(CombatEntityDeadSpec {
        player_id: VarInt(1),
        entity_id: 2,
        message: "\"fell\"".to_owned(),
    }));
    let create = ScoreboardObjectiveAction::Create(ScoreboardObjectiveSpec {
        text: "{}".to_owned(),
        kind: ScoreboardObjectiveKind::Hearts,
    });
    assert_eq!(to_bytes(&create), vec![0x00, 0x02, b'{', b'}', 0x01]);
    test_type(create);
    test_type(ScoreboardObjectiveAction::Remove);
    let interact = InteractKind::InteractAt(InteractAtSpec {
        target_position: Vec3 { x: 1.0f32.to_bits(), y: 0, z: 0x8000_0000 },
        hand: Hand::OffHand,
    });
    assert_eq!(
        to_bytes(&interact),
        vec![0x02, 0x3F, 0x80, 0, 0, 0, 0, 0, 0, 0x80, 0, 0, 0, 0x01]
    );
    test_type(interact);
    test_type(InteractKind::Attack);
    test_type(InteractKind::Interact(Hand::MainHand));
}

#[test]
fn player_lists_round_trip() {
    let id = UUID4::from(7u128);
    let add = PlayerInfoActionList::Add(
        vec![PlayerInfoAction {
            uuid: id,
            action: PlayerAddActionSpec {
                name: "Steve".to_owned(),
                properties: vec![PlayerAddProperty {
                    name: "textures".to_owned(),
                    value: "abc".to_owned(),
                    signature: Some("sig".to_owned()),
                }]
                .into(),
                game_mode: GameMode::Creative,
                ping_ms: VarInt(42),
                display_name: None,
            },
        }]
        .into(),
    );
    let mut expected = vec![0x00, 0x01];
    expected.extend([0u8; 15]);
    expected.push(7);
    expected.extend(text("Steve"));
    expected.push(0x01);
    expected.extend(text("textures"));
    expected.extend(text("abc"));
    expected.push(0x01);
    expected.extend(text("sig"));
    expected.extend([0x01, 0x2A, 0x00]);
    assert_eq!(to_bytes(&add), expected);
    test_type(add);
    test_type(PlayerInfoActionList::UpdateGameMode(
        vec![PlayerInfoAction { uuid: id, action: GameMode::Spectator }].into(),
    ));
    test_type(PlayerInfoActionList::UpdateLatency(
        vec![
            PlayerInfoAction { uuid: id, action: VarInt(1) },
            PlayerInfoAction { uuid: UUID4::from(u128::MAX), action: VarInt(-1) },
        ]
        .into(),
    ));
    test_type(PlayerInfoActionList::UpdateDisplayName(
        vec![
            PlayerInfoAction { uuid: id, action: Some("{}".to_owned()) },
            PlayerInfoAction { uuid: id, action: None },
        ]
        .into(),
    ));
    test_type(PlayerInfoActionList::Remove(vec![id, id].into()));
    let other = UUID4::from(u128::MAX);
    let latency = PlayerInfoActionList::UpdateLatency(
        vec![
            PlayerInfoAction { uuid: id, action: VarInt(1) },
            PlayerInfoAction { uuid: other, action: VarInt(2) },
            PlayerInfoAction { uuid: id, action: VarInt(3) },
        ]
        .into(),
    );
    assert_eq!(latency.len(), 3);
    assert_eq!(latency.player_ids(), vec![id, other, id]);
    assert_eq!(latency.id(), VarInt(2));
    let gone = PlayerInfoActionList::Remove(vec![other, id].into());
    assert_eq!(gone.len(), 2);
    assert_eq!(gone.player_ids(), vec![other, id]);
    let nobody = PlayerInfoActionList::UpdateGameMode(Vec::new().into());
    assert_eq!(nobody.len(), 0);
    assert!(nobody.player_ids().is_empty());
    test_type(TabCompleteMatch { match_: "tp".to_owned(), tooltip: Some("{}".to_owned()) });
    assert_eq!(
        to_bytes(&TabCompleteMatch { match_: "a".to_owned(), tooltip: None }),
        vec![0x01, b'a', 0x00]
    );
}

#[test]
fn titles_round_trip() {
    let times = TitleActionSpec::SetTimesAndDisplay(TitleTimesSpec {
        fade_in: 10,
        stay: 70,
        fade_out: -20,
    });
    assert_eq!(
        to_bytes(&times),
        vec![0x03, 0, 0, 0, 10, 0, 0, 0, 70, 0xFF, 0xFF, 0xFF, 0xEC]
    );
    test_type(times);
    let title = TitleActionSpec::SetTitle("{\"text\":\"hi\"}".to_owned());
    let mut expected = vec![0x00];
    expected.extend(text("{\"text\":\"hi\"}"));
    assert_eq!(to_bytes(&title), expected);
    test_type(title);
    test_type(TitleActionSpec::SetSubtitle(String::new()));
    test_type(TitleActionSpec::SetActionBar("x".to_owned()));
    assert_eq!(to_bytes(&TitleActionSpec::Hide), vec![0x04]);
    assert_eq!(to_bytes(&TitleActionSpec::Reset), vec![0x05]);
    test_type(TitleActionSpec::Hide);
    test_type(TitleActionSpec::Reset);
    assert_eq!(to_bytes(&AdvancementTabAction::Closed), vec![0x01]);
    test_type(AdvancementTabAction::Opened("story/root".to_owned()));
}

#[test]
fn wide_layouts_round_trip() {
    let stack = |id: i32| Some(ItemStack { item_id: VarInt(id), item_count: 1, nbt: None });
    let trade = TradeSpec {
        input_item_1: stack(1),
        output_item: stack(2),
        input_item_2: None,
        trade_disabled: true,
        trade_uses: 3,
        max_trade_uses: 12,
        xp: 5,
        special_price: -1,
        price_multiplier: 0.05f32.to_bits(),
        demand: 7,
    };
    let mut expected = vec![0x01, 0x01, 0x01, 0x00, 0x01, 0x02, 0x01, 0x00, 0x00, 0x01];
    expected.extend(3i32.to_be_bytes());
    expected.extend(12i32.to_be_bytes());
    expected.extend(5i32.to_be_bytes());
    expected.extend((-1i32).to_be_bytes());
    expected.extend(0.05f32.to_be_bytes());
    expected.extend(7i32.to_be_bytes());
    assert_eq!(to_bytes(&trade), expected);
    test_type(trade);
    let advancement = AdvancementSpec {
        parent: Some("story/root".to_owned()),
        display: Some(AdvancementDisplaySpec {
            title: "{}".to_owned(),
            description: "{}".to_owned(),
            icon: stack(3),
            frame_type: AdvancementFrameType::Goal,
            flags: AdvancementDisplayFlags {
                background_texture: Some("bg".to_owned()),
                show_toast: true,
                hidden: false,
            },
            position: Vec2 { x: 1.0f32.to_bits(), y: 2.0f32.to_bits() },
        }),
        criteria: vec!["a".to_owned(), "b".to_owned()].into(),
        requirements: vec![vec!["a".to_owned()].into(), vec!["a".to_owned(), "b".to_owned()].into()]
            .into(),
    };
    test_type(advancement);
    test_type(AdvancementSpec {
        parent: None,
        display: None,
        criteria: Vec::new().into(),
        requirements: Vec::new().into(),
    });
    test_type(EntityPropertySpec {
        key: "generic.max_health".to_owned(),
        value: 20.0f64.to_bits(),
        modifiers: vec![EntityPropertyModifierSpec {
            uuid: UUID4::from(1u128),
            amount: 0.5f64.to_bits(),
            operation: EntityPropertyModifierOperation::MultiplyByAmountPercent,
        }]
        .into(),
    });
    test_type(MapIconSpec {
        kind: MapIconType::RedPointer,
        position: ChunkPosition { x: -128, z: 127 },
        direction: 8,
        display_name: Some("{}".to_owned()),
    });
}

#[test]
fn statistics_and_demo_steps_are_numbered() {
    let custom = Statistic {
        kind: StatisticCategory::Custom(StatisticKind::Jumps),
        value: VarInt(300),
    };
    assert_eq!(to_bytes(&custom), vec![0x08, 0x11, 0xAC, 0x02]);
    test_type(custom);
    test_type(Statistic { kind: StatisticCategory::Mined(VarInt(1)), value: VarInt(0) });
    assert_eq!(StatisticKind::variant_count(), 50);
    assert_eq!(to_bytes(&DemoEvent::ShowWelcomeScreen), vec![0x00]);
    assert_eq!(to_bytes(&DemoEvent::TellMovementControls), vec![0x65]);
    assert_eq!(to_bytes(&DemoEvent::EndDemo), vec![0x68]);
    assert_eq!(DemoEvent::EndDemo.id(), 0x68);
    test_type(DemoEvent::TellInventoryControl);
    match DemoEvent::mc_deserialize(&[0x01]) {
        Err(DeserializeErr::CannotUnderstandValue(message)) => {
            assert_eq!(message, "invalid DemoEvent 1")
        }
        other => panic!("expected CannotUnderstandValue, got {:?}", other.map(|d| d.value)),
    }
}
