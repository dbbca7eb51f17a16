use mcproto_rs::chat::{
    BaseComponent, Chat, ChatClickEvent, ColorCode, Formatter, KeybindComponent, TextComponent,
};

const COLORS: [(ColorCode, char, &str); 16] = [
    (ColorCode::Black, '0', "black"),
    (ColorCode::DarkBlue, '1', "dark_blue"),
    (ColorCode::DarkGreen, '2', "dark_green"),
    (ColorCode::DarkAqua, '3', "dark_aqua"),
    (ColorCode::DarkRed, '4', "dark_red"),
    (ColorCode::DarkPurple, '5', "dark_purple"),
    (ColorCode::Gold, '6', "gold"),
    (ColorCode::Gray, '7', "gray"),
    (ColorCode::DarkGray, '8', "dark_gray"),
    (ColorCode::Blue, '9', "blue"),
    (ColorCode::Green, 'a', "green"),
    (ColorCode::Aqua, 'b', "aqua"),
    (ColorCode::Red, 'c', "red"),
    (ColorCode::LightPurple, 'd', "light_purple"),
    (ColorCode::Yellow, 'e', "yellow"),
    (ColorCode::White, 'f', "white"),
];

#[test]
fn colors_have_codes_and_names() {
    for (color, code, name) in COLORS {
        assert_eq!(color.code(), code);
        assert_eq!(color.name(), name);
        assert_eq!(ColorCode::from_code(&code), Some(color));
        assert_eq!(ColorCode::from_name(name), Some(color));
        assert_eq!(ColorCode::from_name(&name.to_uppercase()), Some(color));
        assert_eq!(Formatter::from_code(&code), Some(Formatter::Color(color)));
        assert_eq!(Formatter::from_name(name), Some(Formatter::Color(color)));
        assert_eq!(Formatter::Color(color).code(), code);
        assert_eq!(Formatter::Color(color).name(), name);
    }
}

#[test]
fn color_codes_are_lower_case_only() {
    assert_eq!(ColorCode::from_code(&'A'), None);
    assert_eq!(ColorCode::from_code(&'F'), None);
    assert_eq!(ColorCode::from_code(&'g'), None);
    assert_eq!(ColorCode::from_code(&'k'), None);
    assert_eq!(Formatter::from_code(&'A'), None);
    assert_eq!(ColorCode::from_name("purple"), None);
    assert_eq!(ColorCode::from_name(""), None);
    assert_eq!(ColorCode::from_name("Dark_Blue"), Some(ColorCode::DarkBlue));
}

#[test]
fn styles_have_codes_and_names() {
    let styles = [
        (Formatter::Obfuscated, 'k', "obfuscated"),
        (Formatter::Bold, 'l', "bold"),
        (Formatter::Strikethrough, 'm', "strikethrough"),
        (Formatter::Underline, 'n', "underline"),
        (Formatter::Italic, 'o', "italic"),
        (Formatter::Reset, 'r', "reset"),
    ];
    for (style, code, name) in styles {
        assert_eq!(style.code(), code);
        assert_eq!(style.name(), name);
        assert_eq!(Formatter::from_code(&code), Some(style));
        assert_eq!(Formatter::from_code(&code.to_ascii_uppercase()), Some(style));
        assert_eq!(Formatter::from_name(name), Some(style));
        assert_eq!(Formatter::from_name(&name.to_uppercase()), Some(style));
    }
    assert_eq!(Formatter::from_code(&'z'), None);
    assert_eq!(Formatter::from_name("blink"), None);
}

#[test]
fn test_from_traditional_simple() {
    let out = Chat::from_traditional("&cthis &cis red, and &rthis is &e&lyellow", true);
    assert_eq!(
        out,
        Chat::Text(TextComponent {
            text: String::default(),
            base: {
                let mut b = BaseComponent::default();
                b.extra = vec![
                    Chat::Text(TextComponent {
                        text: "this is red, and ".to_owned(),
                        base: {
                            let mut b = BaseComponent::default();
                            b.color = Some(ColorCode::Red);
                            b
                        },
                    })
                    .boxed(),
                    Chat::Text(TextComponent {
                        text: "this is ".to_owned(),
                        base: BaseComponent::default(),
                    })
                    .boxed(),
                    Chat::Text(TextComponent {
                        text: "yellow".to_owned(),
                        base: {
                            let mut b = BaseComponent::default();
                            b.color = Some(ColorCode::Yellow);
                            b.bold = true;
                            b
                        },
                    })
                    .boxed(),
                ];
                b
            },
        })
    );

    let traditional = out.to_traditional().expect("is text");
    assert_eq!(traditional.as_str(), "§cthis is red, and §rthis is §e§lyellow");
}

fn plain_text(text: &str) -> Chat {
    Chat::Text(TextComponent { text: text.to_owned(), base: BaseComponent::default() })
}

#[test]
fn traditional_text_without_codes_is_one_component() {
    assert_eq!(Chat::from_traditional("hello", false), plain_text("hello"));
    assert_eq!(Chat::from_traditional("hello", true), Chat::from_text("hello"));
    assert_eq!(Chat::from_traditional("a & b", false), plain_text("a & b"));
    assert_eq!(Chat::from_traditional("héllo wörld", true), plain_text("héllo wörld"));
}

#[test]
fn traditional_text_with_nothing_in_it_is_an_empty_component() {
    assert_eq!(Chat::from_traditional("", true), plain_text(""));
    assert_eq!(Chat::from_traditional("§c§l", false), plain_text(""));
    assert_eq!(Chat::from_traditional("§", false), plain_text(""));
}

#[test]
fn code_signs_in_front_of_no_code_are_dropped() {
    // the sign goes, the character behind it is text
    assert_eq!(Chat::from_traditional("a§zb", false), plain_text("azb"));
    assert_eq!(Chat::from_traditional("a&", true), plain_text("a"));
    assert_eq!(Chat::from_traditional("§§a", false), plain_text("§a"));
    // colours are found by their lower-case code alone
    assert_eq!(Chat::from_traditional("§Ca", false), plain_text("Ca"));
}

#[test]
fn ampersand_is_a_code_sign_only_on_request() {
    let expected = Chat::Text(TextComponent {
        text: "red".to_owned(),
        base: {
            let mut b = BaseComponent::default();
            b.color = Some(ColorCode::Red);
            b
        },
    });
    assert_eq!(Chat::from_traditional("&cred", true), expected);
    assert_eq!(Chat::from_traditional("§cred", true), expected);
    assert_eq!(Chat::from_traditional("§cred", false), expected);
    assert_eq!(Chat::from_traditional("&cred", false), plain_text("&cred"));
}

#[test]
fn styles_add_up_until_text_is_cut() {
    let out = Chat::from_traditional("§c§l§oa§nb", false);
    let first = {
        let mut b = BaseComponent::default();
        b.color = Some(ColorCode::Red);
        b.bold = true;
        b.italic = true;
        b
    };
    let second = {
        let mut b = BaseComponent::default();
        b.underlined = true;
        b
    };
    let mut top = BaseComponent::default();
    top.extra = vec![
        Chat::Text(TextComponent { text: "a".to_owned(), base: first }).boxed(),
        Chat::Text(TextComponent { text: "b".to_owned(), base: second }).boxed(),
    ];
    assert_eq!(out, Chat::Text(TextComponent { text: String::new(), base: top }));
    assert_eq!(out.to_traditional().expect("is text"), "§c§l§oa§nb");
    // a colour takes the styles before it away
    let out = Chat::from_traditional("§l§cx", false);
    let mut red = BaseComponent::default();
    red.color = Some(ColorCode::Red);
    assert_eq!(out, Chat::Text(TextComponent { text: "x".to_owned(), base: red }));
}

#[test]
fn neighbours_of_one_look_are_joined() {
    assert_eq!(Chat::from_traditional("a§rb§rc", false), plain_text("abc"));
    let mut red = BaseComponent::default();
    red.color = Some(ColorCode::Red);
    assert_eq!(
        Chat::from_traditional("§ca§cb", false),
        Chat::Text(TextComponent { text: "ab".to_owned(), base: red })
    );
}

#[test]
fn to_traditional_writes_codes_in_order() {
    let mut base = BaseComponent::default();
    base.color = Some(ColorCode::Gold);
    base.bold = true;
    base.italic = true;
    base.strikethrough = true;
    base.underlined = true;
    base.obfuscated = true;
    let all = TextComponent { text: "x".to_owned(), base };
    assert_eq!(all.to_traditional(), "§6§l§o§m§n§kx");
    // the component's own codes are left out where it has no text
    let mut base = BaseComponent::default();
    base.bold = true;
    base.extra = vec![plain_text("a").boxed(), plain_text("b").boxed()];
    let no_text = TextComponent { text: String::new(), base };
    assert_eq!(no_text.to_traditional(), "ab");
}

#[test]
fn to_traditional_is_for_text_only() {
    let keybind =
        Chat::Keybind(KeybindComponent { keybind: "key.jump".to_owned(), base: BaseComponent::default() });
    assert_eq!(keybind.to_traditional(), None);
    let mut base = BaseComponent::default();
    base.extra = vec![
        plain_text("a").boxed(),
        Chat::Keybind(KeybindComponent {
            keybind: "key.jump".to_owned(),
            base: BaseComponent::default(),
        })
        .boxed(),
        plain_text("b").boxed(),
    ];
    let mixed = Chat::Text(TextComponent { text: "t".to_owned(), base });
    assert_eq!(mixed.to_traditional().expect("is text"), "tab");
}

#[test]
fn chat_gives_its_base_and_what_follows() {
    let mut base = BaseComponent::default();
    base.italic = true;
    base.click_event = Some(ChatClickEvent::ChangePage(3));
    base.extra = vec![plain_text("next").boxed()];
    let chat = Chat::Text(TextComponent { text: "t".to_owned(), base });
    assert!(chat.base().italic);
    assert_eq!(chat.base().click_event, Some(ChatClickEvent::ChangePage(3)));
    assert_eq!(chat.siblings().len(), 1);
    assert_eq!(*chat.siblings()[0], plain_text("next"));
    assert!(Chat::from_text("x").siblings().is_empty());
}
