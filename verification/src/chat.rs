use crate::utils::same_text;
use vstd::prelude::*;
use vstd::string::{StrSliceExecFns, StringExecFns, StringSliceAdditionalSpecFns};

verus! {

/// The character that introduces a formatting code in legacy text.
pub const SECTION_SYMBOL: char = '\u{a7}';

/// `c` in lower case, where it is an ASCII capital; `c` itself otherwise.
pub open spec fn ascii_lower_char(c: char) -> char {
    if 'A' <= c <= 'Z' {
        ((c as u32) + 32) as char
    } else {
        c
    }
}

/// `text` with every ASCII capital in lower case.
pub open spec fn ascii_lower(text: Seq<char>) -> Seq<char> {
    Seq::new(text.len(), |i: int| ascii_lower_char(text[i]))
}

/// `char::to_ascii_lowercase`: an ASCII capital becomes its lower-case
/// letter, any other character stays.
#[verifier::external_body]
fn char_to_ascii_lowercase(c: char) -> (r: char)
    ensures
        r == ascii_lower_char(c),
{
    c.to_ascii_lowercase()
}

/// `str::to_ascii_lowercase`: a copy of the text with every ASCII capital in
/// lower case.
#[verifier::external_body]
fn str_to_ascii_lowercase(text: &str) -> (r: String)
    ensures
        r@ == ascii_lower(text@),
{
    text.to_ascii_lowercase()
}

/// One of the sixteen colours of legacy text.
#[derive(PartialOrd, PartialEq, Eq, Structural, Debug, Copy, Clone)]
pub enum ColorCode {
    Black,
    DarkBlue,
    DarkGreen,
    DarkAqua,
    DarkRed,
    DarkPurple,
    Gold,
    Gray,
    DarkGray,
    Blue,
    Green,
    Aqua,
    Red,
    LightPurple,
    Yellow,
    White,
}

impl ColorCode {
    /// The colour that a code character stands for.
    pub open spec fn spec_from_code(i: char) -> Option<Self> {
        if i == '0' {
            Some(ColorCode::Black)
        } else if i == '1' {
            Some(ColorCode::DarkBlue)
        } else if i == '2' {
            Some(ColorCode::DarkGreen)
        } else if i == '3' {
            Some(ColorCode::DarkAqua)
        } else if i == '4' {
            Some(ColorCode::DarkRed)
        } else if i == '5' {
            Some(ColorCode::DarkPurple)
        } else if i == '6' {
            Some(ColorCode::Gold)
        } else if i == '7' {
            Some(ColorCode::Gray)
        } else if i == '8' {
            Some(ColorCode::DarkGray)
        } else if i == '9' {
            Some(ColorCode::Blue)
        } else if i == 'a' {
            Some(ColorCode::Green)
        } else if i == 'b' {
            Some(ColorCode::Aqua)
        } else if i == 'c' {
            Some(ColorCode::Red)
        } else if i == 'd' {
            Some(ColorCode::LightPurple)
        } else if i == 'e' {
            Some(ColorCode::Yellow)
        } else if i == 'f' {
            Some(ColorCode::White)
        } else {
            None
        }
    }

    pub fn from_code(i: &char) -> (r: Option<Self>)
        ensures
            r == Self::spec_from_code(*i),
    {
        match *i {
            '0' => Some(ColorCode::Black),
            '1' => Some(ColorCode::DarkBlue),
            '2' => Some(ColorCode::DarkGreen),
            '3' => Some(ColorCode::DarkAqua),
            '4' => Some(ColorCode::DarkRed),
            '5' => Some(ColorCode::DarkPurple),
            '6' => Some(ColorCode::Gold),
            '7' => Some(ColorCode::Gray),
            '8' => Some(ColorCode::DarkGray),
            '9' => Some(ColorCode::Blue),
            'a' => Some(ColorCode::Green),
            'b' => Some(ColorCode::Aqua),
            'c' => Some(ColorCode::Red),
            'd' => Some(ColorCode::LightPurple),
            'e' => Some(ColorCode::Yellow),
            'f' => Some(ColorCode::White),
            _ => None,
        }
    }

    pub open spec fn spec_code(&self) -> char {
        match self {
            ColorCode::Black => '0',
            ColorCode::DarkBlue => '1',
            ColorCode::DarkGreen => '2',
            ColorCode::DarkAqua => '3',
            ColorCode::DarkRed => '4',
            ColorCode::DarkPurple => '5',
            ColorCode::Gold => '6',
            ColorCode::Gray => '7',
            ColorCode::DarkGray => '8',
            ColorCode::Blue => '9',
            ColorCode::Green => 'a',
            ColorCode::Aqua => 'b',
            ColorCode::Red => 'c',
            ColorCode::LightPurple => 'd',
            ColorCode::Yellow => 'e',
            ColorCode::White => 'f',
        }
    }

    #[verifier::when_used_as_spec(spec_code)]
    pub fn code(&self) -> (r: char)
        ensures
            r == self.spec_code(),
    {
        match self {
            ColorCode::Black => '0',
            ColorCode::DarkBlue => '1',
            ColorCode::DarkGreen => '2',
            ColorCode::DarkAqua => '3',
            ColorCode::DarkRed => '4',
            ColorCode::DarkPurple => '5',
            ColorCode::Gold => '6',
            ColorCode::Gray => '7',
            ColorCode::DarkGray => '8',
            ColorCode::Blue => '9',
            ColorCode::Green => 'a',
            ColorCode::Aqua => 'b',
            ColorCode::Red => 'c',
            ColorCode::LightPurple => 'd',
            ColorCode::Yellow => 'e',
            ColorCode::White => 'f',
        }
    }

    /// The colour of a name in lower case.
    pub open spec fn of_lower_name(name: Seq<char>) -> Option<Self> {
        if name == "black"@ {
            Some(ColorCode::Black)
        } else if name == "dark_blue"@ {
            Some(ColorCode::DarkBlue)
        } else if name == "dark_green"@ {
            Some(ColorCode::DarkGreen)
        } else if name == "dark_aqua"@ {
            Some(ColorCode::DarkAqua)
        } else if name == "dark_red"@ {
            Some(ColorCode::DarkRed)
        } else if name == "dark_purple"@ {
            Some(ColorCode::DarkPurple)
        } else if name == "gold"@ {
            Some(ColorCode::Gold)
        } else if name == "gray"@ {
            Some(ColorCode::Gray)
        } else if name == "dark_gray"@ {
            Some(ColorCode::DarkGray)
        } else if name == "blue"@ {
            Some(ColorCode::Blue)
        } else if name == "green"@ {
            Some(ColorCode::Green)
        } else if name == "aqua"@ {
            Some(ColorCode::Aqua)
        } else if name == "red"@ {
            Some(ColorCode::Red)
        } else if name == "light_purple"@ {
            Some(ColorCode::LightPurple)
        } else if name == "yellow"@ {
            Some(ColorCode::Yellow)
        } else if name == "white"@ {
            Some(ColorCode::White)
        } else {
            None
        }
    }

    /// Finds a colour by its name, whatever the case of its letters.
    pub fn from_name(name: &str) -> (r: Option<Self>)
        ensures
            r == Self::of_lower_name(ascii_lower(name@)),
    {
        let lower = str_to_ascii_lowercase(name);
        let lower = lower.as_str();
        if same_text(lower, "black") {
            Some(ColorCode::Black)
        } else if same_text(lower, "dark_blue") {
            Some(ColorCode::DarkBlue)
        } else if same_text(lower, "dark_green") {
            Some(ColorCode::DarkGreen)
        } else if same_text(lower, "dark_aqua") {
            Some(ColorCode::DarkAqua)
        } else if same_text(lower, "dark_red") {
            Some(ColorCode::DarkRed)
        } else if same_text(lower, "dark_purple") {
            Some(ColorCode::DarkPurple)
        } else if same_text(lower, "gold") {
            Some(ColorCode::Gold)
        } else if same_text(lower, "gray") {
            Some(ColorCode::Gray)
        } else if same_text(lower, "dark_gray") {
            Some(ColorCode::DarkGray)
        } else if same_text(lower, "blue") {
            Some(ColorCode::Blue)
        } else if same_text(lower, "green") {
            Some(ColorCode::Green)
        } else if same_text(lower, "aqua") {
            Some(ColorCode::Aqua)
        } else if same_text(lower, "red") {
            Some(ColorCode::Red)
        } else if same_text(lower, "light_purple") {
            Some(ColorCode::LightPurple)
        } else if same_text(lower, "yellow") {
            Some(ColorCode::Yellow)
        } else if same_text(lower, "white") {
            Some(ColorCode::White)
        } else {
            None
        }
    }

    pub open spec fn spec_name(&self) -> Seq<char> {
        match self {
            ColorCode::Black => "black"@,
            ColorCode::DarkBlue => "dark_blue"@,
            ColorCode::DarkGreen => "dark_green"@,
            ColorCode::DarkAqua => "dark_aqua"@,
            ColorCode::DarkRed => "dark_red"@,
            ColorCode::DarkPurple => "dark_purple"@,
            ColorCode::Gold => "gold"@,
            ColorCode::Gray => "gray"@,
            ColorCode::DarkGray => "dark_gray"@,
            ColorCode::Blue => "blue"@,
            ColorCode::Green => "green"@,
            ColorCode::Aqua => "aqua"@,
            ColorCode::Red => "red"@,
            ColorCode::LightPurple => "light_purple"@,
            ColorCode::Yellow => "yellow"@,
            ColorCode::White => "white"@,
        }
    }

    pub fn name(&self) -> (r: &'static str)
        ensures
            r@ == self.spec_name(),
    {
        match self {
            ColorCode::Black => "black",
            ColorCode::DarkBlue => "dark_blue",
            ColorCode::DarkGreen => "dark_green",
            ColorCode::DarkAqua => "dark_aqua",
            ColorCode::DarkRed => "dark_red",
            ColorCode::DarkPurple => "dark_purple",
            ColorCode::Gold => "gold",
            ColorCode::Gray => "gray",
            ColorCode::DarkGray => "dark_gray",
            ColorCode::Blue => "blue",
            ColorCode::Green => "green",
            ColorCode::Aqua => "aqua",
            ColorCode::Red => "red",
            ColorCode::LightPurple => "light_purple",
            ColorCode::Yellow => "yellow",
            ColorCode::White => "white",
        }
    }
}

/// Every colour is found again by its code.
pub proof fn lemma_color_code_round_trip(c: ColorCode)
    ensures
        ColorCode::spec_from_code(c.spec_code()) == Some(c),
{
}

/// A formatting code of legacy text: a colour or a style.
#[derive(PartialOrd, PartialEq, Eq, Structural, Debug, Copy, Clone)]
pub enum Formatter {
    Color(ColorCode),
    Obfuscated,
    Bold,
    Strikethrough,
    Underline,
    Italic,
    Reset,
}

impl Formatter {
    /// The formatter that a code character stands for. A style is found in
    /// either case, a colour only by its lower-case code.
    pub open spec fn spec_from_code(i: char) -> Option<Self> {
        let lower = ascii_lower_char(i);
        if lower == 'k' {
            Some(Formatter::Obfuscated)
        } else if lower == 'l' {
            Some(Formatter::Bold)
        } else if lower == 'm' {
            Some(Formatter::Strikethrough)
        } else if lower == 'n' {
            Some(Formatter::Underline)
        } else if lower == 'o' {
            Some(Formatter::Italic)
        } else if lower == 'r' {
            Some(Formatter::Reset)
        } else {
            match ColorCode::spec_from_code(i) {
                Some(c) => Some(Formatter::Color(c)),
                None => None,
            }
        }
    }

    pub fn from_code(i: &char) -> (r: Option<Self>)
        ensures
            r == Self::spec_from_code(*i),
    {
        match char_to_ascii_lowercase(*i) {
            'k' => Some(Formatter::Obfuscated),
            'l' => Some(Formatter::Bold),
            'm' => Some(Formatter::Strikethrough),
            'n' => Some(Formatter::Underline),
            'o' => Some(Formatter::Italic),
            'r' => Some(Formatter::Reset),
            _ => match ColorCode::from_code(i) {
                Some(c) => Some(Formatter::Color(c)),
                None => None,
            },
        }
    }

    pub open spec fn spec_code(&self) -> char {
        match self {
            Formatter::Color(c) => c.spec_code(),
            Formatter::Obfuscated => 'k',
            Formatter::Bold => 'l',
            Formatter::Strikethrough => 'm',
            Formatter::Underline => 'n',
            Formatter::Italic => 'o',
            Formatter::Reset => 'r',
        }
    }

    #[verifier::when_used_as_spec(spec_code)]
    pub fn code(&self) -> (r: char)
        ensures
            r == self.spec_code(),
    {
        match self {
            Formatter::Color(c) => c.code(),
            Formatter::Obfuscated => 'k',
            Formatter::Bold => 'l',
            Formatter::Strikethrough => 'm',
            Formatter::Underline => 'n',
            Formatter::Italic => 'o',
            Formatter::Reset => 'r',
        }
    }

    /// The formatter of a name in lower case.
    pub open spec fn of_lower_name(name: Seq<char>) -> Option<Self> {
        if name == "obfuscated"@ {
            Some(Formatter::Obfuscated)
        } else if name == "bold"@ {
            Some(Formatter::Bold)
        } else if name == "strikethrough"@ {
            Some(Formatter::Strikethrough)
        } else if name == "underline"@ {
            Some(Formatter::Underline)
        } else if name == "italic"@ {
            Some(Formatter::Italic)
        } else if name == "reset"@ {
            Some(Formatter::Reset)
        } else {
            match ColorCode::of_lower_name(name) {
                Some(c) => Some(Formatter::Color(c)),
                None => None,
            }
        }
    }

    /// Finds a formatter by its name, whatever the case of its letters.
    pub fn from_name(name: &str) -> (r: Option<Self>)
        ensures
            r == Self::of_lower_name(ascii_lower(name@)),
    {
        let lower = str_to_ascii_lowercase(name);
        let lower = lower.as_str();
        if same_text(lower, "obfuscated") {
            Some(Formatter::Obfuscated)
        } else if same_text(lower, "bold") {
            Some(Formatter::Bold)
        } else if same_text(lower, "strikethrough") {
            Some(Formatter::Strikethrough)
        } else if same_text(lower, "underline") {
            Some(Formatter::Underline)
        } else if same_text(lower, "italic") {
            Some(Formatter::Italic)
        } else if same_text(lower, "reset") {
            Some(Formatter::Reset)
        } else {
            match ColorCode::from_name(name) {
                Some(c) => Some(Formatter::Color(c)),
                None => None,
            }
        }
    }

    pub open spec fn spec_name(&self) -> Seq<char> {
        match self {
            Formatter::Obfuscated => "obfuscated"@,
            Formatter::Bold => "bold"@,
            Formatter::Strikethrough => "strikethrough"@,
            Formatter::Underline => "underline"@,
            Formatter::Italic => "italic"@,
            Formatter::Reset => "reset"@,
            Formatter::Color(c) => c.spec_name(),
        }
    }

    pub fn name(&self) -> (r: &'static str)
        ensures
            r@ == self.spec_name(),
    {
        match self {
            Formatter::Obfuscated => "obfuscated",
            Formatter::Bold => "bold",
            Formatter::Strikethrough => "strikethrough",
            Formatter::Underline => "underline",
            Formatter::Italic => "italic",
            Formatter::Reset => "reset",
            Formatter::Color(c) => c.name(),
        }
    }
}

/// Every formatter is found again by its code.
pub proof fn lemma_formatter_code_round_trip(f: Formatter)
    ensures
        Formatter::spec_from_code(f.spec_code()) == Some(f),
{
}

#[verifier::external_type_specification]
#[verifier::external_body]
pub struct ExJsonValue(serde_json::Value);

pub type BoxedChat = Box<Chat>;

/// A piece of rich text. Each kind has its own content and, in its base,
/// the style and the pieces that follow it.
#[derive(Debug, PartialEq)]
pub enum Chat {
    Text(TextComponent),
    Translation(TranslationComponent),
    Keybind(KeybindComponent),
    Score(ScoreComponent),
}

/// What every kind of chat component has.
#[derive(Debug, PartialEq)]
pub struct BaseComponent {
    pub bold: bool,
    pub italic: bool,
    pub underlined: bool,
    pub strikethrough: bool,
    pub obfuscated: bool,
    pub color: Option<ColorCode>,
    pub insertion: Option<String>,
    pub click_event: Option<ChatClickEvent>,
    pub hover_event: Option<ChatHoverEvent>,
    pub extra: Vec<BoxedChat>,
}

#[derive(Debug, PartialEq)]
pub struct TextComponent {
    pub text: String,
    pub base: BaseComponent,
}

#[derive(Debug, PartialEq)]
pub struct TranslationComponent {
    pub translate: String,
    pub with: Vec<BoxedChat>,
    pub base: BaseComponent,
}

#[derive(Debug, PartialEq)]
pub struct KeybindComponent {
    pub keybind: String,
    pub base: BaseComponent,
}

#[derive(Debug, PartialEq)]
pub struct ScoreComponent {
    pub score: ScoreComponentObjective,
    pub base: BaseComponent,
}

#[derive(Clone, Debug, PartialEq)]
pub struct ScoreComponentObjective {
    pub name: String,
    pub objective: Option<String>,
    pub value: Option<String>,
}

/// What a click on a piece of text does.
#[derive(Clone, Debug, PartialEq)]
pub enum ChatClickEvent {
    OpenUrl(String),
    RunCommand(String),
    SuggestCommand(String),
    ChangePage(i32),
}

/// What shows while the pointer is over a piece of text. An item and an
/// entity are described by JSON values that are carried as they are.
#[derive(Debug, PartialEq)]
pub enum ChatHoverEvent {
    ShowText(BoxedChat),
    ShowItem(serde_json::Value),
    ShowEntity(serde_json::Value),
}

/// The look of a piece of text.
pub struct Style {
    pub bold: bool,
    pub italic: bool,
    pub underlined: bool,
    pub strikethrough: bool,
    pub obfuscated: bool,
    pub color: Option<ColorCode>,
}

/// The look of text that no formatting code has touched.
pub open spec fn plain() -> Style {
    Style {
        bold: false,
        italic: false,
        underlined: false,
        strikethrough: false,
        obfuscated: false,
        color: None,
    }
}

impl BaseComponent {
    /// The look that the component gives its text.
    pub open spec fn style(&self) -> Style {
        Style {
            bold: self.bold,
            italic: self.italic,
            underlined: self.underlined,
            strikethrough: self.strikethrough,
            obfuscated: self.obfuscated,
            color: self.color,
        }
    }

    /// The component has a look and nothing else: no insertion, no events,
    /// nothing that follows it.
    pub open spec fn bare(&self) -> bool {
        &&& self.insertion is None
        &&& self.click_event is None
        &&& self.hover_event is None
        &&& self.extra@.len() == 0
    }

    fn has_same_style_as(&self, other: &Self) -> (r: bool)
        ensures
            r == (self.style() == other.style()),
    {
        other.bold == self.bold && other.italic == self.italic && other.underlined
            == self.underlined && other.strikethrough == self.strikethrough && other.obfuscated
            == self.obfuscated && same_color(&other.color, &self.color)
    }
}

fn same_color(a: &Option<ColorCode>, b: &Option<ColorCode>) -> (r: bool)
    ensures
        r == (*a == *b),
{
    match (a, b) {
        (Some(x), Some(y)) => *x == *y,
        (None, None) => true,
        _ => false,
    }
}

impl Default for BaseComponent {
    fn default() -> (r: Self)
        ensures
            r.style() == plain(),
            r.bare(),
    {
        Self {
            bold: false,
            italic: false,
            underlined: false,
            strikethrough: false,
            obfuscated: false,
            color: None,
            insertion: None,
            click_event: None,
            hover_event: None,
            extra: Vec::new(),
        }
    }
}

impl Chat {
    pub open spec fn spec_base(&self) -> &BaseComponent {
        match self {
            Chat::Text(body) => &body.base,
            Chat::Translation(body) => &body.base,
            Chat::Keybind(body) => &body.base,
            Chat::Score(body) => &body.base,
        }
    }

    /// What the component shares with every other kind.
    pub fn base(&self) -> (r: &BaseComponent)
        ensures
            r == self.spec_base(),
    {
        match self {
            Chat::Text(body) => &body.base,
            Chat::Translation(body) => &body.base,
            Chat::Keybind(body) => &body.base,
            Chat::Score(body) => &body.base,
        }
    }

    /// The components that follow this one.
    pub fn siblings(&self) -> (r: &Vec<BoxedChat>)
        ensures
            r == &self.spec_base().extra,
    {
        &self.base().extra
    }

    pub fn boxed(self) -> (r: BoxedChat)
        ensures
            *r == self,
    {
        Box::new(self)
    }

    /// A component of plain text.
    pub fn from_text(text: &str) -> (r: Chat)
        ensures
            r matches Chat::Text(body) && body.text@ == text@ && body.base.style() == plain()
                && body.base.bare(),
    {
        Chat::Text(TextComponent { base: BaseComponent::default(), text: text.to_owned() })
    }
}

/// A stretch of text in one look.
pub struct Run {
    pub style: Style,
    pub text: Seq<char>,
}

impl TextComponent {
    /// The component is the stretch `run` and nothing more.
    pub open spec fn is_run(&self, run: Run) -> bool {
        self.text@ == run.text && self.base.style() == run.style && self.base.bare()
    }
}

/// The stretches that `parts` are, one for one.
pub open spec fn are_runs(parts: Seq<TextComponent>, runs: Seq<Run>) -> bool {
    parts.len() == runs.len() && forall|i: int|
        0 <= i < parts.len() ==> (#[trigger] parts[i]).is_run(runs[i])
}

/// Where the reading of legacy text stands: the place in the source, the
/// text gathered since the last cut, the look in force, and the stretches
/// that were cut off.
pub struct Reading {
    pub at: nat,
    pub text: Seq<char>,
    pub style: Style,
    pub done: Seq<Run>,
}

/// Whether `c` introduces a formatting code: the section sign does, and the
/// ampersand where it is to be read in its place.
pub open spec fn starts_code(c: char, translate_colorcodes: bool) -> bool {
    c == SECTION_SYMBOL || (translate_colorcodes && c == '&')
}

/// A cut: the text gathered, if there is any, becomes a stretch in the look
/// in force; the look goes back to plain.
pub open spec fn cut(s: Reading) -> Reading {
    Reading {
        at: s.at,
        text: Seq::empty(),
        style: plain(),
        done: if s.text.len() > 0 {
            s.done.push(Run { style: s.style, text: s.text })
        } else {
            s.done
        },
    }
}

/// The look `style` with the formatter `f` put on. A reset changes nothing
/// by itself: it takes effect through the cut that a formatter makes behind
/// text.
pub open spec fn styled(style: Style, f: Formatter) -> Style {
    match f {
        Formatter::Color(c) => Style { color: Some(c), ..plain() },
        Formatter::Obfuscated => Style { obfuscated: true, ..style },
        Formatter::Bold => Style { bold: true, ..style },
        Formatter::Strikethrough => Style { strikethrough: true, ..style },
        Formatter::Underline => Style { underlined: true, ..style },
        Formatter::Italic => Style { italic: true, ..style },
        Formatter::Reset => style,
    }
}

/// What a formatting code does to the reading: it cuts where text was
/// gathered, and puts the formatter on the look.
pub open spec fn formatted(s: Reading, f: Formatter) -> Reading {
    let s1 = if s.text.len() > 0 {
        cut(s)
    } else {
        s
    };
    Reading { style: styled(s1.style, f), ..s1 }
}

/// Reading the source from where `s` stands to its end.
///
/// A code sign and the character behind it are a formatting code if the
/// character is the code of a formatter; if it is not, the sign is dropped
/// and the character is text. A code sign at the very end is dropped.
pub open spec fn read_on(source: Seq<char>, translate_colorcodes: bool, s: Reading) -> Reading
    decreases source.len() - s.at,
{
    if s.at >= source.len() {
        s
    } else if starts_code(source[s.at as int], translate_colorcodes) {
        if s.at + 1 >= source.len() {
            Reading { at: s.at + 1, ..s }
        } else {
            match Formatter::spec_from_code(source[s.at + 1 as int]) {
                Some(f) => read_on(
                    source,
                    translate_colorcodes,
                    formatted(Reading { at: s.at + 2, ..s }, f),
                ),
                None => read_on(
                    source,
                    translate_colorcodes,
                    Reading { at: s.at + 2, text: s.text.push(source[s.at + 1 as int]), ..s },
                ),
            }
        }
    } else {
        read_on(
            source,
            translate_colorcodes,
            Reading { at: s.at + 1, text: s.text.push(source[s.at as int]), ..s },
        )
    }
}

/// `runs` with every two neighbours of one look made one.
pub open spec fn merged(runs: Seq<Run>) -> Seq<Run>
    decreases runs.len(),
{
    if runs.len() == 0 {
        Seq::empty()
    } else {
        let front = merged(runs.drop_last());
        let cur = runs.last();
        if front.len() > 0 && front.last().style == cur.style {
            front.drop_last().push(Run { style: cur.style, text: front.last().text + cur.text })
        } else {
            front.push(cur)
        }
    }
}

/// The stretches of a legacy text.
pub open spec fn traditional_runs(source: Seq<char>, translate_colorcodes: bool) -> Seq<Run> {
    merged(
        cut(
            read_on(
                source,
                translate_colorcodes,
                Reading { at: 0, text: Seq::empty(), style: plain(), done: Seq::empty() },
            ),
        ).done,
    )
}

/// `chat` is the component that stands for `runs`: a lone stretch is a text
/// component by itself; any other number of them follow an empty, plain
/// text component.
pub open spec fn stands_for(chat: Chat, runs: Seq<Run>) -> bool {
    chat matches Chat::Text(top) && if runs.len() == 1 {
        top.is_run(runs[0])
    } else {
        &&& top.text@.len() == 0
        &&& top.base.style() == plain()
        &&& top.base.insertion is None
        &&& top.base.click_event is None
        &&& top.base.hover_event is None
        &&& top.base.extra@.len() == runs.len()
        &&& forall|i: int|
            0 <= i < runs.len() ==> (*(#[trigger] top.base.extra@[i]) matches Chat::Text(part)
                && part.is_run(runs[i]))
    }
}

struct TraditionalParser {
    source: Vec<char>,
    at: usize,
    translate_colorcodes: bool,
    // state
    text: String,
    color: Option<ColorCode>,
    bold: bool,
    italic: bool,
    underlined: bool,
    strikethrough: bool,
    obfuscated: bool,
    // all the parts we've already seen
    done: Vec<TextComponent>,
}

impl TraditionalParser {
    spec fn style(&self) -> Style {
        Style {
            bold: self.bold,
            italic: self.italic,
            underlined: self.underlined,
            strikethrough: self.strikethrough,
            obfuscated: self.obfuscated,
            color: self.color,
        }
    }

    /// The parser stands where the reading `s` stands.
    spec fn stands_at(&self, s: Reading) -> bool {
        &&& self.at == s.at
        &&& self.at <= self.source@.len()
        &&& self.text@ == s.text
        &&& self.style() == s.style
        &&& are_runs(self.done@, s.done)
    }

    fn new(source: &str, translate_colorcodes: bool) -> (r: TraditionalParser)
        ensures
            r.source@ == source@,
            r.translate_colorcodes == translate_colorcodes,
            r.stands_at(
                Reading { at: 0, text: Seq::empty(), style: plain(), done: Seq::empty() },
            ),
    {
        let n = source.unicode_len();
        let mut chars: Vec<char> = Vec::new();
        let mut i: usize = 0;
        while i < n
            invariant
                i <= n,
                n == source@.len(),
                chars@ == source@.take(i as int),
            decreases n - i,
        {
            chars.push(source.get_char(i));
            proof {
                assert(chars@ =~= source@.take(i + 1));
            }
            i += 1;
        }
        proof {
            assert(source@.take(n as int) =~= source@);
        }
        Self {
            source: chars,
            at: 0,
            translate_colorcodes,
            text: String::new(),
            color: None,
            bold: false,
            italic: false,
            underlined: false,
            strikethrough: false,
            obfuscated: false,
            done: Vec::new(),
        }
    }

    fn parse(self) -> (r: Chat)
        requires
            self.stands_at(
                Reading { at: 0, text: Seq::empty(), style: plain(), done: Seq::empty() },
            ),
        ensures
            stands_for(r, traditional_runs(self.source@, self.translate_colorcodes)),
    {
        let mut this = self;
        let ghost source = this.source@;
        let ghost translate = this.translate_colorcodes;
        let ghost start = Reading {
            at: 0,
            text: Seq::empty(),
            style: plain(),
            done: Seq::empty(),
        };
        let ghost mut s = start;
        loop
            invariant
                this.source@ == source,
                this.translate_colorcodes == translate,
                self.source@ == source,
                self.translate_colorcodes == translate,
                start == (Reading {
                    at: 0,
                    text: Seq::empty(),
                    style: plain(),
                    done: Seq::empty(),
                }),
                this.stands_at(s),
                read_on(source, translate, s) == read_on(source, translate, start),
            decreases source.len() - this.at,
        {
            let ghost before = s;
            if this.at >= this.source.len() {
                return this.finalize(Ghost(s));
            }
            match this.consume_formatter() {
                Some(formatter) => {
                    proof {
                        s = formatted(Reading { at: before.at + 2, ..before }, formatter);
                    }
                    this.handle_formatter(formatter, Ghost(Reading { at: before.at + 2, ..before }))
                },
                None => {
                    let ghost skipped = (this.at - before.at) as nat;
                    match this.consume_char() {
                        Some(next) => {
                            this.push_next(next);
                            proof {
                                s = Reading {
                                    at: (before.at + skipped + 1) as nat,
                                    text: before.text.push(next),
                                    ..before
                                };
                            }
                        },
                        None => {
                            proof {
                                s = Reading { at: before.at + 1, ..before };
                            }
                            return this.finalize(Ghost(s));
                        },
                    }
                },
            }
        }
    }

    fn handle_formatter(&mut self, formatter: Formatter, Ghost(s): Ghost<Reading>)
        requires
            old(self).stands_at(s),
        ensures
            final(self).stands_at(formatted(s, formatter)),
            final(self).source == old(self).source,
            final(self).translate_colorcodes == old(self).translate_colorcodes,
    {
        let ghost mut now = s;
        if self.has_text() {
            self.finish_current(Ghost(s));
            proof {
                now = cut(s);
            }
        }
        proof {
            assert(now.text =~= Seq::<char>::empty() || now.text.len() > 0);
            if formatter is Color {
                assert(self.text@ =~= Seq::<char>::empty());
                assert(cut(now).done == now.done);
            }
        }
        match formatter {
            Formatter::Color(color) => {
                self.finish_current(Ghost(now));
                self.color = Some(color);
            },
            Formatter::Obfuscated => self.obfuscated = true,
            Formatter::Bold => self.bold = true,
            Formatter::Strikethrough => self.strikethrough = true,
            Formatter::Underline => self.underlined = true,
            Formatter::Italic => self.italic = true,
            _ => {},
        }
    }

    fn push_next(&mut self, next: char)
        ensures
            final(self).text@ == old(self).text@.push(next),
            final(self).source == old(self).source,
            final(self).at == old(self).at,
            final(self).translate_colorcodes == old(self).translate_colorcodes,
            final(self).style() == old(self).style(),
            final(self).done == old(self).done,
    {
        self.text.push(next);
    }

    fn finish_current(&mut self, Ghost(s): Ghost<Reading>)
        requires
            old(self).stands_at(s),
        ensures
            final(self).stands_at(cut(s)),
            final(self).source == old(self).source,
            final(self).translate_colorcodes == old(self).translate_colorcodes,
    {
        if self.has_text() {
            let current = TextComponent {
                text: self.text.clone(),
                base: BaseComponent {
                    color: self.color,
                    bold: self.bold,
                    italic: self.italic,
                    underlined: self.underlined,
                    strikethrough: self.strikethrough,
                    obfuscated: self.obfuscated,
                    hover_event: None,
                    click_event: None,
                    insertion: None,
                    extra: Vec::new(),
                },
            };
            let ghost before = self.done@;
            let ghost run = Run { style: s.style, text: s.text };
            proof {
                assert(current.is_run(run));
            }
            self.text = String::new();
            self.done.push(current);
            proof {
                assert forall|i: int| 0 <= i < self.done@.len() implies (#[trigger] self.done@[i]).is_run(
                    s.done.push(run)[i],
                ) by {
                    if i < before.len() {
                        assert(self.done@[i] == before[i]);
                    }
                }
            }
        } else {
            proof {
                assert(self.text@ =~= Seq::<char>::empty());
            }
        }
        self.reset_style();
    }

    fn reset_style(&mut self)
        ensures
            final(self).style() == plain(),
            final(self).source == old(self).source,
            final(self).at == old(self).at,
            final(self).translate_colorcodes == old(self).translate_colorcodes,
            final(self).text == old(self).text,
            final(self).done == old(self).done,
    {
        self.bold = false;
        self.italic = false;
        self.underlined = false;
        self.strikethrough = false;
        self.obfuscated = false;
        self.color = None;
    }

    fn has_text(&self) -> (r: bool)
        ensures
            r == (self.text@.len() > 0),
    {
        !self.text.as_str().is_empty()
    }

    fn is_on_formatter(&self) -> (r: bool)
        ensures
            r == (self.at < self.source@.len() && starts_code(
                self.source@[self.at as int],
                self.translate_colorcodes,
            )),
    {
        if self.at < self.source.len() {
            let c = self.source[self.at];
            c == SECTION_SYMBOL || (self.translate_colorcodes && c == '&')
        } else {
            false
        }
    }

    fn consume_char(&mut self) -> (r: Option<char>)
        requires
            old(self).at <= old(self).source@.len(),
        ensures
            final(self).source == old(self).source,
            final(self).translate_colorcodes == old(self).translate_colorcodes,
            final(self).text == old(self).text,
            final(self).style() == old(self).style(),
            final(self).done == old(self).done,
            match r {
                Some(c) => old(self).at < old(self).source@.len() && c == old(self).source@[old(
                    self,
                ).at as int] && final(self).at == old(self).at + 1,
                None => old(self).at == old(self).source@.len() && final(self).at == old(self).at,
            },
    {
        if self.at < self.source.len() {
            let c = self.source[self.at];
            self.at += 1;
            Some(c)
        } else {
            None
        }
    }

    /// Steps over a formatting code, if the parser stands on one. Where a
    /// code sign stands in front of no code, the sign alone is stepped over.
    fn consume_formatter(&mut self) -> (r: Option<Formatter>)
        requires
            old(self).at <= old(self).source@.len(),
        ensures
            final(self).source == old(self).source,
            final(self).translate_colorcodes == old(self).translate_colorcodes,
            final(self).text == old(self).text,
            final(self).style() == old(self).style(),
            final(self).done == old(self).done,
            final(self).at <= final(self).source@.len(),
            ({
                let source = old(self).source@;
                let at = old(self).at as int;
                if at < source.len() && starts_code(source[at], old(self).translate_colorcodes) {
                    if at + 1 < source.len() {
                        match Formatter::spec_from_code(source[at + 1]) {
                            Some(f) => r == Some(f) && final(self).at == at + 2,
                            None => r is None && final(self).at == at + 1,
                        }
                    } else {
                        r is None && final(self).at == at + 1
                    }
                } else {
                    r is None && final(self).at == at
                }
            }),
    {
        if self.is_on_formatter() {
            self.consume_char()?;
            let c = self.consume_char()?;
            let out = Formatter::from_code(&c);
            if out.is_none() {
                self.at -= 1;
            }
            out
        } else {
            None
        }
    }

    fn finalize(self, Ghost(s): Ghost<Reading>) -> (r: Chat)
        requires
            self.stands_at(s),
        ensures
            stands_for(r, merged(cut(s).done)),
    {
        let mut this = self;
        this.finish_current(Ghost(s));
        this.simplify(Ghost(cut(s).done));
        let n_components = this.done.len();
        if n_components == 1 {
            return Chat::Text(this.done.remove(0));
        }
        let mut top_level = TextComponent { text: String::new(), base: BaseComponent::default() };
        let ghost runs = merged(cut(s).done);
        let mut done = this.done;
        let mut extra: Vec<BoxedChat> = Vec::new();
        while done.len() > 0
            invariant
                extra@.len() + done@.len() == runs.len(),
                forall|i: int|
                    0 <= i < extra@.len() ==> (*(#[trigger] extra@[i]) matches Chat::Text(part)
                        && part.is_run(runs[i])),
                forall|i: int|
                    0 <= i < done@.len() ==> (#[trigger] done@[i]).is_run(runs[extra@.len() + i]),
            decreases done@.len(),
        {
            let ghost k = extra@.len();
            let ghost rest = done@;
            let component = done.remove(0);
            proof {
                assert(component == rest[0]);
                assert forall|i: int| 0 <= i < done@.len() implies (#[trigger] done@[i]).is_run(
                    runs[k + 1 + i],
                ) by {
                    assert(done@[i] == rest[i + 1]);
                }
            }
            extra.push(Chat::Text(component).boxed());
        }
        top_level.base.extra = extra;
        Chat::Text(top_level)
    }

    fn simplify(&mut self, Ghost(runs): Ghost<Seq<Run>>)
        requires
            are_runs(old(self).done@, runs),
        ensures
            are_runs(final(self).done@, merged(runs)),
    {
        let ghost total = runs.len();
        let mut done: Vec<TextComponent> = Vec::new();
        core::mem::swap(&mut done, &mut self.done);
        let mut updated: Vec<TextComponent> = Vec::new();
        let mut last: Option<TextComponent> = None;
        proof {
            assert(runs.take(0) =~= Seq::<Run>::empty());
        }
        while done.len() > 0
            invariant
                done@.len() <= total,
                total == runs.len(),
                forall|i: int|
                    0 <= i < done@.len() ==> (#[trigger] done@[i]).is_run(
                        runs[total - done@.len() + i],
                    ),
                match last {
                    Some(la) => merged(runs.take(total - done@.len())).len() == updated@.len() + 1
                        && are_runs(updated@.push(la), merged(runs.take(total - done@.len()))),
                    None => done@.len() == total && updated@.len() == 0,
                },
            decreases done@.len(),
        {
            let ghost k = (total - done@.len()) as int;
            let ghost rest = done@;
            let ghost front = merged(runs.take(k));
            let cur = done.remove(0);
            proof {
                assert(cur == rest[0]);
                assert(cur.is_run(runs[k]));
                assert forall|i: int| 0 <= i < done@.len() implies (#[trigger] done@[i]).is_run(
                    runs[k + 1 + i],
                ) by {
                    assert(done@[i] == rest[i + 1]);
                }
                assert(runs.take(k + 1).drop_last() =~= runs.take(k));
                assert(runs.take(k + 1).last() == runs[k]);
            }
            match last {
                Some(la) => {
                    proof {
                        assert(updated@.push(la)[updated@.len() as int] == la);
                        assert(la.is_run(front.last()));
                    }
                    if la.base.has_same_style_as(&cur.base) {
                        let ghost old_la = la;
                        let mut la = la;
                        la.text.append(cur.text.as_str());
                        proof {
                            let joined = merged(runs.take(k + 1));
                            let n = updated@.len() as int;
                            assert(joined == front.drop_last().push(
                                Run { style: runs[k].style, text: front.last().text + runs[k].text },
                            ));
                            assert(la.is_run(joined[n]));
                            assert forall|i: int| 0 <= i < joined.len() implies (#[trigger] updated@.push(
                                la,
                            )[i]).is_run(joined[i]) by {
                                if i < n {
                                    assert(updated@.push(la)[i] == updated@.push(old_la)[i]);
                                    assert(joined[i] == front[i]);
                                }
                            }
                        }
                        last = Some(la);
                    } else {
                        let ghost before = updated@;
                        updated.push(la);
                        proof {
                            let joined = merged(runs.take(k + 1));
                            assert(joined == front.push(runs[k]));
                            assert forall|i: int| 0 <= i < joined.len() implies (#[trigger] updated@.push(
                                cur,
                            )[i]).is_run(joined[i]) by {
                                if i < updated@.len() {
                                    assert(updated@.push(cur)[i] == before.push(la)[i]);
                                    assert(joined[i] == front[i]);
                                }
                            }
                        }
                        last = Some(cur);
                    }
                },
                None => {
                    last = Some(cur);
                    proof {
                        assert(runs.take(0) =~= Seq::<Run>::empty());
                        let joined = merged(runs.take(1));
                        assert(joined =~= seq![runs[0]]);
                    }
                },
            }
        }
        proof {
            assert(runs.take(total as int) =~= runs);
        }
        match last {
            Some(l) => {
                updated.push(l);
            },
            None => {},
        }
        self.done = updated;
    }
}

impl Chat {
    /// Reads legacy text, in which a section sign and a code character set
    /// the look of what follows. With `translate_colorcodes` an ampersand
    /// does what the section sign does.
    pub fn from_traditional(orig: &str, translate_colorcodes: bool) -> (r: Chat)
        ensures
            stands_for(r, traditional_runs(orig@, translate_colorcodes)),
    {
        TraditionalParser::new(orig, translate_colorcodes).parse()
    }
}

/// The formatting codes that put a look on: the colour first, then bold,
/// italic, strikethrough, underline and obfuscated, each behind a section
/// sign.
pub open spec fn style_codes(style: Style) -> Seq<char> {
    (match style.color {
        Some(c) => seq![SECTION_SYMBOL, c.spec_code()],
        None => Seq::empty(),
    }) + (if style.bold {
        seq![SECTION_SYMBOL, 'l']
    } else {
        Seq::empty()
    }) + (if style.italic {
        seq![SECTION_SYMBOL, 'o']
    } else {
        Seq::empty()
    }) + (if style.strikethrough {
        seq![SECTION_SYMBOL, 'm']
    } else {
        Seq::empty()
    }) + (if style.underlined {
        seq![SECTION_SYMBOL, 'n']
    } else {
        Seq::empty()
    }) + (if style.obfuscated {
        seq![SECTION_SYMBOL, 'k']
    } else {
        Seq::empty()
    })
}

/// The codes in front of a stretch: those of its look; for a plain stretch
/// behind one with codes, a reset; for a plain stretch elsewhere, none.
pub open spec fn leading_codes(style: Style, prev_colored: bool) -> Option<Seq<char>> {
    if style_codes(style).len() > 0 {
        Some(style_codes(style))
    } else if prev_colored {
        Some(seq![SECTION_SYMBOL, 'r'])
    } else {
        None
    }
}

/// The legacy text and the state after the component's own text: the text
/// with its codes in front, if there is any, and whether codes were
/// written.
pub open spec fn own_traditional(top: TextComponent) -> (Seq<char>, bool) {
    if top.text@.len() > 0 {
        match leading_codes(top.base.style(), false) {
            Some(codes) => (codes + top.text@, true),
            None => (top.text@, false),
        }
    } else {
        (Seq::empty(), false)
    }
}

/// The legacy text of a component and of the first `k` of those that follow
/// it, and whether the last stretch written had codes. Only text components
/// are written; others are passed over.
pub open spec fn traditional_upto(top: TextComponent, k: nat) -> (Seq<char>, bool)
    decreases k,
{
    if k == 0 {
        own_traditional(top)
    } else {
        let (buf, last_had) = traditional_upto(top, (k - 1) as nat);
        match *top.base.extra@[k - 1] {
            Chat::Text(child) => match leading_codes(child.base.style(), last_had) {
                Some(codes) => (buf + codes + child.text@, true),
                None => (buf + child.text@, false),
            },
            _ => (buf, last_had),
        }
    }
}

impl TextComponent {
    /// The component as legacy text: its own text and that of the text
    /// components that follow it, each with its formatting codes in front.
    pub fn to_traditional(&self) -> (r: String)
        ensures
            r@ == traditional_upto(*self, self.base.extra@.len()).0,
    {
        let b = &self.base;
        let text = &self.text;

        let (mut buf, has_formatters) = if !text.as_str().is_empty() {
            let formatters = self.traditional_formatters(false);
            let has_formatters = formatters.is_some();
            let mut buf = match formatters {
                Some(codes) => codes,
                None => String::new(),
            };
            buf.append(text.as_str());
            proof {
                assert(Seq::<char>::empty() + text@ =~= text@);
            }
            (buf, has_formatters)
        } else {
            (String::new(), false)
        };

        let mut last_had_formatters = has_formatters;
        let mut i: usize = 0;
        while i < b.extra.len()
            invariant
                i <= b.extra@.len(),
                *b == self.base,
                (buf@, last_had_formatters) == traditional_upto(*self, i as nat),
            decreases b.extra@.len() - i,
        {
            let extra: &Chat = &b.extra[i];
            if let Chat::Text(child) = extra {
                match child.traditional_formatters(last_had_formatters) {
                    Some(child_fmts) => {
                        last_had_formatters = true;
                        buf.append(child_fmts.as_str())
                    },
                    None => {
                        last_had_formatters = false;
                    },
                }
                buf.append(child.text.as_str());
            }
            i += 1;
        }
        buf
    }

    fn traditional_formatters(&self, prev_colored: bool) -> (r: Option<String>)
        ensures
            match r {
                Some(codes) => leading_codes(self.base.style(), prev_colored) == Some(codes@),
                None => leading_codes(self.base.style(), prev_colored) is None,
            },
    {
        let b = &self.base;
        let mut buf = String::new();

        if let Some(c) = b.color {
            buf.push(SECTION_SYMBOL);
            buf.push(c.code());
        }
        apply_formatter(&mut buf, b.bold, Formatter::Bold);
        apply_formatter(&mut buf, b.italic, Formatter::Italic);
        apply_formatter(&mut buf, b.strikethrough, Formatter::Strikethrough);
        apply_formatter(&mut buf, b.underlined, Formatter::Underline);
        apply_formatter(&mut buf, b.obfuscated, Formatter::Obfuscated);
        proof {
            assert(buf@ =~= style_codes(b.style()));
        }
        if buf.as_str().is_empty() {
            if prev_colored {
                buf.push(SECTION_SYMBOL);
                buf.push('r');
                proof {
                    assert(buf@ =~= seq![SECTION_SYMBOL, 'r']);
                }
                Some(buf)
            } else {
                None
            }
        } else {
            Some(buf)
        }
    }
}

/// Writes the code of `formatter` behind a section sign, if `b` says so.
fn apply_formatter(buf: &mut String, b: bool, formatter: Formatter)
    ensures
        final(buf)@ == old(buf)@ + if b {
            seq![SECTION_SYMBOL, formatter.spec_code()]
        } else {
            Seq::empty()
        },
{
    if b {
        buf.push(SECTION_SYMBOL);
        buf.push(formatter.code());
        proof {
            assert(buf@ =~= old(buf)@ + seq![SECTION_SYMBOL, formatter.spec_code()]);
        }
    } else {
        proof {
            assert(buf@ =~= old(buf)@ + Seq::<char>::empty());
        }
    }
}

impl Chat {
    /// The component as legacy text, if it is a text component.
    pub fn to_traditional(&self) -> (r: Option<String>)
        ensures
            match (r, *self) {
                (Some(text), Chat::Text(body)) => text@ == traditional_upto(
                    body,
                    body.base.extra@.len(),
                ).0,
                (None, Chat::Text(_)) => false,
                (Some(_), _) => false,
                (None, _) => true,
            },
    {
        match self {
            Chat::Text(body) => Some(body.to_traditional()),
            _ => None,
        }
    }
}

} // verus!
