//! Text components: the styled text of chat messages, disconnect reasons and
//! the message of the day.
use vstd::prelude::*;

verus! {

#[derive(Clone, Copy, Debug, PartialEq, Eq, Structural)]
pub enum Color {
    Black,
    DarkBlue,
    DarkGreen,
    DarkAqua,
    DarkRed,
    DarkPurple,
    Gold,
    Gray,
    DarkGray,
    Blue,
    Green,
    Aqua,
    Red,
    LightPurple,
    Yellow,
    White,
    Rgb(u8, u8, u8),
}

/// What a component shows.
pub enum Type {
    Text(String),
    Keybind(String),
    Translation { translate: String, with: Vec<Component> },
}

pub struct Component {
    pub bold: Option<bool>,
    pub italic: Option<bool>,
    pub underlined: Option<bool>,
    pub strikethrough: Option<bool>,
    pub obfuscated: Option<bool>,
    pub font: Option<String>,
    pub color: Option<Color>,
    pub insertion: Option<String>,
    pub extra: Vec<Component>,
    pub content: Option<Type>,
}

impl Component {
    /// Whether every style and the children are left unset.
    pub open spec fn unstyled(&self) -> bool {
        &&& self.bold is None
        &&& self.italic is None
        &&& self.underlined is None
        &&& self.strikethrough is None
        &&& self.obfuscated is None
        &&& self.font is None
        &&& self.color is None
        &&& self.insertion is None
        &&& self.extra@.len() == 0
    }

    /// Whether `self` and `o` agree on every field but the named ones.
    pub open spec fn same_but_flags(&self, o: &Component) -> bool {
        &&& self.italic == o.italic
        &&& self.font == o.font
        &&& self.color == o.color
        &&& self.insertion == o.insertion
        &&& self.extra == o.extra
        &&& self.content == o.content
    }

    /// An unstyled component with the given content.
    pub fn content(content: Type) -> (r: Component)
        ensures
            r.unstyled(),
            r.content == Some(content),
    {
        Component {
            content: Some(content),
            bold: None,
            italic: None,
            underlined: None,
            strikethrough: None,
            obfuscated: None,
            font: None,
            color: None,
            insertion: None,
            extra: Vec::new(),
        }
    }

    /// An unstyled component showing `text`.
    pub fn text(text: &str) -> (r: Component)
        ensures
            r.unstyled(),
            r.content matches Some(Type::Text(t)) && t@ == text@,
    {
        Self::content(Type::Text(text.to_owned()))
    }

    /// An unstyled component showing the translation of key `translate`,
    /// with no arguments.
    pub fn translate(translate: &str) -> (r: Component)
        ensures
            r.unstyled(),
            r.content matches Some(Type::Translation { translate: t, with: w }) && t@ == translate@
                && w@.len() == 0,
    {
        Self::content(Type::Translation { translate: translate.to_owned(), with: Vec::new() })
    }

    /// Appends `components` to the children.
    pub fn append(self, components: Vec<Component>) -> (r: Component)
        ensures
            r.extra@ == self.extra@ + components@,
            r.italic == self.italic,
            r.font == self.font,
            r.color == self.color,
            r.insertion == self.insertion,
            r.bold == self.bold,
            r.underlined == self.underlined,
            r.strikethrough == self.strikethrough,
            r.obfuscated == self.obfuscated,
            r.content == self.content,
    {
        let mut this = self;
        let mut components = components;
        this.extra.append(&mut components);
        this
    }

    /// Appends one child.
    pub fn push(self, component: Component) -> (r: Component)
        ensures
            r.extra@ == self.extra@.push(component),
            r.italic == self.italic,
            r.font == self.font,
            r.color == self.color,
            r.insertion == self.insertion,
            r.bold == self.bold,
            r.underlined == self.underlined,
            r.strikethrough == self.strikethrough,
            r.obfuscated == self.obfuscated,
            r.content == self.content,
    {
        let mut this = self;
        this.extra.push(component);
        this
    }

    pub fn bold(self, b: bool) -> (r: Component)
        ensures
            r.bold == Some(b),
            r.same_but_flags(&self),
            r.underlined == self.underlined,
            r.strikethrough == self.strikethrough,
            r.obfuscated == self.obfuscated,
    {
        let mut this = self;
        this.bold = Some(b);
        this
    }

    pub fn underlined(self, b: bool) -> (r: Component)
        ensures
            r.underlined == Some(b),
            r.same_but_flags(&self),
            r.bold == self.bold,
            r.strikethrough == self.strikethrough,
            r.obfuscated == self.obfuscated,
    {
        let mut this = self;
        this.underlined = Some(b);
        this
    }

    pub fn strikethrough(self, b: bool) -> (r: Component)
        ensures
            r.strikethrough == Some(b),
            r.same_but_flags(&self),
            r.bold == self.bold,
            r.underlined == self.underlined,
            r.obfuscated == self.obfuscated,
    {
        let mut this = self;
        this.strikethrough = Some(b);
        this
    }

    pub fn obfuscated(self, b: bool) -> (r: Component)
        ensures
            r.obfuscated == Some(b),
            r.same_but_flags(&self),
            r.bold == self.bold,
            r.underlined == self.underlined,
            r.strikethrough == self.strikethrough,
    {
        let mut this = self;
        this.obfuscated = Some(b);
        this
    }
}

} // verus!
