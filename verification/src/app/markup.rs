//! What the window shows, as a run of tokens.
//!
//! An element is opened, gets its classes and attributes, then its content, and is
//! closed.

use crate::app::UiCommand;
use crate::registry::ToolId;
use vstd::prelude::*;
use vstd::string::*;

verus! {

/// A colour of a tool's accent.
#[derive(Debug, Clone, Copy, PartialEq, Eq, Structural)]
pub enum AccentPart {
    Shadow,
    Body,
    Saturated,
    Shifted,
    End,
}

/// A piece of what the window shows.
#[derive(Debug)]
pub enum UiToken {
    /// An element begins.
    Open(&'static str),
    Class(&'static str),
    Id(&'static str),
    Attribute(&'static str, String),
    /// The colour of a gradient's stop: a part of a tool's accent.
    StopColour(ToolId, AccentPart),
    /// The style of a tool's accent.
    Accent(ToolId),
    /// The command that a click on the element gives.
    Command(UiCommand),
    Text(String),
    /// The element ends.
    Close,
}

/// A piece of what the window shows, as plain texts.
pub ghost enum TokenView {
    Open(Seq<char>),
    Class(Seq<char>),
    Id(Seq<char>),
    Attribute(Seq<char>, Seq<char>),
    StopColour(ToolId, AccentPart),
    Accent(ToolId),
    Command(UiCommand),
    Text(Seq<char>),
    Close,
}

impl View for UiToken {
    type V = TokenView;

    open spec fn view(&self) -> TokenView {
        match self {
            UiToken::Open(tag) => TokenView::Open(tag@),
            UiToken::Class(class) => TokenView::Class(class@),
            UiToken::Id(id) => TokenView::Id(id@),
            UiToken::Attribute(name, value) => TokenView::Attribute(name@, value@),
            UiToken::StopColour(tool, part) => TokenView::StopColour(*tool, *part),
            UiToken::Accent(tool) => TokenView::Accent(*tool),
            UiToken::Command(command) => TokenView::Command(*command),
            UiToken::Text(text) => TokenView::Text(text@),
            UiToken::Close => TokenView::Close,
        }
    }
}

/// What the window shows, as far as it is written.
#[derive(Debug)]
pub struct Markup {
    pub tokens: Vec<UiToken>,
}

/// What the window shows, as far as it is written, as plain texts.
pub ghost struct MarkupView {
    pub tokens: Seq<TokenView>,
}

impl View for Markup {
    type V = MarkupView;

    open spec fn view(&self) -> MarkupView {
        MarkupView { tokens: self.tokens@.map_values(|t: UiToken| t@) }
    }
}

impl MarkupView {
    pub open spec fn with(self, token: TokenView) -> MarkupView {
        MarkupView { tokens: self.tokens.push(token) }
    }

    pub open spec fn open(self, tag: Seq<char>) -> MarkupView {
        self.with(TokenView::Open(tag))
    }

    pub open spec fn class(self, class: Seq<char>) -> MarkupView {
        self.with(TokenView::Class(class))
    }

    pub open spec fn id(self, id: Seq<char>) -> MarkupView {
        self.with(TokenView::Id(id))
    }

    pub open spec fn attribute(self, name: Seq<char>, value: Seq<char>) -> MarkupView {
        self.with(TokenView::Attribute(name, value))
    }

    pub open spec fn stop_colour(self, tool: ToolId, part: AccentPart) -> MarkupView {
        self.with(TokenView::StopColour(tool, part))
    }

    pub open spec fn accent(self, tool: ToolId) -> MarkupView {
        self.with(TokenView::Accent(tool))
    }

    pub open spec fn command(self, command: UiCommand) -> MarkupView {
        self.with(TokenView::Command(command))
    }

    pub open spec fn text(self, text: Seq<char>) -> MarkupView {
        self.with(TokenView::Text(text))
    }

    pub open spec fn close(self) -> MarkupView {
        self.with(TokenView::Close)
    }

    /// An element with a class, opened.
    pub open spec fn begin(self, tag: Seq<char>, class: Seq<char>) -> MarkupView {
        self.open(tag).class(class)
    }

    /// An element that holds a text.
    pub open spec fn element(self, tag: Seq<char>, text: Seq<char>) -> MarkupView {
        self.open(tag).text(text).close()
    }

    /// An element with a class that holds a text.
    pub open spec fn element_in(
        self,
        tag: Seq<char>,
        class: Seq<char>,
        text: Seq<char>,
    ) -> MarkupView {
        self.begin(tag, class).text(text).close()
    }

    /// How many elements are open.
    pub open spec fn depth(self) -> int {
        open_elements(self.tokens)
    }
}

/// How many more elements are opened than closed.
pub open spec fn open_elements(tokens: Seq<TokenView>) -> int
    decreases tokens.len(),
{
    if tokens.len() == 0 {
        0
    } else {
        open_elements(tokens.drop_last()) + match tokens.last() {
            TokenView::Open(_) => 1int,
            TokenView::Close => -1int,
            _ => 0int,
        }
    }
}

/// Only the ends of an element change how many are open.
pub broadcast proof fn lemma_depth(markup: MarkupView, token: TokenView)
    ensures
        #[trigger] markup.with(token).depth() == markup.depth() + match token {
            TokenView::Open(_) => 1int,
            TokenView::Close => -1int,
            _ => 0int,
        },
{
    assert(markup.tokens.push(token).drop_last() == markup.tokens);
}

impl Markup {
    /// Nothing written yet.
    pub fn new() -> (markup: Self)
        ensures
            markup@.tokens == Seq::<TokenView>::empty(),
    {
        let markup = Markup { tokens: Vec::new() };
        assert(markup@.tokens =~= Seq::empty());
        markup
    }

    fn push(&mut self, token: UiToken)
        ensures
            final(self)@ == old(self)@.with(token@),
    {
        self.tokens.push(token);
        assert(self@.tokens =~= old(self)@.tokens.push(token@));
    }

    pub fn open(&mut self, tag: &'static str)
        ensures
            final(self)@ == old(self)@.open(tag@),
    {
        self.push(UiToken::Open(tag));
    }

    pub fn class(&mut self, class: &'static str)
        ensures
            final(self)@ == old(self)@.class(class@),
    {
        self.push(UiToken::Class(class));
    }

    pub fn id(&mut self, id: &'static str)
        ensures
            final(self)@ == old(self)@.id(id@),
    {
        self.push(UiToken::Id(id));
    }

    pub fn attribute(&mut self, name: &'static str, value: &str)
        ensures
            final(self)@ == old(self)@.attribute(name@, value@),
    {
        self.push(UiToken::Attribute(name, value.to_owned()));
    }

    pub fn stop_colour(&mut self, tool: ToolId, part: AccentPart)
        ensures
            final(self)@ == old(self)@.stop_colour(tool, part),
    {
        self.push(UiToken::StopColour(tool, part));
    }

    pub fn accent(&mut self, tool: ToolId)
        ensures
            final(self)@ == old(self)@.accent(tool),
    {
        self.push(UiToken::Accent(tool));
    }

    pub fn command(&mut self, command: UiCommand)
        ensures
            final(self)@ == old(self)@.command(command),
    {
        self.push(UiToken::Command(command));
    }

    pub fn text(&mut self, text: &str)
        ensures
            final(self)@ == old(self)@.text(text@),
    {
        self.push(UiToken::Text(text.to_owned()));
    }

    pub fn close(&mut self)
        ensures
            final(self)@ == old(self)@.close(),
    {
        self.push(UiToken::Close);
    }

    /// Opens an element with a class.
    pub fn begin(&mut self, tag: &'static str, class: &'static str)
        ensures
            final(self)@ == old(self)@.begin(tag@, class@),
    {
        self.open(tag);
        self.class(class);
    }

    /// Writes an element that holds a text.
    pub fn element(&mut self, tag: &'static str, text: &str)
        ensures
            final(self)@ == old(self)@.element(tag@, text@),
    {
        self.open(tag);
        self.text(text);
        self.close();
    }

    /// Writes an element with a class that holds a text.
    pub fn element_in(&mut self, tag: &'static str, class: &'static str, text: &str)
        ensures
            final(self)@ == old(self)@.element_in(tag@, class@, text@),
    {
        self.begin(tag, class);
        self.text(text);
        self.close();
    }
}

} // verus!
