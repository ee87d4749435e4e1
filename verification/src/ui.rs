//! The state and the small value types of the graphical front ends: the
//! counter demo, and the options that widgets are configured with.

use vstd::prelude::*;

verus! {

/// What the counter demo reacts to.
#[derive(Debug, Clone, Copy, PartialEq, Eq, Structural)]
pub enum CounterMessage {
    IncrementCounter,
    DecrementCounter,
}

/// The counter demo's state.
#[derive(Debug)]
pub struct Counter {
    count: i32,
}

impl Counter {
    pub closed spec fn value(&self) -> int {
        self.count as int
    }

    /// A counter at zero.
    pub fn new() -> (r: Counter)
        ensures
            r.value() == 0,
    {
        Counter { count: 0 }
    }

    /// The current count.
    pub fn count(&self) -> (r: i32)
        ensures
            r as int == self.value(),
    {
        self.count
    }

    /// Counts one up or down.
    pub fn update(&mut self, message: CounterMessage)
        requires
            message == CounterMessage::IncrementCounter ==> old(self).value() < i32::MAX,
            message == CounterMessage::DecrementCounter ==> old(self).value() > i32::MIN,
        ensures
            message == CounterMessage::IncrementCounter ==> final(self).value() == old(self).value() + 1,
            message == CounterMessage::DecrementCounter ==> final(self).value() == old(self).value() - 1,
    {
        match message {
            CounterMessage::IncrementCounter => self.count = self.count + 1,
            CounterMessage::DecrementCounter => self.count = self.count - 1,
        }
    }
}

/// How a percentage is drawn.
#[derive(Debug, Clone, Copy, PartialEq, Eq, Structural)]
pub enum DisplayType {
    Circle,
    Bar,
}

/// The look of a page header.
#[derive(Debug, Clone, Copy, PartialEq, Eq, Structural)]
pub enum HeaderStyle {
    Default,
    Drawer,
}

impl Default for HeaderStyle {
    fn default() -> (r: HeaderStyle)
        ensures
            r == HeaderStyle::Default,
    {
        HeaderStyle::Default
    }
}

/// The severity of a toast notification.
#[derive(Debug, Clone, Copy, PartialEq, Eq, Structural)]
pub enum Kind {
    Info,
    Success,
    Warning,
    Error,
}

/// How a dialog is placed.
#[derive(Debug, Clone, Copy, PartialEq, Eq, Structural)]
pub enum Display {
    Normal,
    Overlay,
    Float,
}

/// A text input of the profile picker.
#[derive(Debug)]
pub enum Input {
    Host(String),
    Username(String),
    Password(String),
    ConfirmPassword(String),
}

/// What a window shows: a terminal, with the title that the terminal
/// display reports, or a placeholder.
#[derive(Debug)]
pub enum WindowContent {
    Terminal { title: String },
    Todo,
}

impl WindowContent {
    /// The window's title: the terminal's own title, or "Todo".
    pub fn title(&self) -> (r: String)
        ensures
            self matches WindowContent::Terminal { title } ==> r@ == title@,
            self is Todo ==> r@ == "Todo"@,
    {
        match self {
            WindowContent::Terminal { title } => title.clone(),
            WindowContent::Todo => "Todo".to_owned(),
        }
    }
}

} // verus!
