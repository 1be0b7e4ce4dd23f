//! Drawable components and the screens that render them in order.

use vstd::prelude::*;

verus! {

/// A component that can render itself as text.
pub trait Draw {
    /// What the component renders to.
    spec fn drawn(&self) -> Seq<char>;

    /// Renders the component.
    fn draw(&self) -> (s: String)
        ensures
            s@ == self.drawn(),
    ;
}

/// A push button with a label.
pub struct Button {
    /// The width of the button.
    pub width: u32,
    /// The height of the button.
    pub height: u32,
    /// The label shown on the button.
    pub label: String,
}

impl Draw for Button {
    open spec fn drawn(&self) -> Seq<char> {
        self.label@
    }

    fn draw(&self) -> (s: String) {
        String::from_str(self.label.as_str())
    }
}

/// A text field with current contents.
pub struct TextField {
    /// The width of the field.
    pub width: u32,
    /// The height of the field.
    pub height: u32,
    /// The text the field holds.
    pub text: String,
}

impl Draw for TextField {
    open spec fn drawn(&self) -> Seq<char> {
        self.text@
    }

    fn draw(&self) -> (s: String) {
        String::from_str(self.text.as_str())
    }
}

/// Any of the component kinds a screen can hold, so that one screen can
/// mix them.
pub enum Widget {
    /// A button.
    Button(Button),
    /// A text field.
    TextField(TextField),
}

impl Draw for Widget {
    open spec fn drawn(&self) -> Seq<char> {
        match self {
            Widget::Button(b) => b.drawn(),
            Widget::TextField(t) => t.drawn(),
        }
    }

    fn draw(&self) -> (s: String) {
        match self {
            Widget::Button(b) => b.draw(),
            Widget::TextField(t) => t.draw(),
        }
    }
}

/// A screen holding components of mixed kinds.
pub struct Screen {
    /// The components, in render order.
    pub components: Vec<Widget>,
}

impl Screen {
    /// Renders every component, in order.
    pub fn run(&self) -> (out: Vec<String>)
        ensures
            out@.len() == self.components@.len(),
            forall|i: int| 0 <= i < out@.len() ==> (#[trigger] out@[i])@ == self.components@[i]
                .drawn(),
    {
        let mut out: Vec<String> = Vec::new();
        let n = self.components.len();
        let mut i: usize = 0;
        while i < n
            invariant
                n == self.components@.len(),
                i <= n,
                out@.len() == i,
                forall|j: int| 0 <= j < i ==> (#[trigger] out@[j])@ == self.components@[j].drawn(),
            decreases n - i,
        {
            out.push(self.components[i].draw());
            i = i + 1;
        }
        out
    }
}

/// A screen whose components all have one statically chosen kind.
pub struct AnotherScreenDefinition<T: Draw> {
    /// The components, in render order.
    pub components: Vec<T>,
}

impl<T: Draw> AnotherScreenDefinition<T> {
    /// Renders every component, in order.
    pub fn run(&self) -> (out: Vec<String>)
        ensures
            out@.len() == self.components@.len(),
            forall|i: int| 0 <= i < out@.len() ==> (#[trigger] out@[i])@ == self.components@[i]
                .drawn(),
    {
        let mut out: Vec<String> = Vec::new();
        let n = self.components.len();
        let mut i: usize = 0;
        while i < n
            invariant
                n == self.components@.len(),
                i <= n,
                out@.len() == i,
                forall|j: int| 0 <= j < i ==> (#[trigger] out@[j])@ == self.components@[j].drawn(),
            decreases n - i,
        {
            out.push(self.components[i].draw());
            i = i + 1;
        }
        out
    }
}

} // verus!
