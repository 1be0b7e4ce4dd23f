//! Summaries: short renderings of publishable items.

use vstd::prelude::*;

verus! {

/// An item that can summarize itself.
pub trait Summary: Sized {
    /// What the item summarizes to.
    spec fn spec_summary(&self) -> Seq<char>;

    /// Renders the item's summary.
    fn summarize(&self) -> (s: String)
        ensures
            s@ == self.spec_summary(),
    ;

    /// The placeholder summary used where no specific one is wanted.
    fn default_summary(&self) -> (s: String)
        ensures
            s@ == "(Read more...)"@,
    {
        String::from_str("(Read more...)")
    }
}

/// An article: a headline over its content.
pub struct Article {
    /// The headline.
    pub headline: String,
    /// The body of the article.
    pub content: String,
}

impl Summary for Article {
    open spec fn spec_summary(&self) -> Seq<char> {
        self.headline@ + ": "@ + self.content@
    }

    fn summarize(&self) -> (s: String) {
        let s = String::from_str(self.headline.as_str());
        let s = s.concat(": ");
        s.concat(self.content.as_str())
    }
}

/// A news item: a headline with its author and location.
pub struct News {
    /// The headline.
    pub headline: String,
    /// Where the news happened.
    pub location: String,
    /// Who reported it.
    pub author: String,
    /// The body of the report.
    pub content: String,
}

impl Summary for News {
    open spec fn spec_summary(&self) -> Seq<char> {
        self.headline@ + ", by "@ + self.author@ + " ("@ + self.location@ + ")"@
    }

    fn summarize(&self) -> (s: String) {
        let s = String::from_str(self.headline.as_str());
        let s = s.concat(", by ");
        let s = s.concat(self.author.as_str());
        let s = s.concat(" (");
        let s = s.concat(self.location.as_str());
        s.concat(")")
    }
}

/// Creates a sample summarizable item.
pub fn create_summarizable() -> (n: News)
    ensures
        n.headline@ == "Latest News"@,
        n.location@ == "Anywhere"@,
        n.author@ == "Anyone"@,
        n.content@ == "This is the content of the latest news."@,
{
    News {
        headline: String::from_str("Latest News"),
        location: String::from_str("Anywhere"),
        author: String::from_str("Anyone"),
        content: String::from_str("This is the content of the latest news."),
    }
}

/// A pair of two values of one type.
pub struct Pair<T> {
    /// The first value.
    pub x: T,
    /// The second value.
    pub y: T,
}

impl<T> Pair<T> {
    /// Creates a pair from its two values.
    pub fn new(x: T, y: T) -> (p: Pair<T>)
        ensures
            p.x == x,
            p.y == y,
    {
        Pair { x, y }
    }
}

} // verus!
