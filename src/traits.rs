//! A trait for things that can be summarised in a line, with two kinds of
//! media that implement it.

use vstd::prelude::*;

verus! {

/// Media that can be summarised in one line of text.
pub trait Summary {
    /// The text that names the author.
    spec fn author_text(&self) -> Seq<char>;

    /// Names the author.
    fn summarise_author(&self) -> (r: String)
        ensures
            r@ == self.author_text(),
    ;

    /// The one-line summary; by default, a pointer to more from the author.
    fn summarise(&self) -> (r: String)
        default_ensures
            r@ == "Read More From "@ + self.author_text() + "..."@,
    {
        let mut r = String::from_str("Read More From ");
        let author = self.summarise_author();
        r.append(author.as_str());
        r.append("...");
        r
    }
}

/// A news story.
pub struct NewsArticle {
    pub headline: String,
    pub author: String,
    pub location: String,
    pub content: String,
}

impl Summary for NewsArticle {
    open spec fn author_text(&self) -> Seq<char> {
        self.author@
    }

    fn summarise_author(&self) -> (r: String) {
        self.author.clone()
    }

    fn summarise(&self) -> (r: String)
        ensures
            r@ == self.headline@ + " by "@ + self.author@ + " ("@ + self.location@ + ")"@,
    {
        let mut r = self.headline.clone();
        r.append(" by ");
        r.append(self.author.as_str());
        r.append(" (");
        r.append(self.location.as_str());
        r.append(")");
        r
    }
}

/// A short post.
pub struct Tweet {
    pub username: String,
    pub content: String,
    pub retweet: bool,
    pub reply: bool,
}

impl Summary for Tweet {
    open spec fn author_text(&self) -> Seq<char> {
        "@"@ + self.username@
    }

    fn summarise_author(&self) -> (r: String) {
        let mut r = String::from_str("@");
        r.append(self.username.as_str());
        r
    }

    fn summarise(&self) -> (r: String)
        ensures
            r@ == self.username@ + ": "@ + self.content@,
    {
        let mut r = self.username.clone();
        r.append(": ");
        r.append(self.content.as_str());
        r
    }
}

/// A sample article and a sample post.
pub fn get_test_types() -> (r: (NewsArticle, Tweet))
    ensures
        r.0.headline@ == "Big Fish"@,
        r.0.author@ == "Hungry Cat"@,
        r.0.location@ == "The Pond"@,
        r.0.content@ == "I saw a big fish today. Alas, it was too quick for me"@,
        r.1.username@ == "BigFish"@,
        r.1.content@ == "Was nearly eaten by a big cat today ðŸ˜¢"@,
        !r.1.retweet,
        !r.1.reply,
{
    let news_article = NewsArticle {
        headline: String::from_str("Big Fish"),
        author: String::from_str("Hungry Cat"),
        location: String::from_str("The Pond"),
        content: String::from_str("I saw a big fish today. Alas, it was too quick for me"),
    };
    let tweet = Tweet {
        username: String::from_str("BigFish"),
        content: String::from_str("Was nearly eaten by a big cat today ðŸ˜¢"),
        retweet: false,
        reply: false,
    };
    (news_article, tweet)
}

/// Two values of one type.
pub struct Pair<T> {
    pub x: T,
    pub y: T,
}

impl<T> Pair<T> {
    /// The pair of `x` and `y`.
    pub fn new(x: T, y: T) -> (r: Pair<T>)
        ensures
            r.x == x,
            r.y == y,
    {
        Pair { x, y }
    }
}

} // verus!
