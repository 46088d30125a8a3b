//! The kitchen: meals and what they come with.

use vstd::prelude::*;

verus! {

/// A breakfast: the guest picks the toast, the kitchen picks the fruit.
pub struct Breakfast {
    pub toast: String,
    seasonal_fruit: String,
}

impl Breakfast {
    /// The toast that the guest picked.
    pub closed spec fn toast_text(&self) -> Seq<char> {
        self.toast@
    }

    /// The fruit that comes with the breakfast.
    pub closed spec fn fruit(&self) -> Seq<char> {
        self.seasonal_fruit@
    }

    /// A summer breakfast with the given toast; its fruit is peaches.
    pub fn generate_summer_breakfast(toast: &str) -> (r: Breakfast)
        ensures
            r.toast_text() == toast@,
            r.fruit() == "peaches"@,
    {
        Breakfast { toast: String::from_str(toast), seasonal_fruit: String::from_str("peaches") }
    }

    /// Takes the breakfast and swaps its fruit for a banana.
    pub fn swap_fruit_for_banana(mut breakfast: Breakfast) {
        breakfast.seasonal_fruit = String::from_str("banana");
    }
}

/// A starter.
pub enum Appetizer {
    Soup,
    Salad,
}

/// Orders a summer breakfast on rye, asks for wholewheat toast instead, and
/// has the fruit swapped for a banana.
pub fn order_breakfast() {
    let mut meal = Breakfast::generate_summer_breakfast("Rhy");
    meal.toast = String::from_str("Wholewheat");
    Breakfast::swap_fruit_for_banana(meal);
}

} // verus!
