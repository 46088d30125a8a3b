//! Functions, ownership and borrowing, structs, and enums with `match`.

use vstd::prelude::*;
use vstd::utf8::encode_utf8;
use crate::text::prefix_before;

verus! {

/// `x` plus one, written as a block's final expression.
pub fn weird_rust_return_demo(x: i32) -> (r: i32)
    requires
        x < i32::MAX,
    ensures
        r == x + 1,
{
    x + 1
}

/// `x` minus one, written with `return`.
pub fn normal_return_demo(x: i32) -> (r: i32)
    requires
        x > i32::MIN,
    ensures
        r == x - 1,
{
    return x - 1;
}

/// Hands back the string it was given.
pub fn takes_and_gives_back(some_string: String) -> (r: String)
    ensures
        r == some_string,
{
    some_string
}

/// The length of `s` in bytes of UTF-8.
pub fn calculate_length(s: &String) -> (r: usize)
    ensures
        r == encode_utf8(s@).len() as usize,
{
    s.as_str().len()
}

/// Appends ` world world world` to `s`.
pub fn change(s: &mut String)
    ensures
        final(s)@ == old(s)@ + " world world world"@,
{
    s.append(" world world world");
}

/// A new string, owned by the caller.
pub fn no_dangle() -> (r: String)
    ensures
        r@ == "Helo"@,
{
    let s = String::from_str("Helo");
    return s;
}

/// The first word of `s`: everything before its first space, or all of `s`
/// where it has none.
pub fn first_word_demo(s: &str) -> (r: &str)
    ensures
        r@ == s@.take(r@.len() as int),
        forall|k: int| 0 <= k < r@.len() ==> r@[k] != ' ',
        r@.len() == s@.len() || s@[r@.len() as int] == ' ',
{
    prefix_before(s, ' ')
}

/// A user account.
pub struct User {
    pub username: String,
    pub email: String,
    pub sign_in_count: u64,
    pub active: bool,
}

/// A new active account that has signed in once.
pub fn build_user(email: &str, username: &str) -> (r: User)
    ensures
        r.email@ == email@,
        r.username@ == username@,
        r.active,
        r.sign_in_count == 1,
{
    User {
        email: String::from_str(email),
        username: String::from_str(username),
        active: true,
        sign_in_count: 1,
    }
}

/// A rectangle with signed side lengths.
pub struct Rect {
    pub width: i32,
    pub height: i32,
}

impl Rect {
    /// The rectangle with the given sides.
    pub fn build(width: i32, height: i32) -> (r: Rect)
        ensures
            r.width == width,
            r.height == height,
    {
        Rect { width, height }
    }

    /// Width times height.
    pub fn area(&self) -> (r: i32)
        requires
            i32::MIN <= self.width * self.height <= i32::MAX,
        ensures
            r == self.width * self.height,
    {
        return self.width * self.height;
    }

    /// Whether `other_rect` fits strictly inside this one, sides aligned.
    pub fn can_hold(&self, other_rect: &Rect) -> (r: bool)
        ensures
            r == (self.width > other_rect.width && self.height > other_rect.height),
    {
        self.width > other_rect.width && self.height > other_rect.height
    }
}

/// A state of the union, shown on the back of a state quarter.
pub enum UsState {
    Alabama,
    Alaska,
}

/// A coin of the United States.
pub enum Coin {
    Penny,
    Nickel,
    Dime,
    Quarter,
    StateQuarter(UsState),
}

/// What a coin is worth, in cents.
pub open spec fn cents(coin: Coin) -> u8 {
    match coin {
        Coin::Penny => 1,
        Coin::Nickel => 5,
        Coin::Dime => 10,
        Coin::Quarter => 25,
        Coin::StateQuarter(_) => 25,
    }
}

impl Coin {
    /// What this coin is worth, in cents.
    pub fn value_in_cents(&self) -> (r: u8)
        ensures
            r == cents(*self),
    {
        match self {
            Coin::Penny => 1,
            Coin::Nickel => 5,
            Coin::Dime => 10,
            Coin::Quarter => 25,
            Coin::StateQuarter(_) => 25,
        }
    }
}

/// One more than the value held, if any.
pub fn plus_one(x: Option<i32>) -> (r: Option<i32>)
    requires
        x matches Some(i) ==> i < i32::MAX,
    ensures
        x is None ==> r is None,
        x matches Some(i) ==> r == Some((i + 1) as i32),
{
    match x {
        None => None,
        Some(i) => Some(i + 1),
    }
}

/// What the first of the tests "divisible by 4", "by 3", "by 2" that `x`
/// passes says about it.
pub fn divisibility_note(x: i32) -> (r: &'static str)
    ensures
        x % 4 == 0 ==> r@ == "x is divisible by 4"@,
        x % 4 != 0 && x % 3 == 0 ==> r@ == "x is divisible by 3"@,
        x % 4 != 0 && x % 3 != 0 && x % 2 == 0 ==> r@ == "x is divisible by 2"@,
        x % 4 != 0 && x % 3 != 0 && x % 2 != 0 ==> r@ == "Number not divisible!"@,
{
    if x % 4 == 0 {
        "x is divisible by 4"
    } else if x % 3 == 0 {
        "x is divisible by 3"
    } else if x % 2 == 0 {
        "x is divisible by 2"
    } else {
        "Number not divisible!"
    }
}

/// The word for an odd number below ten, or `None` for any other number.
pub fn odd_word_below_10(x: u8) -> (r: Option<&'static str>)
    ensures
        x == 1 ==> (r matches Some(w) && w@ == "one!"@),
        x == 3 ==> (r matches Some(w) && w@ == "three!"@),
        x == 5 ==> (r matches Some(w) && w@ == "five!"@),
        x == 7 ==> (r matches Some(w) && w@ == "seven!"@),
        x == 9 ==> (r matches Some(w) && w@ == "nine!"@),
        r is None <==> !(x == 1 || x == 3 || x == 5 || x == 7 || x == 9),
{
    match x {
        1 => Some("one!"),
        3 => Some("three!"),
        5 => Some("five!"),
        7 => Some("seven!"),
        9 => Some("nine!"),
        _ => None,
    }
}

/// The decimal digits, in order of value.
pub open spec fn digit_chars() -> Seq<char> {
    seq!['0', '1', '2', '3', '4', '5', '6', '7', '8', '9']
}

/// `n` written in decimal, without leading zeros.
pub open spec fn decimal_text(n: nat) -> Seq<char>
    decreases n,
{
    if n < 10 {
        seq![digit_chars()[n as int]]
    } else {
        decimal_text(n / 10).push(digit_chars()[(n % 10) as int])
    }
}

/// `n` written in decimal, without leading zeros.
fn decimal_u8(n: u8) -> (r: String)
    ensures
        r@ == decimal_text(n as nat),
{
    let digits = "0123456789";
    proof {
        reveal_strlit("0123456789");
        assert(digits@ =~= digit_chars());
    }
    let mut r = String::new();
    let ones = (n % 10) as usize;
    let tens = ((n / 10) % 10) as usize;
    let hundreds = (n / 100) as usize;
    if n >= 100 {
        r.append(digits.substring_char(hundreds, hundreds + 1));
    }
    if n >= 10 {
        r.append(digits.substring_char(tens, tens + 1));
    }
    r.append(digits.substring_char(ones, ones + 1));
    proof {
        let v = n as nat;
        if v >= 100 {
            assert(v / 10 / 10 == hundreds && v / 10 % 10 == tens);
            assert(decimal_text(v / 10 / 10) =~= seq![digit_chars()[hundreds as int]]);
            assert(decimal_text(v / 10) =~= seq![digit_chars()[hundreds as int], digit_chars()[tens as int]]);
        } else if v >= 10 {
            assert(decimal_text(v / 10) =~= seq![digit_chars()[tens as int]]);
        }
        assert(r@ =~= decimal_text(v));
    }
    r
}

/// An internet address: four bytes, or the text of an IPv6 address.
pub enum IpAddrv4u8 {
    V4(u8, u8, u8, u8),
    V6(String),
}

impl IpAddrv4u8 {
    /// The address as text: its four bytes in decimal with dots between,
    /// or the IPv6 text as it is.
    pub fn text(&self) -> (r: String)
        ensures
            self matches IpAddrv4u8::V4(a, b, c, d) ==> r@ == decimal_text(a as nat) + "."@
                + decimal_text(b as nat) + "."@ + decimal_text(c as nat) + "."@ + decimal_text(
                d as nat,
            ),
            self matches IpAddrv4u8::V6(address) ==> r@ == address@,
    {
        match self {
            IpAddrv4u8::V4(n0, n1, n2, n3) => {
                let mut r = decimal_u8(*n0);
                r.append(".");
                r.append(decimal_u8(*n1).as_str());
                r.append(".");
                r.append(decimal_u8(*n2).as_str());
                r.append(".");
                r.append(decimal_u8(*n3).as_str());
                r
            },
            IpAddrv4u8::V6(address) => address.clone(),
        }
    }
}

} // verus!
