//! A number-guessing game: a secret number from one to a hundred, and the
//! answer to each line the player types.

use vstd::prelude::*;
use rand::Rng;
use crate::text::{chars_of, is_white, is_white_char};

verus! {

/// The smallest secret number.
pub const LOWEST: u32 = 1;

/// The largest secret number.
pub const HIGHEST: u32 = 100;

/// Relies on rand's `thread_rng().gen_range(low..=high)`: a number drawn
/// from `low` to `high`, both included. It panics on an empty range, which
/// `requires` leaves out, and where the system's random source cannot be
/// set up.
#[verifier::external_body]
fn draw_between(low: u32, high: u32) -> (r: u32)
    requires
        low <= high,
    ensures
        low <= r <= high,
{
    rand::thread_rng().gen_range(low..=high)
}

/// `s` without the white space it starts with.
pub open spec fn trim_start(s: Seq<char>) -> Seq<char>
    decreases s.len(),
{
    if s.len() > 0 && is_white(s[0]) {
        trim_start(s.drop_first())
    } else {
        s
    }
}

/// `s` without the white space it ends with.
pub open spec fn trim_end(s: Seq<char>) -> Seq<char>
    decreases s.len(),
{
    if s.len() > 0 && is_white(s.last()) {
        trim_end(s.drop_last())
    } else {
        s
    }
}

/// `s` without white space at either end.
pub open spec fn trim(s: Seq<char>) -> Seq<char> {
    trim_end(trim_start(s))
}

/// `c` is one of the digits `0` to `9`.
pub open spec fn is_digit(c: char) -> bool {
    '0' <= c && c <= '9'
}

/// The number that a run of decimal digits writes.
pub open spec fn decimal_value(d: Seq<char>) -> nat
    decreases d.len(),
{
    if d.len() == 0 {
        0
    } else {
        decimal_value(d.drop_last()) * 10 + (d.last() as nat - '0' as nat) as nat
    }
}

/// The digits of a number as `str::parse` reads it: all of `s`, after one
/// leading `+` if there is one.
pub open spec fn digits_part(s: Seq<char>) -> Seq<char> {
    if s.len() > 0 && s[0] == '+' {
        s.drop_first()
    } else {
        s
    }
}

/// `s` writes an unsigned 32-bit number: an optional `+`, then at least one
/// digit and nothing else, with a value that fits.
pub open spec fn writes_u32(s: Seq<char>) -> bool {
    let d = digits_part(s);
    &&& d.len() > 0
    &&& forall|i: int| 0 <= i < d.len() ==> is_digit(#[trigger] d[i])
    &&& decimal_value(d) <= u32::MAX
}

/// The answer to a guess.
#[derive(PartialEq, Eq, Structural, Debug, Clone, Copy)]
pub enum Verdict {
    /// The line was not a number.
    NotANumber,
    TooSmall,
    TooBig,
    /// The guess is the secret number: the game is over.
    Win,
}

/// What `guess` gets in a game whose secret is `secret`.
pub open spec fn verdict_for(guess: u32, secret: u32) -> Verdict {
    if guess < secret {
        Verdict::TooSmall
    } else if guess > secret {
        Verdict::TooBig
    } else {
        Verdict::Win
    }
}

proof fn lemma_trim_start_skip(s: Seq<char>, a: int)
    requires
        0 <= a < s.len(),
        is_white(s[a]),
    ensures
        trim_start(s.skip(a)) == trim_start(s.skip(a + 1)),
{
    assert(s.skip(a).drop_first() =~= s.skip(a + 1));
}

proof fn lemma_trim_end_take(s: Seq<char>, b: int)
    requires
        0 < b <= s.len(),
        is_white(s[b - 1]),
    ensures
        trim_end(s.take(b)) == trim_end(s.take(b - 1)),
{
    assert(s.take(b).drop_last() =~= s.take(b - 1));
}

/// The number a line of input writes, read as `str::trim` then
/// `str::parse::<u32>` read it; `None` where it writes none.
pub fn parse_guess(line: &str) -> (r: Option<u32>)
    ensures
        r is Some <==> writes_u32(trim(line@)),
        r matches Some(v) ==> v == decimal_value(digits_part(trim(line@))),
{
    let chars = chars_of(line);
    let n = chars.len();
    let mut a: usize = 0;
    proof {
        assert(line@.skip(0) =~= line@);
    }
    while a < n && is_white_char(chars[a])
        invariant
            chars@ == line@,
            n == chars@.len(),
            a <= n,
            trim_start(line@) == trim_start(line@.skip(a as int)),
        decreases n - a,
    {
        proof {
            lemma_trim_start_skip(line@, a as int);
        }
        a = a + 1;
    }
    let ghost front = line@.skip(a as int);
    proof {
        if a < n {
            assert(!is_white(front[0]));
        } else {
            assert(front.len() == 0);
        }
        assert(trim_start(front) == front);
    }
    let mut b: usize = n;
    proof {
        assert(front.take(b - a) =~= front);
    }
    while b > a && is_white_char(chars[b - 1])
        invariant
            chars@ == line@,
            n == chars@.len(),
            a <= b <= n,
            front == line@.skip(a as int),
            trim_start(line@) == front,
            trim_end(front) == trim_end(front.take(b - a)),
        decreases b,
    {
        proof {
            lemma_trim_end_take(front, b - a);
        }
        b = b - 1;
    }
    let ghost kept = front.take(b - a);
    proof {
        if b > a {
            assert(!is_white(kept.last()));
        }
        assert(trim_end(kept) == kept);
        assert(trim(line@) == kept);
        assert(kept =~= line@.subrange(a as int, b as int));
    }
    let mut d: usize = a;
    if d < b && chars[d] == '+' {
        d = d + 1;
    }
    let ghost digits = line@.subrange(d as int, b as int);
    proof {
        assert(digits =~= digits_part(kept));
    }
    if d == b {
        return None;
    }
    let mut value: u64 = 0;
    let mut k: usize = d;
    while k < b
        invariant
            chars@ == line@,
            n == chars@.len(),
            d <= k <= b <= n,
            digits == line@.subrange(d as int, b as int),
            digits == digits_part(trim(line@)),
            forall|i: int| 0 <= i < k - d ==> is_digit(#[trigger] digits[i]),
            value == decimal_value(digits.take(k - d)),
            value <= u32::MAX,
        decreases b - k,
    {
        let c = chars[k];
        if !('0' <= c && c <= '9') {
            proof {
                assert(!is_digit(digits[k - d]));
            }
            return None;
        }
        proof {
            assert(digits.take(k - d + 1).drop_last() =~= digits.take(k - d));
        }
        let next = value * 10 + ((c as u32) - ('0' as u32)) as u64;
        if next > u32::MAX as u64 {
            proof {
                if forall|i: int| 0 <= i < digits.len() ==> is_digit(#[trigger] digits[i]) {
                    lemma_prefix_value_bounds(digits, k - d + 1);
                }
            }
            return None;
        }
        value = next;
        k = k + 1;
    }
    proof {
        assert(digits.take(b - d) =~= digits);
    }
    Some(value as u32)
}

proof fn lemma_prefix_value_bounds(d: Seq<char>, m: int)
    requires
        0 <= m <= d.len(),
        forall|i: int| 0 <= i < d.len() ==> is_digit(#[trigger] d[i]),
    ensures
        decimal_value(d.take(m)) <= decimal_value(d),
    decreases d.len(),
{
    if m < d.len() {
        assert(d.drop_last().take(m) =~= d.take(m));
        lemma_prefix_value_bounds(d.drop_last(), m);
    } else {
        assert(d.take(m) =~= d);
    }
}

/// One round of the game: the secret number to guess.
pub struct GuessingGame {
    secret: u32,
}

impl GuessingGame {
    /// The number to guess.
    pub closed spec fn secret(&self) -> u32 {
        self.secret
    }

    /// A game with a secret drawn at random from one to a hundred.
    pub fn new() -> (r: GuessingGame)
        ensures
            LOWEST <= r.secret() <= HIGHEST,
    {
        GuessingGame { secret: draw_between(LOWEST, HIGHEST) }
    }

    /// A game with the given secret.
    pub fn with_secret(secret: u32) -> (r: GuessingGame)
        ensures
            r.secret() == secret,
    {
        GuessingGame { secret }
    }

    /// The answer to a line the player typed.
    pub fn respond(&self, line: &str) -> (r: Verdict)
        ensures
            !writes_u32(trim(line@)) ==> r == Verdict::NotANumber,
            writes_u32(trim(line@)) ==> r == verdict_for(
                decimal_value(digits_part(trim(line@))) as u32,
                self.secret(),
            ),
    {
        match parse_guess(line) {
            None => Verdict::NotANumber,
            Some(guess) => judge(guess, self.secret),
        }
    }
}

/// The answer to `guess` when the secret is `secret`.
pub fn judge(guess: u32, secret: u32) -> (r: Verdict)
    ensures
        r == verdict_for(guess, secret),
{
    if guess < secret {
        Verdict::TooSmall
    } else if guess > secret {
        Verdict::TooBig
    } else {
        Verdict::Win
    }
}

} // verus!
