//! Rules engine for a four-suit trick-taking tarot game: a 78-card pack
//! (four 14-card suits plus a 22-card trump suit with three oudler honour
//! cards), a five-step bid ladder, trick legality and resolution, kitty
//! composition rules, and scoring.
//!
//! Card point weights are half-integers (an ordinary low card is worth half
//! a point), so every point quantity in this crate is counted in half-point
//! units: a King is worth 9 half-points, the whole pack 182.

use vstd::prelude::*;

pub mod common;

use common::kitty::spec_kitty_expected_size;

verus! {

/// What `str::trim` leaves of a string: a function of its characters.
pub uninterp spec fn spec_trimmed(s: Seq<char>) -> Seq<char>;

/// What `str::parse::<u8>` makes of a string: a function of its characters.
pub uninterp spec fn spec_parsed_u8(s: Seq<char>) -> Option<u8>;

/// Relies on `str::trim`: leading and trailing whitespace removed, so the
/// result depends on the characters alone, never grows, and an empty
/// string stays empty.
#[verifier::external_body]
fn trim_str(s: &String) -> (r: String)
    ensures
        r@ == spec_trimmed(s@),
        r@.len() <= s@.len(),
        s@.len() == 0 ==> r@.len() == 0,
{
    s.trim().to_string()
}

/// Relies on `str::parse::<u8>`: the parsed number, or nothing, depending
/// on the characters alone.
#[verifier::external_body]
fn parse_u8(s: &String) -> (r: Option<u8>)
    ensures
        r == spec_parsed_u8(s@),
{
    s.parse::<u8>().ok()
}

/// How many players take part, parsed and range-checked from the command
/// line: 2 to 5 players, defaulting to 4 when nothing is given.
#[derive(Debug)]
pub struct Config {
    n_players: u8,
}

impl Config {
    /// The number of players this configuration selects.
    pub closed spec fn spec_n_players(&self) -> u8 {
        self.n_players
    }

    pub fn n_players(&self) -> (n: u8)
        ensures
            n == self.spec_n_players(),
    {
        self.n_players
    }

    /// Build a configuration from the command-line words: the program name
    /// alone selects four players; one further word must read as a count
    /// of 2 to 5, anything else is rejected.
    pub fn build(args: &[String]) -> (r: Result<Config, &'static str>)
        requires
            args@.len() == 1 || args@.len() == 2,
        ensures
            args@.len() == 1 ==> (r matches Ok(c) && c.spec_n_players() == 4),
            args@.len() == 2 ==> match spec_parsed_u8(spec_trimmed(args@[1]@)) {
                Some(n) => {
                    if 2 <= n <= 5 {
                        r matches Ok(c) && c.spec_n_players() == n
                    } else {
                        r matches Err(m) && m@ == "Invalid number of players"@
                    }
                },
                None => r matches Err(m) && m@ == "Could not parse the number of players"@,
            },
    {
        if args.len() == 1 {
            Ok(Config::default())
        } else {
            let trimmed = trim_str(&args[1]);
            match parse_u8(&trimmed) {
                Some(n_players) => match n_players {
                    2 | 3 | 4 | 5 => Ok(Config { n_players }),
                    _ => Err("Invalid number of players"),
                },
                None => Err("Could not parse the number of players"),
            }
        }
    }
}

impl Default for Config {
    /// Four players, the usual table.
    fn default() -> (c: Config)
        ensures
            c.spec_n_players() == 4,
    {
        Config { n_players: 4u8 }
    }
}

/// The bid ladder as the auction loop sees it, weakest last.
#[derive(Debug, PartialEq, Eq, Structural, Clone, Copy)]
pub enum Bid {
    Petite,
    Garde,
    GardeSans,
    GardeContre,
    Passe,
}

/// Height of a bid on the ladder.
pub open spec fn spec_bid_level(b: Bid) -> int {
    match b {
        Bid::Passe => 0,
        Bid::Petite => 1,
        Bid::Garde => 2,
        Bid::GardeSans => 3,
        Bid::GardeContre => 4,
    }
}

/// Whether `bid` may be declared over the previous one: passing is always
/// allowed, any real bid must sit strictly higher, and with no previous
/// bid anything goes.
pub fn is_valid_bid(bid: &Bid, previous_bid: Option<&Bid>) -> (r: bool)
    ensures
        r == match previous_bid {
            None => true,
            Some(p) => *bid is Passe || spec_bid_level(*bid) > spec_bid_level(*p),
        },
{
    match previous_bid {
        Some(previous_bid) => match bid {
            Bid::Passe => true,
            Bid::Petite => matches!(previous_bid, Bid::Passe),
            Bid::Garde => matches!(previous_bid, Bid::Passe | Bid::Petite),
            Bid::GardeSans => matches!(previous_bid, Bid::Passe | Bid::Petite | Bid::Garde),
            Bid::GardeContre => !matches!(previous_bid, Bid::GardeContre),
        },
        None => true,
    }
}

/// Size of the kitty for a table of `n_players`: six cards up to four
/// players, three from five players on.
pub fn kitty_expected_size(n_players: usize) -> (r: usize)
    ensures
        r == spec_kitty_expected_size(n_players as int),
{
    match n_players {
        2..=4 => 6,
        5.. => 3,
        _ => 0,
    }
}

} // verus!
