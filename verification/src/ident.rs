//! Generation of opaque identifiers and display names.
//!
//! User identifiers and private-room numbers are drawn at random; game
//! identifiers are rendered from a monotone sequence number so that they
//! sort lexicographically by creation time. Randomness enters the library
//! through the single trusted wrapper `random_below`; everything built on
//! top of it is verified for every value the wrapper can return.

use vstd::prelude::*;

use crate::text::spec_decimal;
use crate::text::spec_fixed_decimal;
use crate::text::u64_to_fixed_string;
use crate::text::u64_to_string;

verus! {

/// How many distinct numbers a generated user identifier can carry.
pub const USER_ID_SPACE: u64 = 1000000000000;

/// Width, in digits, of the sequence number inside a game identifier.
/// Every `u64` fits in 20 decimal digits, so the rendering is injective.
pub const GAME_ID_DIGITS: u64 = 20;

/// Relies on rand's `Rng::gen_range` over the range `0..n`: the sample is
/// drawn from the given range, so the result is always below `n`; the
/// range is non-empty because `n > 0`.
#[verifier::external_body]
fn random_below(n: u64) -> (r: u64)
    requires
        n > 0,
    ensures
        r < n,
{
    rand::Rng::gen_range(&mut rand::thread_rng(), 0..n)
}

/// A uniformly drawn 6-digit private-room number.
pub fn generate_room_number() -> (r: u64)
    ensures
        100000 <= r < 1000000,
{
    let offset = random_below(900000);
    100000 + offset
}

/// The view of a generated user identifier with number `n`.
pub open spec fn spec_user_id(n: nat) -> Seq<char> {
    "user-"@ + spec_decimal(n)
}

/// The view of the game identifier with sequence number `n`.
pub open spec fn spec_game_id(n: nat) -> Seq<char> {
    "game-"@ + spec_fixed_decimal(n, GAME_ID_DIGITS as nat)
}

/// A fresh opaque user identifier: `user-` followed by a random number.
pub fn generate_user_id() -> (s: String)
    ensures
        exists|n: nat| s@ == spec_user_id(n),
{
    let n = random_below(USER_ID_SPACE);
    let mut s = String::from_str("user-");
    let num = u64_to_string(n);
    s.append(num.as_str());
    proof {
        assert(s@ == spec_user_id(n as nat));
    }
    s
}

/// The game identifier for sequence number `seq`: `game-` followed by the
/// zero-padded sequence number, so later games sort after earlier ones.
pub fn game_id_string(seq: u64) -> (s: String)
    ensures
        s@ == spec_game_id(seq as nat),
{
    let mut s = String::from_str("game-");
    let num = u64_to_fixed_string(seq, GAME_ID_DIGITS);
    s.append(num.as_str());
    s
}

fn adjective(i: u64) -> (r: &'static str)
    requires
        i < 4,
    ensures
        r@.len() > 0,
{
    match i {
        0 => {
            proof {
                reveal_strlit("Swift");
            }
            "Swift"
        },
        1 => {
            proof {
                reveal_strlit("Quiet");
            }
            "Quiet"
        },
        2 => {
            proof {
                reveal_strlit("Crimson");
            }
            "Crimson"
        },
        _ => {
            proof {
                reveal_strlit("Golden");
            }
            "Golden"
        },
    }
}

fn noun(i: u64) -> (r: &'static str)
    requires
        i < 4,
    ensures
        r@.len() > 0,
{
    match i {
        0 => {
            proof {
                reveal_strlit("Falcon");
            }
            "Falcon"
        },
        1 => {
            proof {
                reveal_strlit("Otter");
            }
            "Otter"
        },
        2 => {
            proof {
                reveal_strlit("Badger");
            }
            "Badger"
        },
        _ => {
            proof {
                reveal_strlit("Heron");
            }
            "Heron"
        },
    }
}

/// A randomly generated two-word display name; never empty.
pub fn generate_name() -> (s: String)
    ensures
        s@.len() > 0,
{
    let a = adjective(random_below(4));
    let b = noun(random_below(4));
    let mut s = String::from_str(a);
    s.append(" ");
    s.append(b);
    s
}

} // verus!
