//! The multiplayer world server's rules: player names, chat messages and
//! the entity ID counter. Table access and world generation are left to the
//! caller.
use vstd::prelude::*;
use vstd::string::StrSliceExecFns;

use crate::strings::chars_of;
use crate::text::{owned, push_char, push_str};
use crate::whitespace::{all_white_space, is_whitespace, lemma_trim_empty, trim};

verus! {

broadcast use vstd::string::group_string_axioms;

/// Counter for entity IDs.
pub struct EntityCounter {
    pub id: u8,
    pub count: u64,
}

/// The longest player name kept, in characters.
pub const MAX_NAME_CHARS: usize = 32;

/// The longest chat message kept, in characters.
pub const MAX_MESSAGE_CHARS: usize = 500;

/// The first `n` characters of `s` (all of it when shorter).
pub open spec fn first_chars(s: Seq<char>, n: nat) -> Seq<char> {
    if s.len() <= n {
        s
    } else {
        s.take(n as int)
    }
}

/// The first `n` characters of a string (`chars().take(n).collect()`).
pub fn take_chars(s: &str, n: usize) -> (r: String)
    ensures
        r@ == first_chars(s@, n as nat),
{
    let v = chars_of(s);
    let mut r = String::new();
    let mut i: usize = 0;
    while i < v.len() && i < n
        invariant
            v@ == s@,
            i <= v@.len(),
            i <= n,
            r@ == s@.take(i as int),
        decreases v@.len() - i,
    {
        push_char(&mut r, v[i]);
        i = i + 1;
        assert(r@ =~= s@.take(i as int));
    }
    if i == v.len() {
        assert(s@.take(i as int) =~= s@);
    }
    r
}

/// The name a player gets: at most 32 characters of the one asked for.
pub fn player_name(name: &str) -> (r: String)
    ensures
        r@ == first_chars(name@, 32),
{
    take_chars(name, MAX_NAME_CHARS)
}

/// The name a new player gets: `Player_` and the first 8 characters of its
/// identity in hex.
pub fn default_player_name(identity_hex: &str) -> (r: String)
    requires
        identity_hex@.len() >= 8,
    ensures
        r@ == "Player_"@ + identity_hex@.take(8),
{
    let mut r = owned("Player_");
    let head = take_chars(identity_hex, 8);
    push_str(&mut r, head.as_str());
    r
}

/// The chat message stored for what a player sent: at most 500 characters
/// of it, and nothing when those are all white space.
pub fn chat_text(message: &str) -> (r: Option<String>)
    ensures
        match r {
            Some(m) => m@ == first_chars(message@, 500) && trim(m@).len() > 0,
            None => trim(first_chars(message@, 500)).len() == 0,
        },
{
    let m = take_chars(message, MAX_MESSAGE_CHARS);
    let v = chars_of(m.as_str());
    let mut i: usize = 0;
    while i < v.len()
        invariant
            v@ == m@,
            m@ == first_chars(message@, 500),
            i <= v@.len(),
            forall|j: int| 0 <= j < i ==> crate::whitespace::is_white_space(#[trigger] v@[j]),
        decreases v@.len() - i,
    {
        if !is_whitespace(v[i]) {
            proof {
                lemma_trim_empty(m@);
                assert(!crate::whitespace::is_white_space(m@[i as int]));
                assert(!all_white_space(m@));
                assert(trim(m@).len() > 0);
            }
            return Some(m);
        }
        i = i + 1;
    }
    proof {
        lemma_trim_empty(m@);
        assert(all_white_space(m@));
    }
    None
}

/// Advances a generation counter and returns the new ID.
pub fn next_entity_id(counter: &mut u64) -> (id: u64)
    requires
        *old(counter) < u64::MAX,
    ensures
        *final(counter) == *old(counter) + 1,
        id == *final(counter),
{
    *counter = *counter + 1;
    *counter
}

/// The counter after spawning one entity, given the stored one (if any);
/// the new entity takes its count as ID.
pub fn spawn_counter(stored: Option<u64>) -> (c: EntityCounter)
    requires
        stored matches Some(n) ==> n < u64::MAX,
    ensures
        c.id == 0,
        c.count == match stored {
            Some(n) => n + 1,
            None => 1,
        },
{
    let count = match stored {
        Some(n) => n,
        None => 0,
    };
    EntityCounter { id: 0, count: count + 1 }
}

/// The seed a world is regenerated with: the one given, else the current
/// time in microseconds (reinterpreted as unsigned).
pub fn regeneration_seed(seed: Option<u64>, now_micros: i64) -> (s: u64)
    ensures
        s == match seed {
            Some(x) => x,
            None => now_micros as u64,
        },
{
    match seed {
        Some(x) => x,
        None => now_micros as u64,
    }
}

} // verus!
