//! Identifiers of connections and of games.
use rand::distributions::{Alphanumeric, DistString};
use vstd::prelude::*;

verus! {

/// Length of a generated identifier.
pub const ID_LEN: usize = 16;

/// An ASCII letter or digit.
pub open spec fn is_alphanumeric(c: char) -> bool {
    ('a' <= c && c <= 'z') || ('A' <= c && c <= 'Z') || ('0' <= c && c <= '9')
}

/// Every character is an ASCII letter or digit.
pub open spec fn all_alphanumeric(s: Seq<char>) -> bool {
    forall|i: int| 0 <= i < s.len() ==> #[trigger] is_alphanumeric(s[i])
}

/// What every generated identifier looks like: sixteen ASCII letters or digits.
pub open spec fn is_generated_id(s: Seq<char>) -> bool {
    &&& s.len() == ID_LEN
    &&& all_alphanumeric(s)
}

/// Relies on rand's `Alphanumeric.sample_string` with the thread-local
/// generator: `len` characters, each drawn from `A-Z`, `a-z`, `0-9`.
#[verifier::external_body]
fn random_string(len: usize) -> (r: String)
    ensures
        r@.len() == len,
        all_alphanumeric(r@),
{
    Alphanumeric.sample_string(&mut rand::thread_rng(), len)
}

/// Identity of one live connection.
#[derive(Debug, Clone)]
pub struct SocketId(pub String);

impl View for SocketId {
    type V = Seq<char>;

    open spec fn view(&self) -> Seq<char> {
        self.0@
    }
}

impl SocketId {
    /// A fresh random identifier.
    pub fn random() -> (r: SocketId)
        ensures
            is_generated_id(r@),
    {
        SocketId(random_string(ID_LEN))
    }

    /// A copy with the same characters.
    pub fn duplicate(&self) -> (r: SocketId)
        ensures
            r@ == self@,
    {
        SocketId(self.0.clone())
    }

    /// Whether both name the same connection.
    pub fn same(&self, other: &SocketId) -> (r: bool)
        ensures
            r == (self@ == other@),
    {
        self.0 == other.0
    }
}

/// Identity of one game; a host may choose it, else it is generated.
#[derive(Debug, Clone)]
pub struct GameId(pub String);

impl View for GameId {
    type V = Seq<char>;

    open spec fn view(&self) -> Seq<char> {
        self.0@
    }
}

impl GameId {
    /// A fresh random identifier.
    pub fn random() -> (r: GameId)
        ensures
            is_generated_id(r@),
    {
        GameId(random_string(ID_LEN))
    }

    /// A copy with the same characters.
    pub fn duplicate(&self) -> (r: GameId)
        ensures
            r@ == self@,
    {
        GameId(self.0.clone())
    }

    /// Whether both name the same game.
    pub fn same(&self, other: &GameId) -> (r: bool)
        ensures
            r == (self@ == other@),
    {
        self.0 == other.0
    }
}

} // verus!
