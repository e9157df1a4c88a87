//! The directory of hosted games and their members.
use crate::ids::{GameId, SocketId};
use crate::messages::{summaries_view, GameSummaryView, OutgoingGameInfo};
use vstd::prelude::*;

verus! {

/// What a host advertises about its game.
#[derive(Debug)]
pub struct GameInfo {
    pub server_name: String,
    pub player_amount: u32,
    pub max_players: u32,
    pub requires_password: bool,
}

pub struct GameInfoView {
    pub server_name: Seq<char>,
    pub player_amount: u32,
    pub max_players: u32,
    pub requires_password: bool,
}

impl View for GameInfo {
    type V = GameInfoView;

    open spec fn view(&self) -> GameInfoView {
        GameInfoView {
            server_name: self.server_name@,
            player_amount: self.player_amount,
            max_players: self.max_players,
            requires_password: self.requires_password,
        }
    }
}

/// The set of connections named in a list.
pub open spec fn id_set(v: Seq<SocketId>) -> Set<Seq<char>> {
    Set::new(|c: Seq<char>| exists|i: int| 0 <= i < v.len() && v[i]@ == c)
}

/// One hosted game. `clients` holds the connections that joined it; a join
/// adds a connection only where it is not yet listed. It is a list viewed as
/// a set: the ids are strings, and vstd's `HashSet` specification says
/// nothing about elements of such a type.
#[derive(Debug)]
pub struct Game {
    pub game_id: GameId,
    pub host: SocketId,
    pub clients: Vec<SocketId>,
    pub game_info: GameInfo,
}

pub struct GameView {
    pub game_id: Seq<char>,
    pub host: Seq<char>,
    pub clients: Set<Seq<char>>,
    pub info: GameInfoView,
}

impl View for Game {
    type V = GameView;

    open spec fn view(&self) -> GameView {
        GameView {
            game_id: self.game_id@,
            host: self.host@,
            clients: id_set(self.clients@),
            info: self.game_info@,
        }
    }
}

/// Why a join failed.
#[derive(Debug, Clone, Copy, PartialEq, Eq, Structural)]
pub enum JoinGameError {
    GameNotFound,
    AlreadyJoined,
}

/// The text sent back to a connection whose join failed.
pub open spec fn join_error_reason(e: JoinGameError) -> Seq<char> {
    match e {
        JoinGameError::GameNotFound => "GameNotFound"@,
        JoinGameError::AlreadyJoined => "AlreadyJoined"@,
    }
}

impl JoinGameError {
    /// The text sent back to the connection whose join failed.
    pub fn reason(&self) -> (r: String)
        ensures
            r@ == join_error_reason(*self),
    {
        match self {
            JoinGameError::GameNotFound => String::from_str("GameNotFound"),
            JoinGameError::AlreadyJoined => String::from_str("AlreadyJoined"),
        }
    }
}

/// `i` is the first position in `gs` whose game satisfies `p`.
pub open spec fn is_first(gs: Seq<GameView>, p: spec_fn(GameView) -> bool, i: int) -> bool {
    &&& 0 <= i < gs.len()
    &&& p(gs[i])
    &&& forall|j: int| 0 <= j < i ==> !p(#[trigger] gs[j])
}

/// The first position in `gs` whose game satisfies `p`, or -1 where none does.
pub open spec fn first_index(gs: Seq<GameView>, p: spec_fn(GameView) -> bool) -> int {
    if exists|i: int| is_first(gs, p, i) {
        choose|i: int| is_first(gs, p, i)
    } else {
        -1
    }
}

pub open spec fn hosted_by(h: Seq<char>) -> spec_fn(GameView) -> bool {
    |g: GameView| g.host == h
}

pub open spec fn with_id(id: Seq<char>) -> spec_fn(GameView) -> bool {
    |g: GameView| g.game_id == id
}

pub open spec fn joined_by(c: Seq<char>) -> spec_fn(GameView) -> bool {
    |g: GameView| g.clients.contains(c)
}

pub proof fn lemma_first_index_is(gs: Seq<GameView>, p: spec_fn(GameView) -> bool, i: int)
    requires
        is_first(gs, p, i),
    ensures
        first_index(gs, p) == i,
{
    let k = first_index(gs, p);
    assert(is_first(gs, p, k));
    if k < i {
        assert(!p(gs[k]));
    } else if i < k {
        assert(!p(gs[i]));
    }
}

pub proof fn lemma_first_index_none(gs: Seq<GameView>, p: spec_fn(GameView) -> bool)
    requires
        forall|j: int| 0 <= j < gs.len() ==> !p(#[trigger] gs[j]),
    ensures
        first_index(gs, p) == -1,
{
    if exists|i: int| is_first(gs, p, i) {
        let k = choose|i: int| is_first(gs, p, i);
        assert(p(gs[k]));
    }
}

/// Where some game satisfies `p`, a first one does.
pub proof fn lemma_first_exists(gs: Seq<GameView>, p: spec_fn(GameView) -> bool, k: int)
    requires
        0 <= k < gs.len(),
        p(gs[k]),
    ensures
        first_index(gs, p) >= 0,
    decreases k,
{
    if forall|j: int| 0 <= j < k ==> !p(#[trigger] gs[j]) {
        assert(is_first(gs, p, k));
    } else {
        let j = choose|j: int| 0 <= j < k && !!p(#[trigger] gs[j]);
        lemma_first_exists(gs, p, j);
    }
}

pub proof fn lemma_first_index_found(gs: Seq<GameView>, p: spec_fn(GameView) -> bool)
    requires
        first_index(gs, p) >= 0,
    ensures
        is_first(gs, p, first_index(gs, p)),
{
}

/// The game hosted by `h` that the directory finds first, or -1.
pub open spec fn host_index(gs: Seq<GameView>, h: Seq<char>) -> int {
    first_index(gs, hosted_by(h))
}

/// The game with id `id` that the directory finds first, or -1.
pub open spec fn id_index(gs: Seq<GameView>, id: Seq<char>) -> int {
    first_index(gs, with_id(id))
}

/// The first game that `c` has joined, or -1.
pub open spec fn client_index(gs: Seq<GameView>, c: Seq<char>) -> int {
    first_index(gs, joined_by(c))
}

/// `add`: the game goes to the end.
pub open spec fn add_spec(gs: Seq<GameView>, g: GameView) -> Seq<GameView> {
    gs.push(g)
}

/// `update_info`: the first game hosted by `h` takes the new info.
pub open spec fn update_info_spec(gs: Seq<GameView>, h: Seq<char>, info: GameInfoView) -> Seq<GameView> {
    let i = host_index(gs, h);
    if i < 0 {
        gs
    } else {
        gs.update(i, GameView { info, ..gs[i] })
    }
}

/// `join_game`: the directory after the join, and the host to notify or the
/// error. A host is already in the game it hosts, so it cannot join it.
pub open spec fn join_spec(gs: Seq<GameView>, id: Seq<char>, c: Seq<char>) -> (Seq<GameView>, Result<Seq<char>, JoinGameError>) {
    let i = id_index(gs, id);
    if i < 0 {
        (gs, Err(JoinGameError::GameNotFound))
    } else if gs[i].host == c || gs[i].clients.contains(c) {
        (gs, Err(JoinGameError::AlreadyJoined))
    } else {
        (gs.update(i, GameView { clients: gs[i].clients.insert(c), ..gs[i] }), Ok(gs[i].host))
    }
}

pub open spec fn not_hosted_by(h: Seq<char>) -> spec_fn(GameView) -> bool {
    |g: GameView| g.host != h
}

/// `remove_game`: every game hosted by `h` leaves the directory; the others
/// keep their order.
pub open spec fn remove_game_spec(gs: Seq<GameView>, h: Seq<char>) -> Seq<GameView> {
    gs.filter(not_hosted_by(h))
}

pub open spec fn without_client(g: GameView, c: Seq<char>) -> GameView {
    GameView { clients: g.clients.remove(c), ..g }
}

/// `remove_client`: `c` leaves every game it joined.
pub open spec fn remove_client_spec(gs: Seq<GameView>, c: Seq<char>) -> Seq<GameView> {
    gs.map_values(|g: GameView| without_client(g, c))
}

pub open spec fn summary(g: GameView) -> GameSummaryView {
    GameSummaryView {
        game_id: g.game_id,
        server_name: g.info.server_name,
        player_amount: g.info.player_amount,
        max_players: g.info.max_players,
        requires_password: g.info.requires_password,
    }
}

/// `list`: the summary of every game, in directory order.
pub open spec fn list_spec(gs: Seq<GameView>) -> Seq<GameSummaryView> {
    gs.map_values(|g: GameView| summary(g))
}

/// Whether `c` is listed in `v`.
fn contains_client(v: &Vec<SocketId>, c: &SocketId) -> (r: bool)
    ensures
        r == id_set(v@).contains(c@),
{
    let mut i: usize = 0;
    while i < v.len()
        invariant
            0 <= i <= v.len(),
            forall|j: int| 0 <= j < i ==> (#[trigger] v@[j])@ != c@,
        decreases v.len() - i,
    {
        if v[i].same(c) {
            assert(id_set(v@).contains(c@)) by {
                assert(v@[i as int]@ == c@);
            }
            return true;
        }
        i = i + 1;
    }
    false
}

/// `v` without `c`, in the same order.
fn drop_client(v: &Vec<SocketId>, c: &SocketId) -> (r: Vec<SocketId>)
    ensures
        id_set(r@) == id_set(v@).remove(c@),
{
    let mut r: Vec<SocketId> = Vec::new();
    let mut i: usize = 0;
    while i < v.len()
        invariant
            0 <= i <= v.len(),
            forall|k: int| 0 <= k < r.len() ==> (#[trigger] r@[k])@ != c@,
            forall|k: int| #![trigger r@[k]] 0 <= k < r.len() ==> exists|j: int| #![trigger v@[j]] 0 <= j < i && v@[j]@ == r@[k]@,
            forall|j: int| #![trigger v@[j]] 0 <= j < i && v@[j]@ != c@ ==> exists|k: int| #![trigger r@[k]] 0 <= k < r.len() && r@[k]@ == v@[j]@,
        decreases v.len() - i,
    {
        if !v[i].same(c) {
            let ghost old_r = r@;
            r.push(v[i].duplicate());
            assert(forall|k: int| 0 <= k < old_r.len() ==> r@[k] == old_r[k]);
            assert(r@[old_r.len() as int]@ == v@[i as int]@);
        }
        i = i + 1;
    }
    assert(id_set(r@) =~= id_set(v@).remove(c@)) by {
        assert forall|x: Seq<char>| id_set(r@).contains(x) implies id_set(v@).remove(c@).contains(x) by {
            let k = choose|k: int| 0 <= k < r.len() && r@[k]@ == x;
            assert(r@[k]@ != c@);
        }
        assert forall|x: Seq<char>| id_set(v@).remove(c@).contains(x) implies id_set(r@).contains(x) by {
            let j = choose|j: int| 0 <= j < v.len() && v@[j]@ == x;
            assert(v@[j]@ != c@);
        }
    }
    r
}

/// The directory: every active game, in the order they were created.
pub struct Games(pub Vec<Game>);

impl View for Games {
    type V = Seq<GameView>;

    open spec fn view(&self) -> Seq<GameView> {
        self.0@.map_values(|g: Game| g@)
    }
}

impl Games {
    pub fn new() -> (r: Games)
        ensures
            r@ == Seq::<GameView>::empty(),
    {
        let r = Games(Vec::new());
        assert(r@ =~= Seq::<GameView>::empty());
        r
    }

    pub fn add(&mut self, game: Game)
        ensures
            final(self)@ == add_spec(old(self)@, game@),
    {
        self.0.push(game);
        assert(self@ =~= add_spec(old(self)@, game@));
    }

    /// The position of the first game hosted by `host`.
    fn position_of_host(&self, host: &SocketId) -> (r: Option<usize>)
        ensures
            match r {
                Some(i) => i as int == host_index(self@, host@),
                None => host_index(self@, host@) == -1,
            },
    {
        let mut i: usize = 0;
        while i < self.0.len()
            invariant
                0 <= i <= self.0.len(),
                forall|j: int| 0 <= j < i ==> !hosted_by(host@)(#[trigger] self@[j]),
            decreases self.0.len() - i,
        {
            if self.0[i].host.same(host) {
                proof {
                    lemma_first_index_is(self@, hosted_by(host@), i as int);
                }
                return Some(i);
            }
            i = i + 1;
        }
        proof {
            lemma_first_index_none(self@, hosted_by(host@));
        }
        None
    }

    /// The position of the first game with id `game_id`.
    fn position_of_id(&self, game_id: &GameId) -> (r: Option<usize>)
        ensures
            match r {
                Some(i) => i as int == id_index(self@, game_id@),
                None => id_index(self@, game_id@) == -1,
            },
    {
        let mut i: usize = 0;
        while i < self.0.len()
            invariant
                0 <= i <= self.0.len(),
                forall|j: int| 0 <= j < i ==> !with_id(game_id@)(#[trigger] self@[j]),
            decreases self.0.len() - i,
        {
            if self.0[i].game_id.same(game_id) {
                proof {
                    lemma_first_index_is(self@, with_id(game_id@), i as int);
                }
                return Some(i);
            }
            i = i + 1;
        }
        proof {
            lemma_first_index_none(self@, with_id(game_id@));
        }
        None
    }

    /// The position of the first game that `client` joined.
    fn position_of_client(&self, client: &SocketId) -> (r: Option<usize>)
        ensures
            match r {
                Some(i) => i as int == client_index(self@, client@),
                None => client_index(self@, client@) == -1,
            },
    {
        let mut i: usize = 0;
        while i < self.0.len()
            invariant
                0 <= i <= self.0.len(),
                forall|j: int| 0 <= j < i ==> !joined_by(client@)(#[trigger] self@[j]),
            decreases self.0.len() - i,
        {
            if contains_client(&self.0[i].clients, client) {
                proof {
                    lemma_first_index_is(self@, joined_by(client@), i as int);
                }
                return Some(i);
            }
            i = i + 1;
        }
        proof {
            lemma_first_index_none(self@, joined_by(client@));
        }
        None
    }

    /// Replaces the info of the game hosted by `host`; false where `host`
    /// hosts no game.
    pub fn update_info(&mut self, host: &SocketId, info: GameInfo) -> (r: bool)
        ensures
            r == (host_index(old(self)@, host@) >= 0),
            final(self)@ == update_info_spec(old(self)@, host@, info@),
    {
        match self.position_of_host(host) {
            Some(i) => {
                let ghost info_v = info@;
                self.0[i].game_info = info;
                assert(self@ =~= update_info_spec(old(self)@, host@, info_v));
                true
            },
            None => false,
        }
    }

    /// Adds `client` to the members of the game `game_id` and returns that
    /// game's host; a client already listed, or the game's own host, gets
    /// `AlreadyJoined`.
    pub fn join_game(&mut self, game_id: &GameId, client: &SocketId) -> (r: Result<SocketId, JoinGameError>)
        ensures
            final(self)@ == join_spec(old(self)@, game_id@, client@).0,
            match r {
                Ok(h) => join_spec(old(self)@, game_id@, client@).1 == Ok::<Seq<char>, JoinGameError>(h@),
                Err(e) => join_spec(old(self)@, game_id@, client@).1 == Err::<Seq<char>, JoinGameError>(e),
            },
    {
        let i = match self.position_of_id(game_id) {
            Some(i) => i,
            None => return Err(JoinGameError::GameNotFound),
        };
        if self.0[i].host.same(client) || contains_client(&self.0[i].clients, client) {
            return Err(JoinGameError::AlreadyJoined);
        }
        let ghost before = self.0[i as int].clients@;
        self.0[i].clients.push(client.duplicate());
        proof {
            let after = self.0[i as int].clients@;
            assert(id_set(after) =~= id_set(before).insert(client@)) by {
                assert(after[before.len() as int]@ == client@);
                assert forall|x: Seq<char>| id_set(before).contains(x) implies id_set(after).contains(x) by {
                    let j = choose|j: int| 0 <= j < before.len() && before[j]@ == x;
                    assert(after[j] == before[j]);
                }
                assert forall|x: Seq<char>| id_set(after).contains(x) implies id_set(before).insert(client@).contains(x) by {
                    let j = choose|j: int| 0 <= j < after.len() && after[j]@ == x;
                    if j < before.len() {
                        assert(after[j] == before[j]);
                    }
                }
            }
            assert(self@ =~= join_spec(old(self)@, game_id@, client@).0);
        }
        Ok(self.0[i].host.duplicate())
    }

    /// Removes every game hosted by `host`; false where there is none.
    pub fn remove_game(&mut self, host: &SocketId) -> (r: bool)
        ensures
            r == (host_index(old(self)@, host@) >= 0),
            final(self)@ == remove_game_spec(old(self)@, host@),
            !r ==> final(self)@ == old(self)@,
    {
        let ghost all = old(self)@;
        let ghost mut j: int = 0;
        let mut removed = false;
        let mut i: usize = 0;
        while i < self.0.len()
            invariant
                0 <= j <= all.len(),
                self@ == all.take(j).filter(not_hosted_by(host@)) + all.skip(j),
                i as int == all.take(j).filter(not_hosted_by(host@)).len(),
                removed == (exists|k: int| 0 <= k < j && !not_hosted_by(host@)(#[trigger] all[k])),
                !removed ==> self@ == all,
            decreases self.0.len() - i,
        {
            let ghost prev = self@;
            let ghost f = all.take(j).filter(not_hosted_by(host@));
            proof {
                assert(all.take(j + 1) =~= all.take(j).push(all[j]));
                all.take(j).lemma_filter_push(all[j], not_hosted_by(host@));
                assert(all.skip(j) =~= seq![all[j]] + all.skip(j + 1));
                assert(prev =~= f + seq![all[j]] + all.skip(j + 1));
                assert(prev[i as int] == all[j]);
                assert(prev[i as int] == self.0@[i as int]@);
            }
            let is_host = self.0[i].host.same(host);
            proof {
                assert(is_host == (all[j].host == host@));
                assert(not_hosted_by(host@)(all[j]) == (all[j].host != host@));
            }
            if is_host {
                self.0.remove(i);
                proof {
                    assert(!not_hosted_by(host@)(all[j]));
                    assert(all.take(j + 1).filter(not_hosted_by(host@)) == f);
                    assert(self@ =~= prev.remove(i as int));
                    assert(self@ =~= all.take(j + 1).filter(not_hosted_by(host@)) + all.skip(j + 1));
                }
                removed = true;
            } else {
                proof {
                    assert(not_hosted_by(host@)(all[j]));
                    assert(all.take(j + 1).filter(not_hosted_by(host@)) == f.push(all[j]));
                    assert(self@ =~= all.take(j + 1).filter(not_hosted_by(host@)) + all.skip(j + 1));
                }
                i = i + 1;
            }
            proof {
                j = j + 1;
            }
        }
        proof {
            assert(self@.len() == i);
            assert(all.take(j) =~= all);
            assert(self@ =~= remove_game_spec(all, host@));
            if removed {
                let k = choose|k: int| 0 <= k < j && !not_hosted_by(host@)(#[trigger] all[k]);
                assert(hosted_by(host@)(all[k]));
                if host_index(all, host@) < 0 {
                    if exists|a: int| is_first(all, hosted_by(host@), a) {
                    } else {
                        lemma_first_exists(all, hosted_by(host@), k);
                    }
                }
            } else {
                assert forall|a: int| 0 <= a < all.len() implies !hosted_by(host@)(#[trigger] all[a]) by {
                    assert(not_hosted_by(host@)(all[a]));
                }
                lemma_first_index_none(all, hosted_by(host@));
            }
        }
        removed
    }

    /// Removes `client` from the members of every game.
    pub fn remove_client(&mut self, client: &SocketId)
        ensures
            final(self)@ == remove_client_spec(old(self)@, client@),
    {
        let mut i: usize = 0;
        while i < self.0.len()
            invariant
                0 <= i <= self.0.len(),
                self.0.len() == old(self).0.len(),
                forall|j: int| 0 <= j < i ==> #[trigger] self@[j] == without_client(old(self)@[j], client@),
                forall|j: int| i <= j < self.0.len() ==> #[trigger] self.0@[j] == old(self).0@[j],
            decreases self.0.len() - i,
        {
            let kept = drop_client(&self.0[i].clients, client);
            let ghost prev = self.0@;
            let ghost prev_view = self@;
            self.0[i].clients = kept;
            assert forall|j: int| 0 <= j < i implies #[trigger] self@[j] == without_client(old(self)@[j], client@) by {
                assert(self.0@[j] == prev[j]);
                assert(prev_view[j] == prev[j]@);
            }
            assert(forall|j: int| 0 <= j < self.0.len() && j != i ==> self.0@[j] == prev[j]);
            assert(self@[i as int] =~= without_client(old(self)@[i as int], client@));
            i = i + 1;
        }
        assert(self@ =~= remove_client_spec(old(self)@, client@));
    }

    /// The public summary of every game, in directory order.
    pub fn list(&self) -> (r: Vec<OutgoingGameInfo>)
        ensures
            summaries_view(r@) == list_spec(self@),
    {
        let mut r: Vec<OutgoingGameInfo> = Vec::new();
        let mut i: usize = 0;
        while i < self.0.len()
            invariant
                0 <= i <= self.0.len(),
                r.len() == i,
                summaries_view(r@) == list_spec(self@).take(i as int),
            decreases self.0.len() - i,
        {
            let g = &self.0[i];
            let ghost old_r = r@;
            r.push(OutgoingGameInfo {
                game_id: g.game_id.duplicate(),
                server_name: g.game_info.server_name.clone(),
                player_amount: g.game_info.player_amount,
                max_players: g.game_info.max_players,
                requires_password: g.game_info.requires_password,
            });
            assert(self@[i as int] == self.0@[i as int]@);
            assert(r@[i as int]@ == summary(self@[i as int]));
            i = i + 1;
            assert(summaries_view(r@) =~= list_spec(self@).take(i as int));
        }
        assert(list_spec(self@).take(i as int) =~= list_spec(self@));
        r
    }

    /// The first game hosted by `host`.
    pub fn get_game_by_host(&self, host: &SocketId) -> (r: Option<&Game>)
        ensures
            match r {
                Some(g) => host_index(self@, host@) >= 0 && g@ == self@[host_index(self@, host@)],
                None => host_index(self@, host@) == -1,
            },
    {
        match self.position_of_host(host) {
            Some(i) => Some(&self.0[i]),
            None => None,
        }
    }

    /// The first game that `client` has joined.
    pub fn get_game_by_client(&self, client: &SocketId) -> (r: Option<&Game>)
        ensures
            match r {
                Some(g) => client_index(self@, client@) >= 0 && g@ == self@[client_index(self@, client@)],
                None => client_index(self@, client@) == -1,
            },
    {
        match self.position_of_client(client) {
            Some(i) => Some(&self.0[i]),
            None => None,
        }
    }
}

} // verus!
