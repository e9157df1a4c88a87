//! Properties of the relay that hold across operations, proved over the
//! model that the executable functions are held to.
use crate::games::{
    id_index, join_spec, hosted_by, host_index, not_hosted_by, is_first, lemma_first_index_found,
    lemma_first_index_is, lemma_first_index_none, remove_client_spec, with_id, GameView,
    JoinGameError, joined_by, client_index,
};
use crate::router::{disconnect_spec, forward_only, nothing, not_host_reason, reply_only, route_spec};
use crate::messages::{IncomingView, OutgoingView};
use vstd::prelude::*;

verus! {

/// No game lists its own host among its members.
pub open spec fn hosts_not_members(gs: Seq<GameView>) -> bool {
    forall|i: int| 0 <= i < gs.len() ==> !(#[trigger] gs[i]).clients.contains(gs[i].host)
}

/// One thing that changes the directory: a message from a connection (with
/// the id a game created without one takes), or a connection going away.
pub enum Operation {
    Message { from: Seq<char>, message: IncomingView, fresh: Seq<char> },
    Disconnect { conn: Seq<char> },
}

pub open spec fn apply(gs: Seq<GameView>, op: Operation) -> Seq<GameView> {
    match op {
        Operation::Message { from, message, fresh } => route_spec(from, gs, message, fresh).0,
        Operation::Disconnect { conn } => disconnect_spec(gs, conn),
    }
}

/// The directory after the operations `ops`, in order.
pub open spec fn apply_all(gs: Seq<GameView>, ops: Seq<Operation>) -> Seq<GameView>
    decreases ops.len(),
{
    if ops.len() == 0 {
        gs
    } else {
        apply_all(apply(gs, ops[0]), ops.drop_first())
    }
}

proof fn lemma_remove_client_keeps_hosts_apart(gs: Seq<GameView>, c: Seq<char>)
    requires
        hosts_not_members(gs),
    ensures
        hosts_not_members(remove_client_spec(gs, c)),
{
    let after = remove_client_spec(gs, c);
    assert forall|i: int| 0 <= i < after.len() implies !(#[trigger] after[i]).clients.contains(after[i].host) by {
        assert(!gs[i].clients.contains(gs[i].host));
    }
}

/// Routing any message keeps every host out of its own game's members.
pub proof fn lemma_route_keeps_hosts_apart(s: Seq<char>, gs: Seq<GameView>, m: IncomingView, fresh: Seq<char>)
    requires
        hosts_not_members(gs),
    ensures
        hosts_not_members(route_spec(s, gs, m, fresh).0),
{
    let after = route_spec(s, gs, m, fresh).0;
    match m {
        IncomingView::CreateGame { .. } => {
            assert forall|i: int| 0 <= i < after.len() implies !(#[trigger] after[i]).clients.contains(after[i].host) by {
                if i < gs.len() {
                    assert(after[i] == gs[i]);
                }
            }
        },
        IncomingView::UpdateGameInfo { .. } => {
            assert forall|i: int| 0 <= i < after.len() implies !(#[trigger] after[i]).clients.contains(after[i].host) by {
                assert(!gs[i].clients.contains(gs[i].host));
            }
        },
        IncomingView::JoinGame { game_id, .. } => {
            assert forall|i: int| 0 <= i < after.len() implies !(#[trigger] after[i]).clients.contains(after[i].host) by {
                assert(!gs[i].clients.contains(gs[i].host));
            }
        },
        IncomingView::RejectJoin { client_id, .. } => {
            lemma_remove_client_keeps_hosts_apart(gs, client_id);
        },
        _ => {},
    }
}

/// A connection going away keeps every host out of its own game's members.
pub proof fn lemma_disconnect_keeps_hosts_apart(gs: Seq<GameView>, s: Seq<char>)
    requires
        hosts_not_members(gs),
    ensures
        hosts_not_members(disconnect_spec(gs, s)),
{
    if host_index(gs, s) >= 0 {
        let after = disconnect_spec(gs, s);
        assert forall|i: int| 0 <= i < after.len() implies !(#[trigger] after[i]).clients.contains(after[i].host) by {
            assert(after.contains(after[i]));
            gs.lemma_filter_contains_rev(not_hosted_by(s), after[i]);
            assert(gs.contains(after[i]));
        }
    } else {
        lemma_remove_client_keeps_hosts_apart(gs, s);
    }
}

/// Over any run of creates, joins, rejections, disconnects and other
/// messages, no game ever lists its own host as a member.
pub proof fn lemma_hosts_never_members(gs: Seq<GameView>, ops: Seq<Operation>)
    requires
        hosts_not_members(gs),
    ensures
        hosts_not_members(apply_all(gs, ops)),
    decreases ops.len(),
{
    if ops.len() > 0 {
        match ops[0] {
            Operation::Message { from, message, fresh } => {
                lemma_route_keeps_hosts_apart(from, gs, message, fresh);
            },
            Operation::Disconnect { conn } => {
                lemma_disconnect_keeps_hosts_apart(gs, conn);
            },
        }
        lemma_hosts_never_members(apply(gs, ops[0]), ops.drop_first());
    }
}

/// Joining a game id that no game has fails with `GameNotFound`, leaves the
/// directory as it was, and only tells the sender.
pub proof fn lemma_join_unknown_game(
    gs: Seq<GameView>,
    s: Seq<char>,
    game_id: Seq<char>,
    password: Option<Seq<char>>,
    fresh: Seq<char>,
)
    requires
        forall|i: int| 0 <= i < gs.len() ==> (#[trigger] gs[i]).game_id != game_id,
    ensures
        join_spec(gs, game_id, s) == (gs, Err::<Seq<char>, JoinGameError>(JoinGameError::GameNotFound)),
        route_spec(s, gs, IncomingView::JoinGame { game_id, password }, fresh) == (
            gs,
            reply_only(OutgoingView::Error { reason: "GameNotFound"@ }),
        ),
{
    assert forall|j: int| 0 <= j < gs.len() implies !with_id(game_id)(#[trigger] gs[j]) by {}
    lemma_first_index_none(gs, with_id(game_id));
}

/// A second join of the same game by the same connection fails with
/// `AlreadyJoined` and leaves the directory as the first join left it.
pub proof fn lemma_join_twice(gs: Seq<GameView>, game_id: Seq<char>, c: Seq<char>)
    requires
        join_spec(gs, game_id, c).1 is Ok,
    ensures
        join_spec(join_spec(gs, game_id, c).0, game_id, c) == (
            join_spec(gs, game_id, c).0,
            Err::<Seq<char>, JoinGameError>(JoinGameError::AlreadyJoined),
        ),
{
    let once = join_spec(gs, game_id, c).0;
    let i = id_index(gs, game_id);
    lemma_first_index_found(gs, with_id(game_id));
    assert(is_first(once, with_id(game_id), i)) by {
        assert forall|j: int| 0 <= j < i implies !with_id(game_id)(#[trigger] once[j]) by {
            assert(!with_id(game_id)(gs[j]));
        }
    }
    lemma_first_index_is(once, with_id(game_id), i);
    assert(once[i].clients.contains(c));
}

/// After a host goes away, no game it hosted is left and every other game
/// stays, in order; negotiation data sent by anyone is never routed to
/// it and never answered with an error, and from a connection whose games
/// all belonged to that host it is dropped with no directory change.
pub proof fn lemma_host_disconnect(
    gs: Seq<GameView>,
    h: Seq<char>,
    c: Seq<char>,
    description: Option<serde_json::Value>,
    candidate: Option<serde_json::Value>,
    fresh: Seq<char>,
)
    requires
        host_index(gs, h) >= 0,
    ensures
        ({
            let after = disconnect_spec(gs, h);
            let m = IncomingView::WebrtcSignaling { client_id: None, description, candidate };
            let (next, sent) = route_spec(c, after, m, fresh);
            &&& forall|i: int| 0 <= i < after.len() ==> (#[trigger] after[i]).host != h
            &&& after == gs.filter(|g: GameView| g.host != h)
            &&& next == after
            &&& sent.self_message is None
            &&& (sent.other_message matches Some((to, _)) ==> to != h)
            &&& ((forall|i: int| 0 <= i < gs.len() && (#[trigger] gs[i]).clients.contains(c) ==> gs[i].host == h)
                ==> sent == nothing())
        }),
{
    let after = disconnect_spec(gs, h);
    assert(not_hosted_by(h) == (|g: GameView| g.host != h));
    assert forall|i: int| 0 <= i < after.len() implies (#[trigger] after[i]).host != h by {
        gs.lemma_filter_pred(not_hosted_by(h), i);
        assert(not_hosted_by(h)(after[i]));
    }
    let ci = client_index(after, c);
    if ci >= 0 {
        lemma_first_index_found(after, joined_by(c));
        assert(after[ci].host != h);
    }
    if forall|i: int| 0 <= i < gs.len() && (#[trigger] gs[i]).clients.contains(c) ==> gs[i].host == h {
        assert forall|j: int| 0 <= j < after.len() implies !joined_by(c)(#[trigger] after[j]) by {
            assert(after.contains(after[j]));
            gs.lemma_filter_contains_rev(not_hosted_by(h), after[j]);
            assert(gs.contains(after[j]));
            let k = choose|k: int| 0 <= k < gs.len() && gs[k] == after[j];
            assert(after[j].host != h);
        }
        lemma_first_index_none(after, joined_by(c));
    }
}

/// After a connection that hosts no game goes away, no game lists it as a
/// member, and a later rejection of it leaves the directory as it is and
/// still reaches it.
pub proof fn lemma_client_disconnect(
    gs: Seq<GameView>,
    c: Seq<char>,
    h: Seq<char>,
    game_id: Seq<char>,
    reason: Seq<char>,
    fresh: Seq<char>,
)
    requires
        host_index(gs, c) == -1,
    ensures
        ({
            let after = disconnect_spec(gs, c);
            let m = IncomingView::RejectJoin { game_id, client_id: c, reason };
            &&& forall|i: int| 0 <= i < after.len() ==> !(#[trigger] after[i]).clients.contains(c)
            &&& route_spec(h, after, m, fresh) == (
                after,
                forward_only(c, OutgoingView::RejectJoin { game_id, reason }),
            )
        }),
{
    let after = disconnect_spec(gs, c);
    assert(after == remove_client_spec(gs, c));
    assert forall|i: int| 0 <= i < after.len() implies !(#[trigger] after[i]).clients.contains(c) by {}
    let again = remove_client_spec(after, c);
    assert forall|i: int| 0 <= i < after.len() implies #[trigger] again[i] == after[i] by {
        assert(again[i].clients =~= after[i].clients);
    }
    assert(again =~= after);
}

/// An info update from a connection that hosts no game changes nothing and
/// only answers the sender with an error.
pub proof fn lemma_update_by_non_host(
    gs: Seq<GameView>,
    s: Seq<char>,
    server_name: Seq<char>,
    player_amount: u32,
    max_players: u32,
    requires_password: Option<bool>,
    fresh: Seq<char>,
)
    requires
        forall|i: int| 0 <= i < gs.len() ==> (#[trigger] gs[i]).host != s,
    ensures
        route_spec(
            s,
            gs,
            IncomingView::UpdateGameInfo { server_name, player_amount, max_players, requires_password },
            fresh,
        ) == (gs, reply_only(OutgoingView::Error { reason: not_host_reason() })),
{
    assert forall|j: int| 0 <= j < gs.len() implies !hosted_by(s)(#[trigger] gs[j]) by {}
    lemma_first_index_none(gs, hosted_by(s));
}

} // verus!
