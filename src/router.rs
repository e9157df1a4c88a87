//! The routing rules: for one message from one connection, how the directory
//! changes and who is told what.
use crate::games::{
    add_spec, client_index, host_index, join_error_reason, join_spec, list_spec, remove_client_spec,
    remove_game_spec, update_info_spec, Game, GameInfo, GameInfoView, GameView, Games, id_set,
};
use crate::ids::{is_generated_id, GameId, SocketId};
use crate::messages::{IncomingMessage, IncomingView, OutgoingMessage, OutgoingView};
use vstd::prelude::*;

verus! {

/// What one message makes the relay send: at most one reply to the sender
/// and at most one message to another connection.
#[derive(Debug)]
pub struct MessagesToSend {
    pub self_message: Option<OutgoingMessage>,
    pub other_message: Option<(SocketId, OutgoingMessage)>,
}

pub struct RouteView {
    pub self_message: Option<OutgoingView>,
    pub other_message: Option<(Seq<char>, OutgoingView)>,
}

impl View for MessagesToSend {
    type V = RouteView;

    open spec fn view(&self) -> RouteView {
        RouteView {
            self_message: match self.self_message {
                Some(m) => Some(m@),
                None => None,
            },
            other_message: match self.other_message {
                Some((id, m)) => Some((id@, m@)),
                None => None,
            },
        }
    }
}

pub open spec fn reply_only(m: OutgoingView) -> RouteView {
    RouteView { self_message: Some(m), other_message: None }
}

pub open spec fn forward_only(to: Seq<char>, m: OutgoingView) -> RouteView {
    RouteView { self_message: None, other_message: Some((to, m)) }
}

pub open spec fn nothing() -> RouteView {
    RouteView { self_message: None, other_message: None }
}

impl MessagesToSend {
    pub fn self_(message: OutgoingMessage) -> (r: MessagesToSend)
        ensures
            r@ == reply_only(message@),
    {
        MessagesToSend { self_message: Some(message), other_message: None }
    }

    pub fn other(id: SocketId, message: OutgoingMessage) -> (r: MessagesToSend)
        ensures
            r@ == forward_only(id@, message@),
    {
        MessagesToSend { self_message: None, other_message: Some((id, message)) }
    }

    pub fn none() -> (r: MessagesToSend)
        ensures
            r@ == nothing(),
    {
        MessagesToSend { self_message: None, other_message: None }
    }
}

/// The reply to an info update from a connection that hosts no game.
pub open spec fn not_host_reason() -> Seq<char> {
    "You're not a game host"@
}

/// Whether routing `m` draws a generated game id.
pub open spec fn needs_fresh_id(m: IncomingView) -> bool {
    m matches IncomingView::CreateGame { game_id: None, .. }
}

/// The game a create request adds, hosted by `s`; `fresh` is its id where
/// the request names none.
pub open spec fn created_game(s: Seq<char>, m: IncomingView, fresh: Seq<char>) -> GameView
    recommends
        m is CreateGame,
{
    let id = match m->CreateGame_game_id {
        Some(g) => g,
        None => fresh,
    };
    GameView {
        game_id: id,
        host: s,
        clients: Set::empty(),
        info: GameInfoView {
            server_name: m->CreateGame_server_name,
            player_amount: 1,
            max_players: m->CreateGame_max_players,
            requires_password: match m->CreateGame_requires_password {
                Some(b) => b,
                None => false,
            },
        },
    }
}

/// Routing of message `m` from connection `s` over directory `gs`: the
/// directory after it and what is sent. `fresh` is the id a new game takes
/// where the request names none.
pub open spec fn route_spec(s: Seq<char>, gs: Seq<GameView>, m: IncomingView, fresh: Seq<char>) -> (Seq<GameView>, RouteView) {
    match m {
        IncomingView::WebrtcSignaling { client_id, description, candidate } => match client_id {
            Some(target) => {
                let i = host_index(gs, s);
                if i < 0 {
                    (gs, nothing())
                } else {
                    (gs, forward_only(target, OutgoingView::WebrtcSignaling {
                        game_id: gs[i].game_id,
                        client_id: None,
                        description,
                        candidate,
                    }))
                }
            },
            None => {
                let i = client_index(gs, s);
                if i < 0 {
                    (gs, nothing())
                } else {
                    (gs, forward_only(gs[i].host, OutgoingView::WebrtcSignaling {
                        game_id: gs[i].game_id,
                        client_id: Some(s),
                        description,
                        candidate,
                    }))
                }
            },
        },
        IncomingView::CreateGame { .. } => {
            let g = created_game(s, m, fresh);
            (add_spec(gs, g), reply_only(OutgoingView::GameCreated { game_id: g.game_id }))
        },
        IncomingView::UpdateGameInfo { server_name, player_amount, max_players, requires_password } => {
            if host_index(gs, s) >= 0 {
                let info = GameInfoView {
                    server_name,
                    player_amount,
                    max_players,
                    requires_password: match requires_password {
                        Some(b) => b,
                        None => false,
                    },
                };
                (update_info_spec(gs, s, info), nothing())
            } else {
                (gs, reply_only(OutgoingView::Error { reason: not_host_reason() }))
            }
        },
        IncomingView::ListGames => (gs, reply_only(OutgoingView::GameList { games: list_spec(gs) })),
        IncomingView::JoinGame { game_id, password } => {
            let (after, r) = join_spec(gs, game_id, s);
            match r {
                Ok(h) => (after, forward_only(h, OutgoingView::NewClient { game_id, client_id: s, password })),
                Err(e) => (after, reply_only(OutgoingView::Error { reason: join_error_reason(e) })),
            }
        },
        IncomingView::AcceptJoin { game_id, client_id } =>
            (gs, forward_only(client_id, OutgoingView::AcceptJoin { game_id })),
        IncomingView::RejectJoin { game_id, client_id, reason } =>
            (remove_client_spec(gs, client_id), forward_only(client_id, OutgoingView::RejectJoin { game_id, reason })),
    }
}

/// Cleanup after connection `s` went away: the game it hosts leaves the
/// directory; where it hosts none, it leaves every game it joined.
pub open spec fn disconnect_spec(gs: Seq<GameView>, s: Seq<char>) -> Seq<GameView> {
    if host_index(gs, s) >= 0 {
        remove_game_spec(gs, s)
    } else {
        remove_client_spec(gs, s)
    }
}

/// Routes `message` from `socket_id` with `fresh` as the id of a game that is
/// created without one.
pub fn route_message(socket_id: &SocketId, games: &mut Games, message: IncomingMessage, fresh: GameId) -> (r: MessagesToSend)
    ensures
        (final(games)@, r@) == route_spec(socket_id@, old(games)@, message@, fresh@),
{
    let ghost m = message@;
    match message {
        IncomingMessage::WebrtcSignaling { client_id, description, candidate } => {
            match client_id {
                Some(target) => {
                    match games.get_game_by_host(socket_id) {
                        Some(game) => MessagesToSend::other(
                            target,
                            OutgoingMessage::WebrtcSignaling {
                                game_id: game.game_id.duplicate(),
                                client_id: None,
                                description,
                                candidate,
                            },
                        ),
                        None => MessagesToSend::none(),
                    }
                },
                None => {
                    match games.get_game_by_client(socket_id) {
                        Some(game) => MessagesToSend::other(
                            game.host.duplicate(),
                            OutgoingMessage::WebrtcSignaling {
                                game_id: game.game_id.duplicate(),
                                client_id: Some(socket_id.duplicate()),
                                description,
                                candidate,
                            },
                        ),
                        None => MessagesToSend::none(),
                    }
                },
            }
        },
        IncomingMessage::CreateGame { game_id, server_name, max_players, requires_password } => {
            let game_id = match game_id {
                Some(g) => g,
                None => fresh,
            };
            let requires_password = match requires_password {
                Some(b) => b,
                None => false,
            };
            let game = Game {
                game_id: game_id.duplicate(),
                host: socket_id.duplicate(),
                clients: Vec::new(),
                game_info: GameInfo { server_name, player_amount: 1, max_players, requires_password },
            };
            assert(id_set(game.clients@) =~= Set::<Seq<char>>::empty());
            assert(game@ == created_game(socket_id@, m, fresh@));
            games.add(game);
            MessagesToSend::self_(OutgoingMessage::GameCreated { game_id })
        },
        IncomingMessage::UpdateGameInfo { max_players, player_amount, server_name, requires_password } => {
            let requires_password = match requires_password {
                Some(b) => b,
                None => false,
            };
            if games.update_info(
                socket_id,
                GameInfo { server_name, player_amount, max_players, requires_password },
            ) {
                MessagesToSend::none()
            } else {
                MessagesToSend::self_(OutgoingMessage::Error { reason: String::from_str("You're not a game host") })
            }
        },
        IncomingMessage::ListGames => MessagesToSend::self_(OutgoingMessage::GameList { games: games.list() }),
        IncomingMessage::JoinGame { game_id, password } => {
            match games.join_game(&game_id, socket_id) {
                Err(err) => MessagesToSend::self_(OutgoingMessage::Error { reason: err.reason() }),
                Ok(host) => MessagesToSend::other(
                    host,
                    OutgoingMessage::NewClient { game_id, client_id: socket_id.duplicate(), password },
                ),
            }
        },
        IncomingMessage::AcceptJoin { game_id, client_id } =>
            MessagesToSend::other(client_id, OutgoingMessage::AcceptJoin { game_id }),
        IncomingMessage::RejectJoin { game_id, client_id, reason } => {
            games.remove_client(&client_id);
            MessagesToSend::other(client_id, OutgoingMessage::RejectJoin { game_id, reason })
        },
    }
}

/// Routes `message` from `socket_id`, drawing a random id for a game that is
/// created without one.
pub fn process_incoming_message(socket_id: &SocketId, games: &mut Games, message: IncomingMessage) -> (r: MessagesToSend)
    ensures
        exists|fresh: Seq<char>|
            #![trigger route_spec(socket_id@, old(games)@, message@, fresh)]
            {
                &&& needs_fresh_id(message@) ==> is_generated_id(fresh)
                &&& (final(games)@, r@) == route_spec(socket_id@, old(games)@, message@, fresh)
            },
{
    let fresh = match &message {
        IncomingMessage::CreateGame { game_id: None, .. } => GameId::random(),
        _ => GameId(String::new()),
    };
    let ghost f = fresh@;
    let ghost m = message@;
    let r = route_message(socket_id, games, message, fresh);
    assert({
        &&& needs_fresh_id(m) ==> is_generated_id(f)
        &&& (games@, r@) == route_spec(socket_id@, old(games)@, m, f)
    });
    r
}

/// Cleanup after `socket_id` went away.
pub fn process_disconnect(socket_id: &SocketId, games: &mut Games)
    ensures
        final(games)@ == disconnect_spec(old(games)@, socket_id@),
{
    if games.remove_game(socket_id) {
        return;
    }
    games.remove_client(socket_id);
}

} // verus!
