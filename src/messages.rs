//! The messages a connection sends to the relay and receives from it.
use crate::ids::{GameId, SocketId};
use vstd::prelude::*;

verus! {

/// Negotiation data, relayed as it came and never looked into.
#[verifier::external_type_specification]
#[verifier::external_body]
pub struct ExValue(serde_json::Value);

/// What the directory shows of one game.
#[derive(Debug)]
pub struct OutgoingGameInfo {
    pub game_id: GameId,
    pub server_name: String,
    pub player_amount: u32,
    pub max_players: u32,
    pub requires_password: bool,
}

/// The plain-value model of a game's public summary.
pub struct GameSummaryView {
    pub game_id: Seq<char>,
    pub server_name: Seq<char>,
    pub player_amount: u32,
    pub max_players: u32,
    pub requires_password: bool,
}

impl View for OutgoingGameInfo {
    type V = GameSummaryView;

    open spec fn view(&self) -> GameSummaryView {
        GameSummaryView {
            game_id: self.game_id@,
            server_name: self.server_name@,
            player_amount: self.player_amount,
            max_players: self.max_players,
            requires_password: self.requires_password,
        }
    }
}

/// The summaries of a list, in order.
pub open spec fn summaries_view(v: Seq<OutgoingGameInfo>) -> Seq<GameSummaryView> {
    v.map_values(|g: OutgoingGameInfo| g@)
}

pub open spec fn socket_opt(o: Option<SocketId>) -> Option<Seq<char>> {
    match o {
        Some(s) => Some(s@),
        None => None,
    }
}

pub open spec fn game_opt(o: Option<GameId>) -> Option<Seq<char>> {
    match o {
        Some(g) => Some(g@),
        None => None,
    }
}

pub open spec fn text_opt(o: Option<String>) -> Option<Seq<char>> {
    match o {
        Some(t) => Some(t@),
        None => None,
    }
}

/// A message that a connection sends to the relay.
#[derive(Debug)]
pub enum IncomingMessage {
    /// Negotiation data: from a host to `client_id`, or from a member to
    /// its host where `client_id` is absent.
    WebrtcSignaling {
        client_id: Option<SocketId>,
        description: Option<serde_json::Value>,
        candidate: Option<serde_json::Value>,
    },
    CreateGame {
        server_name: String,
        max_players: u32,
        game_id: Option<GameId>,
        requires_password: Option<bool>,
    },
    UpdateGameInfo {
        server_name: String,
        player_amount: u32,
        max_players: u32,
        requires_password: Option<bool>,
    },
    ListGames,
    JoinGame { game_id: GameId, password: Option<String> },
    AcceptJoin { game_id: GameId, client_id: SocketId },
    RejectJoin { game_id: GameId, client_id: SocketId, reason: String },
}

pub enum IncomingView {
    WebrtcSignaling {
        client_id: Option<Seq<char>>,
        description: Option<serde_json::Value>,
        candidate: Option<serde_json::Value>,
    },
    CreateGame {
        server_name: Seq<char>,
        max_players: u32,
        game_id: Option<Seq<char>>,
        requires_password: Option<bool>,
    },
    UpdateGameInfo {
        server_name: Seq<char>,
        player_amount: u32,
        max_players: u32,
        requires_password: Option<bool>,
    },
    ListGames,
    JoinGame { game_id: Seq<char>, password: Option<Seq<char>> },
    AcceptJoin { game_id: Seq<char>, client_id: Seq<char> },
    RejectJoin { game_id: Seq<char>, client_id: Seq<char>, reason: Seq<char> },
}

impl View for IncomingMessage {
    type V = IncomingView;

    open spec fn view(&self) -> IncomingView {
        match self {
            IncomingMessage::WebrtcSignaling { client_id, description, candidate } =>
                IncomingView::WebrtcSignaling {
                    client_id: socket_opt(*client_id),
                    description: *description,
                    candidate: *candidate,
                },
            IncomingMessage::CreateGame { server_name, max_players, game_id, requires_password } =>
                IncomingView::CreateGame {
                    server_name: server_name@,
                    max_players: *max_players,
                    game_id: game_opt(*game_id),
                    requires_password: *requires_password,
                },
            IncomingMessage::UpdateGameInfo { server_name, player_amount, max_players, requires_password } =>
                IncomingView::UpdateGameInfo {
                    server_name: server_name@,
                    player_amount: *player_amount,
                    max_players: *max_players,
                    requires_password: *requires_password,
                },
            IncomingMessage::ListGames => IncomingView::ListGames,
            IncomingMessage::JoinGame { game_id, password } =>
                IncomingView::JoinGame { game_id: game_id@, password: text_opt(*password) },
            IncomingMessage::AcceptJoin { game_id, client_id } =>
                IncomingView::AcceptJoin { game_id: game_id@, client_id: client_id@ },
            IncomingMessage::RejectJoin { game_id, client_id, reason } =>
                IncomingView::RejectJoin { game_id: game_id@, client_id: client_id@, reason: reason@ },
        }
    }
}

/// A message that the relay sends to a connection.
#[derive(Debug)]
pub enum OutgoingMessage {
    Error { reason: String },
    /// Negotiation data, tagged with the game; `client_id` names the member
    /// it came from where it goes to a host.
    WebrtcSignaling {
        game_id: GameId,
        client_id: Option<SocketId>,
        description: Option<serde_json::Value>,
        candidate: Option<serde_json::Value>,
    },
    GameCreated { game_id: GameId },
    GameList { games: Vec<OutgoingGameInfo> },
    NewClient { game_id: GameId, client_id: SocketId, password: Option<String> },
    AcceptJoin { game_id: GameId },
    RejectJoin { game_id: GameId, reason: String },
}

pub enum OutgoingView {
    Error { reason: Seq<char> },
    WebrtcSignaling {
        game_id: Seq<char>,
        client_id: Option<Seq<char>>,
        description: Option<serde_json::Value>,
        candidate: Option<serde_json::Value>,
    },
    GameCreated { game_id: Seq<char> },
    GameList { games: Seq<GameSummaryView> },
    NewClient { game_id: Seq<char>, client_id: Seq<char>, password: Option<Seq<char>> },
    AcceptJoin { game_id: Seq<char> },
    RejectJoin { game_id: Seq<char>, reason: Seq<char> },
}

impl View for OutgoingMessage {
    type V = OutgoingView;

    open spec fn view(&self) -> OutgoingView {
        match self {
            OutgoingMessage::Error { reason } => OutgoingView::Error { reason: reason@ },
            OutgoingMessage::WebrtcSignaling { game_id, client_id, description, candidate } =>
                OutgoingView::WebrtcSignaling {
                    game_id: game_id@,
                    client_id: socket_opt(*client_id),
                    description: *description,
                    candidate: *candidate,
                },
            OutgoingMessage::GameCreated { game_id } => OutgoingView::GameCreated { game_id: game_id@ },
            OutgoingMessage::GameList { games } => OutgoingView::GameList { games: summaries_view(games@) },
            OutgoingMessage::NewClient { game_id, client_id, password } =>
                OutgoingView::NewClient {
                    game_id: game_id@,
                    client_id: client_id@,
                    password: text_opt(*password),
                },
            OutgoingMessage::AcceptJoin { game_id } => OutgoingView::AcceptJoin { game_id: game_id@ },
            OutgoingMessage::RejectJoin { game_id, reason } =>
                OutgoingView::RejectJoin { game_id: game_id@, reason: reason@ },
        }
    }
}

} // verus!
