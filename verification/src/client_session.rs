//! A client's state: the screen it shows, its room and its player; how the
//! server's messages and the player's moves between screens change it (see
//! [`crate::client_play`] for what the player does in a lobby, a game or a
//! replay). Each step says what the program showing the client does
//! besides: send a request to the server, show an error, or animate a turn.
use std::collections::HashMap;

use vstd::prelude::*;

use crate::board::{CellCoord, PlayerID};
use crate::client::{keep_local_rotations, with_local_rotations};
use crate::game::Game;
use crate::game_model::{lemma_map_values_insert, lemma_map_values_remove, tiles_rotatable, GameView};
use crate::lobby::{lobby_after, Lobby, LobbyEvent, LobbyId, LobbyView, Visibility};
use crate::protocol::{ClientMessage, LobbyListing, ServerMessage};
use crate::replay::ReplayState;
use crate::text::{joined, owned_text};

verus! {

broadcast use {lemma_map_values_insert, lemma_map_values_remove};

/// A request from the join screen that waits on the server: the form stays
/// put until the server confirms or refuses it.
pub enum JoinScreenRequest {
    /// Joining a lobby as a player (by code or from the public directory).
    Join,
    /// Watching a game in progress.
    Spectate { room_id: String, room_name: String },
}

/// The screen a client shows.
pub enum AppState {
    MainMenu,
    CreateLobbyForm {
        lobby_name: String,
        player_name: String,
        /// Whether the room will be listed in the public lobby directory.
        public: bool,
        /// Per-turn clock for the game.
        turn_timer_secs: Option<u64>,
    },
    JoinLobbyForm {
        lobby_id: String,
        player_name: String,
        pending: Option<JoinScreenRequest>,
        /// The server's public lobby directory.
        lobbies: Vec<LobbyListing>,
    },
    /// A lobby, where the client places its own pawn.
    Lobby(Lobby),
    /// A lobby where the client places the pawn of the given player.
    LobbyPlacingFor(Lobby, PlayerID),
    /// A game played on this machine.
    Game(Game),
    /// A game run by the server: `game` is the server's state, which holds
    /// only this client's own hand.
    OnlineGame {
        game: Game,
        room_id: String,
        lobby_name: String,
        /// A move was sent and its answer has not come yet.
        waiting_for_server: bool,
        /// Every player's hand size, from the server: `game` holds only this
        /// client's own tiles.
        hand_counts: HashMap<PlayerID, usize>,
        /// Watching only: no hand, no moves.
        is_spectator: bool,
    },
    ReplayViewer { replay_state: ReplayState, current_game: Game },
}

/// What a client knows of its session: the screen, the room it is in and
/// the player it plays.
pub struct ClientState {
    pub app_state: AppState,
    pub current_room_id: Option<String>,
    pub current_player_id: PlayerID,
    /// The seconds on the turn clock when the server last told them (none:
    /// no clock runs); the program counts them down.
    pub turn_clock_secs: Option<u64>,
}

/// What the client does besides changing its state.
pub enum ClientEffect {
    Nothing,
    /// Show `message` to the player for a while.
    ShowError { message: String },
    /// Animate the latest turn of the game now shown.
    AnimateTurn,
    /// Send `request` to the server.
    Send { request: ClientMessage },
    /// A tile was placed on `cell` of a game played on this machine: animate
    /// the turn and the tile.
    TilePlaced { cell: CellCoord },
}

/// The lobby that a screen shows, if any.
pub open spec fn shown_lobby(s: AppState) -> Option<LobbyView> {
    match s {
        AppState::Lobby(l) => Some(l@),
        AppState::LobbyPlacingFor(l, _) => Some(l@),
        _ => None,
    }
}

/// `after` is the screen `before` with the lobby it shows, if it shows one,
/// now being `lv`.
pub open spec fn with_lobby(before: AppState, after: AppState, lv: LobbyView) -> bool {
    match before {
        AppState::Lobby(_) => after matches AppState::Lobby(l) && l@ == lv,
        AppState::LobbyPlacingFor(_, p) => after matches AppState::LobbyPlacingFor(l, q) && l@ == lv
            && q == p,
        _ => after == before,
    }
}

/// `after` is the screen `before` with the lobby it shows, if it shows one,
/// having taken `event` (accepted or refused, see [`lobby_after`]).
pub open spec fn lobby_took(before: AppState, after: AppState, event: LobbyEvent) -> bool {
    with_lobby(before, after, lobby_after(shown_lobby(before)->0, event).0)
}

/// The join form waits for its own join to be confirmed.
pub open spec fn joining(s: AppState) -> bool {
    s matches AppState::JoinLobbyForm { pending: Some(JoinScreenRequest::Join), .. }
}

/// The name of the room, when the join form waits to watch the room named
/// `room`.
pub open spec fn spectate_name(s: AppState, room: Seq<char>) -> Option<Seq<char>> {
    match s {
        AppState::JoinLobbyForm {
            pending: Some(JoinScreenRequest::Spectate { room_id, room_name }),
            ..
        } => if room_id@ == room {
            Some(room_name@)
        } else {
            None
        },
        _ => None,
    }
}

/// The lobby a client enters when its own join is confirmed before the
/// lobby itself comes: an empty lobby named after the room, with the player
/// in it.
pub open spec fn provisional_lobby(
    l: LobbyView,
    room_id: Seq<char>,
    player_id: PlayerID,
    player_name: String,
) -> bool {
    &&& l.name@ == "Room "@ + room_id
    &&& l == lobby_after(
        LobbyView {
            id: LobbyId(0),
            name: l.name,
            players: Map::empty(),
            started: false,
            max_players: 8,
            visibility: Visibility::Private,
        },
        LobbyEvent::PlayerJoined { player_id, player_name },
    ).0
}

/// The game `state` from the server as the client keeps it: the rotations
/// that player `me` gave the tiles of its hand stay (see
/// [`with_local_rotations`]).
pub open spec fn updated_game(shown: GameView, state: GameView, me: PlayerID) -> GameView {
    if shown.hands.contains_key(me) && state.hands.contains_key(me) {
        GameView {
            hands: state.hands.insert(me, with_local_rotations(shown.hands[me], state.hands[me])),
            ..state
        }
    } else {
        state
    }
}

/// The tiles of the client's own hand, in the game it shows, can be
/// rotated.
pub open spec fn own_hand_rotatable(c: ClientState) -> bool {
    c.app_state matches AppState::OnlineGame { game, .. } ==> (game@.hands.contains_key(
        c.current_player_id,
    ) ==> tiles_rotatable(game@.hands[c.current_player_id]))
}

/// The room and the player of `new` are those of `old`.
pub open spec fn same_player(old: ClientState, new: ClientState) -> bool {
    new.current_room_id == old.current_room_id && new.current_player_id == old.current_player_id
}

/// The room, the player and the turn clock of `new` are those of `old`.
pub open spec fn same_identity(old: ClientState, new: ClientState) -> bool {
    same_player(old, new) && new.turn_clock_secs == old.turn_clock_secs
}

/// The turn clock a client holds after `msg`, when it held `clock`: the
/// reading a game state or the start of a game tells, else the same.
pub open spec fn clock_after(clock: Option<u64>, msg: ServerMessage) -> Option<u64> {
    match msg {
        ServerMessage::GameStateUpdate { turn_deadline_secs, .. } => turn_deadline_secs,
        ServerMessage::GameStarted { turn_deadline_secs, .. } => turn_deadline_secs,
        _ => clock,
    }
}

/// Shown when the server played the player's turn because its clock ran
/// out.
pub open spec fn auto_played_text() -> Seq<char> {
    "The turn clock ran out \u{2014} the server played that turn."@
}

/// The client `new`, and what it does, after `old` receives `msg`: its
/// turn clock (see [`clock_after`]), and its screen and identity (see
/// [`screen_after`]).
pub open spec fn client_after(
    old: ClientState,
    msg: ServerMessage,
    new: ClientState,
    effect: ClientEffect,
) -> bool {
    &&& new.turn_clock_secs == clock_after(old.turn_clock_secs, msg)
    &&& screen_after(old, msg, new, effect)
}

/// The screen and identity of client `new`, and what it does, after `old`
/// receives `msg`.
pub open spec fn screen_after(
    old: ClientState,
    msg: ServerMessage,
    new: ClientState,
    effect: ClientEffect,
) -> bool {
    match msg {
        ServerMessage::RoomCreated { room_id, player_id } => {
            &&& new.current_room_id == Some(room_id)
            &&& new.current_player_id == player_id
            &&& new.app_state == old.app_state
            &&& effect == ClientEffect::Nothing
        },
        ServerMessage::PlayerJoined { room_id, player_id, player_name } => {
            &&& old.current_room_id is None ==> (new.current_room_id matches Some(r) && r@
                == room_id@ && new.current_player_id == player_id)
            &&& old.current_room_id is Some ==> same_identity(old, new)
            &&& if joining(old.app_state) {
                new.app_state matches AppState::Lobby(l) && provisional_lobby(
                    l@,
                    room_id@,
                    player_id,
                    player_name,
                )
            } else {
                lobby_took(
                    old.app_state,
                    new.app_state,
                    LobbyEvent::PlayerJoined { player_id, player_name },
                )
            }
            &&& effect == ClientEffect::Nothing
        },
        ServerMessage::GameStateUpdate { room_id, state, hand_counts, .. } => match spectate_name(
            old.app_state,
            room_id@,
        ) {
            Some(name) => {
                &&& new.current_room_id matches Some(r) && r@ == room_id@
                &&& new.current_player_id == 0
                &&& new.app_state matches AppState::OnlineGame {
                    game,
                    room_id: shown,
                    lobby_name,
                    waiting_for_server,
                    hand_counts: counts,
                    is_spectator,
                } && game == state && shown == room_id && lobby_name@ == name
                    && !waiting_for_server && counts == hand_counts && is_spectator
                &&& effect == ClientEffect::Nothing
            },
            None => {
                &&& same_player(old, new)
                &&& match old.app_state {
                    AppState::OnlineGame { game: g0, room_id: r0, lobby_name: n0, is_spectator: s0, .. } => {
                        &&& new.app_state matches AppState::OnlineGame {
                            game,
                            room_id: r,
                            lobby_name: n,
                            waiting_for_server: w,
                            hand_counts: counts,
                            is_spectator: s,
                        } && game@ == updated_game(g0@, state@, old.current_player_id) && r == r0
                            && n == n0 && !w && counts == hand_counts && s == s0
                        &&& effect == ClientEffect::AnimateTurn
                    },
                    _ => new.app_state == old.app_state && effect == ClientEffect::Nothing,
                }
            },
        },
        ServerMessage::Error { message } => {
            &&& same_identity(old, new)
            &&& match old.app_state {
                AppState::OnlineGame { game, room_id, lobby_name, hand_counts, is_spectator, .. } => new.app_state
                    == AppState::OnlineGame {
                    game,
                    room_id,
                    lobby_name,
                    waiting_for_server: false,
                    hand_counts,
                    is_spectator,
                },
                AppState::JoinLobbyForm { lobby_id, player_name, lobbies, .. } => new.app_state
                    == AppState::JoinLobbyForm { lobby_id, player_name, pending: None, lobbies },
                _ => new.app_state == old.app_state,
            }
            &&& effect == ClientEffect::ShowError { message }
        },
        ServerMessage::LobbyList { lobbies } => {
            &&& same_identity(old, new)
            &&& match old.app_state {
                AppState::JoinLobbyForm { lobby_id, player_name, pending, .. } => new.app_state
                    == AppState::JoinLobbyForm { lobby_id, player_name, pending, lobbies },
                _ => new.app_state == old.app_state,
            }
            &&& effect == ClientEffect::Nothing
        },
        ServerMessage::LobbyStateUpdate { lobby, .. } => {
            &&& same_identity(old, new)
            &&& match old.app_state {
                AppState::Lobby(_) => new.app_state == AppState::Lobby(lobby),
                AppState::LobbyPlacingFor(_, p) => new.app_state == AppState::LobbyPlacingFor(lobby, p),
                _ => if joining(old.app_state) {
                    new.app_state == AppState::Lobby(lobby)
                } else {
                    new.app_state == old.app_state
                },
            }
            &&& effect == ClientEffect::Nothing
        },
        ServerMessage::PawnPlaced { player_id, position, .. } => {
            &&& same_identity(old, new)
            &&& lobby_took(
                old.app_state,
                new.app_state,
                LobbyEvent::PawnPlaced { player_id, position },
            )
            &&& effect == ClientEffect::Nothing
        },
        ServerMessage::GameStarted { room_id, game, hand_counts, .. } => {
            &&& same_player(old, new)
            &&& new.app_state matches AppState::OnlineGame {
                game: g,
                room_id: r,
                lobby_name,
                waiting_for_server,
                hand_counts: counts,
                is_spectator,
            } && g == game && r == room_id && counts == hand_counts && lobby_name@ == match shown_lobby(old.app_state) {
                Some(l) => l.name@,
                None => "Game"@,
            } && !waiting_for_server && !is_spectator
            &&& effect == ClientEffect::Nothing
        },
        ServerMessage::TurnCompleted { auto_played, .. } => {
            &&& new == old
            &&& if auto_played {
                effect matches ClientEffect::ShowError { message } && message@ == auto_played_text()
            } else {
                effect == ClientEffect::Nothing
            }
        },
        ServerMessage::PlayerLeft { .. } => new == old && effect == ClientEffect::Nothing,
    }
}

impl ClientState {
    /// Follows a message from the server (see [`client_after`]): the
    /// confirmation of the client's own room and player, lobby updates, the
    /// start of the game and its states (the player's own rotations of its
    /// hand kept), the directory of lobbies, and errors, which release a
    /// waiting form or game and are shown to the player.
    pub fn handle_server_message(&mut self, msg: ServerMessage) -> (r: ClientEffect)
        requires
            own_hand_rotatable(*old(self)),
        ensures
            client_after(*old(self), msg, *final(self), r),
    {
        let mut st = AppState::MainMenu;
        std::mem::swap(&mut st, &mut self.app_state);
        match msg {
            ServerMessage::RoomCreated { room_id, player_id } => {
                self.current_room_id = Some(room_id);
                self.current_player_id = player_id;
                self.app_state = st;
                ClientEffect::Nothing
            },
            ServerMessage::PlayerJoined { room_id, player_id, player_name } => {
                if self.current_room_id.is_none() {
                    self.current_room_id = Some(room_id.clone());
                    self.current_player_id = player_id;
                }
                let event = LobbyEvent::PlayerJoined { player_id, player_name };
                self.app_state = match st {
                    AppState::JoinLobbyForm { pending: Some(JoinScreenRequest::Join), .. } => {
                        let mut lobby = Lobby::new(LobbyId(0), joined("Room ", room_id.as_str()));
                        let _ = lobby.handle_event(event);
                        AppState::Lobby(lobby)
                    },
                    AppState::Lobby(mut lobby) => {
                        let _ = lobby.handle_event(event);
                        AppState::Lobby(lobby)
                    },
                    AppState::LobbyPlacingFor(mut lobby, p) => {
                        let _ = lobby.handle_event(event);
                        AppState::LobbyPlacingFor(lobby, p)
                    },
                    other => other,
                };
                ClientEffect::Nothing
            },
            ServerMessage::GameStateUpdate { room_id, state, hand_counts, turn_deadline_secs, .. } => {
                self.turn_clock_secs = turn_deadline_secs;
                let spectate = match &st {
                    AppState::JoinLobbyForm {
                        pending: Some(JoinScreenRequest::Spectate { room_id: wanted, room_name }),
                        ..
                    } => if *wanted == room_id {
                        Some(room_name.clone())
                    } else {
                        None
                    },
                    _ => None,
                };
                match spectate {
                    Some(lobby_name) => {
                        self.current_room_id = Some(room_id.clone());
                        self.current_player_id = 0;
                        self.app_state = AppState::OnlineGame {
                            game: state,
                            room_id,
                            lobby_name,
                            waiting_for_server: false,
                            hand_counts,
                            is_spectator: true,
                        };
                        ClientEffect::Nothing
                    },
                    None => match st {
                        AppState::OnlineGame { game, room_id: shown, lobby_name, is_spectator, .. } => {
                            let me = self.current_player_id;
                            let mut state = state;
                            let ghost s0 = state@;
                            match state.hands.remove(&me) {
                                Some(mut hand) => {
                                    assert(hand@ == s0.hands[me]);
                                    match game.hands.get(&me) {
                                        Some(old_hand) => {
                                            assert(old_hand@ == game@.hands[me]);
                                            keep_local_rotations(old_hand, &mut hand);
                                        },
                                        None => {},
                                    }
                                    state.hands.insert(me, hand);
                                    assert(state@.hands =~= s0.hands.insert(me, hand@));
                                },
                                None => {
                                    assert(state@.hands =~= s0.hands);
                                },
                            }
                            proof {
                                assert(state@.hands == updated_game(game@, s0, me).hands);
                                assert(state@ == updated_game(game@, s0, me));
                            }
                            self.app_state = AppState::OnlineGame {
                                game: state,
                                room_id: shown,
                                lobby_name,
                                waiting_for_server: false,
                                hand_counts,
                                is_spectator,
                            };
                            ClientEffect::AnimateTurn
                        },
                        other => {
                            self.app_state = other;
                            ClientEffect::Nothing
                        },
                    },
                }
            },
            ServerMessage::Error { message } => {
                self.app_state = match st {
                    AppState::OnlineGame { game, room_id, lobby_name, hand_counts, is_spectator, .. } => {
                        AppState::OnlineGame {
                            game,
                            room_id,
                            lobby_name,
                            waiting_for_server: false,
                            hand_counts,
                            is_spectator,
                        }
                    },
                    AppState::JoinLobbyForm { lobby_id, player_name, lobbies, .. } => {
                        AppState::JoinLobbyForm { lobby_id, player_name, pending: None, lobbies }
                    },
                    other => other,
                };
                ClientEffect::ShowError { message }
            },
            ServerMessage::LobbyList { lobbies } => {
                self.app_state = match st {
                    AppState::JoinLobbyForm { lobby_id, player_name, pending, .. } => {
                        AppState::JoinLobbyForm { lobby_id, player_name, pending, lobbies }
                    },
                    other => other,
                };
                ClientEffect::Nothing
            },
            ServerMessage::LobbyStateUpdate { lobby, .. } => {
                self.app_state = match st {
                    AppState::Lobby(_) => AppState::Lobby(lobby),
                    AppState::LobbyPlacingFor(_, p) => AppState::LobbyPlacingFor(lobby, p),
                    AppState::JoinLobbyForm { pending: Some(JoinScreenRequest::Join), .. } => {
                        AppState::Lobby(lobby)
                    },
                    other => other,
                };
                ClientEffect::Nothing
            },
            ServerMessage::PawnPlaced { player_id, position, .. } => {
                let event = LobbyEvent::PawnPlaced { player_id, position };
                self.app_state = match st {
                    AppState::Lobby(mut lobby) => {
                        let _ = lobby.handle_event(event);
                        AppState::Lobby(lobby)
                    },
                    AppState::LobbyPlacingFor(mut lobby, p) => {
                        let _ = lobby.handle_event(event);
                        AppState::LobbyPlacingFor(lobby, p)
                    },
                    other => other,
                };
                ClientEffect::Nothing
            },
            ServerMessage::GameStarted { room_id, game, hand_counts, turn_deadline_secs } => {
                self.turn_clock_secs = turn_deadline_secs;
                let lobby_name = match &st {
                    AppState::Lobby(lobby) => lobby.name.clone(),
                    AppState::LobbyPlacingFor(lobby, _) => lobby.name.clone(),
                    _ => owned_text("Game"),
                };
                self.app_state = AppState::OnlineGame {
                    game,
                    room_id,
                    lobby_name,
                    waiting_for_server: false,
                    hand_counts,
                    is_spectator: false,
                };
                ClientEffect::Nothing
            },
            ServerMessage::TurnCompleted { auto_played, .. } => {
                self.app_state = st;
                if auto_played {
                    ClientEffect::ShowError {
                        message: owned_text("The turn clock ran out \u{2014} the server played that turn."),
                    }
                } else {
                    ClientEffect::Nothing
                }
            },
            ServerMessage::PlayerLeft { .. } => {
                self.app_state = st;
                ClientEffect::Nothing
            },
        }
    }
}

/// The lobby of a player's own: an empty lobby named `name`, with the
/// player joined as `player_id` under the name `player_name`.
pub open spec fn fresh_lobby(
    name: String,
    visibility: Visibility,
    player_id: PlayerID,
    player_name: String,
) -> LobbyView {
    lobby_after(
        LobbyView {
            id: LobbyId(0),
            name,
            players: Map::empty(),
            started: false,
            max_players: 8,
            visibility,
        },
        LobbyEvent::PlayerJoined { player_id, player_name },
    ).0
}

/// `c` with the join form, if shown, now waiting on `request`.
pub open spec fn form_waiting(c: ClientState, request: JoinScreenRequest) -> AppState {
    match c.app_state {
        AppState::JoinLobbyForm { lobby_id, player_name, lobbies, .. } => AppState::JoinLobbyForm {
            lobby_id,
            player_name,
            pending: Some(request),
            lobbies,
        },
        other => other,
    }
}

impl ClientState {
    /// A client on the main menu, in no room, playing as player 1.
    pub fn new() -> (r: ClientState)
        ensures
            r.app_state == AppState::MainMenu,
            r.current_room_id is None,
            r.current_player_id == 1,
    {
        ClientState { app_state: AppState::MainMenu, current_room_id: None, current_player_id: 1, turn_clock_secs: None }
    }

    /// The room this client is in, if any.
    pub fn current_room_id(&self) -> (r: Option<&str>)
        ensures
            match self.current_room_id {
                Some(id) => r matches Some(s) && s@ == id@,
                None => r is None,
            },
    {
        match &self.current_room_id {
            Some(id) => Some(id.as_str()),
            None => None,
        }
    }

    /// The player this client plays.
    pub fn client_player_id(&self) -> (r: PlayerID)
        ensures
            r == self.current_player_id,
    {
        self.current_player_id
    }

    /// The game shown, played here or on the server, if any.
    pub fn visible_game(&self) -> (r: Option<&Game>)
        ensures
            match self.app_state {
                AppState::Game(g) => r == Some(&g),
                AppState::OnlineGame { game, .. } => r == Some(&game),
                _ => r is None,
            },
    {
        match &self.app_state {
            AppState::Game(game) => Some(game),
            AppState::OnlineGame { game, .. } => Some(game),
            _ => None,
        }
    }

    /// The lobby shown, if any.
    pub fn visible_lobby(&self) -> (r: Option<&Lobby>)
        ensures
            match self.app_state {
                AppState::Lobby(l) => r == Some(&l),
                AppState::LobbyPlacingFor(l, _) => r == Some(&l),
                _ => r is None,
            },
    {
        match &self.app_state {
            AppState::Lobby(lobby) => Some(lobby),
            AppState::LobbyPlacingFor(lobby, _) => Some(lobby),
            _ => None,
        }
    }

    /// Opens a lobby on this machine, "Main Room", with this client's player
    /// in it as "Player".
    pub fn handle_start_lobby(&mut self)
        ensures
            same_identity(*old(self), *final(self)),
            final(self).app_state matches AppState::Lobby(l) && l@.name@ == "Main Room"@
                && l@.players.contains_key(old(self).current_player_id)
                && l@.players[old(self).current_player_id].name@ == "Player"@
                && l@ == fresh_lobby(
                l@.name,
                Visibility::Private,
                old(self).current_player_id,
                l@.players[old(self).current_player_id].name,
            ),
    {
        let mut lobby = Lobby::new(LobbyId(0), owned_text("Main Room"));
        let ghost l0 = lobby@;
        let _ = lobby.handle_event(
            LobbyEvent::PlayerJoined { player_id: self.current_player_id, player_name: owned_text("Player") },
        );
        proof {
            crate::lobby::lobby_colors_first_is_free(l0.players);
        }
        self.app_state = AppState::Lobby(lobby);
    }

    /// Shows the form that creates a lobby, filled in with defaults.
    pub fn handle_show_create_lobby_form(&mut self)
        ensures
            same_identity(*old(self), *final(self)),
            final(self).app_state matches AppState::CreateLobbyForm {
                lobby_name,
                player_name,
                public,
                turn_timer_secs,
            } && lobby_name@ == "Test Lobby"@ && player_name@ == "Player 1"@ && public
                && turn_timer_secs is None,
    {
        self.app_state = AppState::CreateLobbyForm {
            lobby_name: owned_text("Test Lobby"),
            player_name: owned_text("Player 1"),
            public: true,
            turn_timer_secs: None,
        };
    }

    /// Shows the form that joins a lobby, empty; the directory of public
    /// lobbies is to be asked for at once.
    pub fn handle_show_join_lobby_form(&mut self) -> (r: ClientEffect)
        ensures
            same_identity(*old(self), *final(self)),
            final(self).app_state matches AppState::JoinLobbyForm {
                lobby_id,
                player_name,
                pending,
                lobbies,
            } && lobby_id@.len() == 0 && player_name@ == "Player 1"@ && pending is None
                && lobbies@.len() == 0,
            r == (ClientEffect::Send { request: ClientMessage::ListLobbies }),
    {
        self.app_state = AppState::JoinLobbyForm {
            lobby_id: String::new(),
            player_name: owned_text("Player 1"),
            pending: None,
            lobbies: Vec::new(),
        };
        ClientEffect::Send { request: ClientMessage::ListLobbies }
    }

    /// Asks to join lobby `lobby_id` as `player_name`, when connected: the
    /// join form waits for the answer.
    pub fn handle_join_lobby_with_id(&mut self, lobby_id: String, player_name: String, connected: bool) -> (r: ClientEffect)
        ensures
            same_identity(*old(self), *final(self)),
            !connected ==> *final(self) == *old(self) && r == ClientEffect::Nothing,
            connected ==> final(self).app_state == form_waiting(*old(self), JoinScreenRequest::Join)
                && r == (ClientEffect::Send { request: ClientMessage::JoinRoom { room_id: lobby_id, player_name } }),
    {
        if !connected {
            return ClientEffect::Nothing;
        }
        let mut st = AppState::MainMenu;
        std::mem::swap(&mut st, &mut self.app_state);
        self.app_state = match st {
            AppState::JoinLobbyForm { lobby_id, player_name, lobbies, .. } => AppState::JoinLobbyForm {
                lobby_id,
                player_name,
                pending: Some(JoinScreenRequest::Join),
                lobbies,
            },
            other => other,
        };
        ClientEffect::Send { request: ClientMessage::JoinRoom { room_id: lobby_id, player_name } }
    }

    /// Asks to watch the game of room `room_id` (named `room_name`), when
    /// connected: the join form waits for the game.
    pub fn handle_spectate_lobby(&mut self, room_id: String, room_name: String, connected: bool) -> (r: ClientEffect)
        ensures
            same_identity(*old(self), *final(self)),
            !connected ==> *final(self) == *old(self) && r == ClientEffect::Nothing,
            connected ==> (r matches ClientEffect::Send {
                request: ClientMessage::SpectateRoom { room_id: id },
            } && id@ == room_id@),
            connected ==> final(self).app_state == form_waiting(
                *old(self),
                JoinScreenRequest::Spectate { room_id, room_name },
            ),
    {
        if !connected {
            return ClientEffect::Nothing;
        }
        let message = ClientMessage::SpectateRoom { room_id: room_id.clone() };
        let mut st = AppState::MainMenu;
        std::mem::swap(&mut st, &mut self.app_state);
        self.app_state = match st {
            AppState::JoinLobbyForm { lobby_id, player_name, lobbies, .. } => AppState::JoinLobbyForm {
                lobby_id,
                player_name,
                pending: Some(JoinScreenRequest::Spectate { room_id, room_name }),
                lobbies,
            },
            other => other,
        };
        ClientEffect::Send { request: message }
    }

    /// Leaves the pawn placing of a lobby for the lobby itself; from anywhere
    /// else goes back to the main menu, out of the room. Returns whether the
    /// connection to the server is to be dropped (that is, unless the
    /// client only left the pawn placing).
    pub fn handle_back_to_main_menu(&mut self) -> (r: bool)
        ensures
            old(self).app_state matches AppState::LobbyPlacingFor(l, _) ==> !r,
            old(self).app_state matches AppState::LobbyPlacingFor(l, _) ==> (final(self).app_state matches AppState::Lobby(l2) && l2@ == l@),
            old(self).app_state is LobbyPlacingFor ==> same_identity(*old(self), *final(self)),
            !(old(self).app_state is LobbyPlacingFor) ==> r && final(self).app_state
                == AppState::MainMenu && final(self).current_room_id is None
                && final(self).current_player_id == old(self).current_player_id,
    {
        let mut st = AppState::MainMenu;
        std::mem::swap(&mut st, &mut self.app_state);
        match st {
            AppState::LobbyPlacingFor(lobby, _) => {
                self.app_state = AppState::Lobby(lobby);
                false
            },
            _ => {
                self.current_room_id = None;
                true
            },
        }
    }

    /// After the connection was lost: back to the main menu, out of the room.
    pub fn disconnect_and_return_to_menu(&mut self)
        ensures
            final(self).app_state == AppState::MainMenu,
            final(self).current_room_id is None,
            final(self).current_player_id == old(self).current_player_id,
    {
        self.current_room_id = None;
        self.app_state = AppState::MainMenu;
    }

    /// Joins this client's player, named `player_name`, to the lobby shown
    /// (not while placing another player's pawn).
    pub fn handle_join_lobby(&mut self, player_name: String)
        ensures
            same_identity(*old(self), *final(self)),
            match old(self).app_state {
                AppState::Lobby(l0) => final(self).app_state matches AppState::Lobby(l) && l@
                    == lobby_after(
                    l0@,
                    LobbyEvent::PlayerJoined { player_id: old(self).current_player_id, player_name },
                ).0,
                _ => final(self).app_state == old(self).app_state,
            },
    {
        let mut st = AppState::MainMenu;
        std::mem::swap(&mut st, &mut self.app_state);
        self.app_state = match st {
            AppState::Lobby(mut lobby) => {
                let _ = lobby.handle_event(
                    LobbyEvent::PlayerJoined { player_id: self.current_player_id, player_name },
                );
                AppState::Lobby(lobby)
            },
            other => other,
        };
    }

    /// While in a lobby, places the pawn of player `player_id` next.
    pub fn handle_debug_place_pawn(&mut self, player_id: PlayerID)
        ensures
            same_identity(*old(self), *final(self)),
            match old(self).app_state {
                AppState::Lobby(l0) => final(self).app_state == AppState::LobbyPlacingFor(l0, player_id),
                _ => final(self).app_state == old(self).app_state,
            },
    {
        let mut st = AppState::MainMenu;
        std::mem::swap(&mut st, &mut self.app_state);
        self.app_state = match st {
            AppState::Lobby(lobby) => AppState::LobbyPlacingFor(lobby, player_id),
            other => other,
        };
    }
}

} // verus!
