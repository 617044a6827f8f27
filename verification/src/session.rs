//! A connection's requests: a connection acts only in its own room and as
//! its own player, and each request changes the room it names and the
//! connection, and tells the server what to do for the connection.
use vstd::prelude::*;

use crate::board::PlayerID;
use crate::game::Game;
use crate::game_model::{can_perform, redacted};
use crate::lobby::Lobby;
use crate::protocol::{clock_told, counts_hands, ClientMessage, RoomId, ServerMessage};
use crate::room::{
    created_room, disconnect_after, join_room_after, place_pawn_after, place_tile_after,
    start_game_after, tells_lobby, GameRoom, PhaseView, RoomPhase,
};
use crate::text::{append_text, decimal, decimal_text, owned_text};

verus! {

/// Refused: the request names a room the connection is not in.
pub open spec fn not_in_room_text(room: Seq<char>) -> Seq<char> {
    "This connection is not in room '"@ + room + "'"@
}

/// Refused: the request names a player the connection is not.
pub open spec fn cannot_act_text(player: PlayerID) -> Seq<char> {
    "This connection cannot act as player "@ + decimal(player as nat)
}

/// The connection is in the room named `claimed`.
pub open spec fn in_room(current: Option<RoomId>, claimed: Seq<char>) -> bool {
    current matches Some(room) && room@ == claimed
}

/// Accepts a request naming `claimed_room` (and `claimed_player`, when it
/// names one) only from the connection that created or joined that room
/// as that player.
pub fn verify_sender(
    claimed_room: &RoomId,
    claimed_player: Option<PlayerID>,
    current_room: &Option<RoomId>,
    current_player_id: &Option<PlayerID>,
) -> (r: Result<(), String>)
    ensures
        !in_room(*current_room, claimed_room@) ==> (r matches Err(m) && m@ == not_in_room_text(
            claimed_room@,
        )),
        in_room(*current_room, claimed_room@) ==> match claimed_player {
            None => r is Ok,
            Some(c) => if *current_player_id == Some(c) {
                r is Ok
            } else {
                r matches Err(m) && m@ == cannot_act_text(c)
            },
        },
{
    let in_room = match current_room {
        Some(room) => *room == *claimed_room,
        None => false,
    };
    if !in_room {
        let mut m = owned_text("This connection is not in room '");
        append_text(&mut m, claimed_room.as_str());
        append_text(&mut m, "'");
        return Err(m);
    }
    match claimed_player {
        Some(claimed) => {
            let own = match current_player_id {
                Some(own) => *own == claimed,
                None => false,
            };
            if !own {
                let mut m = owned_text("This connection cannot act as player ");
                let c = decimal_text(claimed);
                append_text(&mut m, c.as_str());
                return Err(m);
            }
            Ok(())
        },
        None => Ok(()),
    }
}

/// A connection's place on the server: the room whose updates it follows,
/// and the player it acts as there (none for a spectator).
pub struct Connection {
    pub room: Option<RoomId>,
    pub player: Option<PlayerID>,
}

/// What the server does for a connection after one of its requests.
pub enum ConnAction {
    /// Send this message to the connection.
    Reply(ServerMessage),
    /// From now on pass the updates of this room to the connection.
    Subscribe(RoomId),
    /// Pass it no room's updates any longer.
    Unsubscribe,
    /// Answer with the public lobby directory, which spans all rooms.
    SendLobbyList,
    /// The room may await a new turn: arm its turn clock.
    ArmTurnClock(RoomId),
}

/// Refused: no room has the code.
pub open spec fn not_found_text(room: Seq<char>) -> Seq<char> {
    "Room '"@ + room + "' not found"@
}

/// Refused: the room is still a lobby.
pub open spec fn no_game_text(room: Seq<char>) -> Seq<char> {
    "Room '"@ + room + "' has not started its game"@
}

/// The room a request acts on, by its code: none for creating a room and
/// for listing the lobbies.
pub open spec fn request_room(msg: ClientMessage) -> Option<RoomId> {
    match msg {
        ClientMessage::CreateRoom { .. } => None,
        ClientMessage::ListLobbies => None,
        ClientMessage::JoinRoom { room_id, .. } => Some(room_id),
        ClientMessage::SpectateRoom { room_id } => Some(room_id),
        ClientMessage::LeaveRoom { room_id, .. } => Some(room_id),
        ClientMessage::PlaceTile { room_id, .. } => Some(room_id),
        ClientMessage::GetGameState { room_id } => Some(room_id),
        ClientMessage::PlacePawn { room_id, .. } => Some(room_id),
        ClientMessage::StartGame { room_id } => Some(room_id),
    }
}

/// Why [`verify_sender`] refuses a request naming `room` (and `claimed`,
/// when it names a player) from connection `c`; `None` when it accepts it.
pub open spec fn sender_refusal(c: Connection, room: Seq<char>, claimed: Option<PlayerID>) -> Option<Seq<char>> {
    if !in_room(c.room, room) {
        Some(not_in_room_text(room))
    } else {
        match claimed {
            None => None,
            Some(p) => if c.player == Some(p) {
                None
            } else {
                Some(cannot_act_text(p))
            },
        }
    }
}

/// The request was refused with `text`, and nothing changed.
pub open spec fn refused(
    room: Option<GameRoom>,
    c0: Connection,
    room2: Option<GameRoom>,
    c1: Connection,
    r: Result<Vec<ConnAction>, String>,
    text: Seq<char>,
) -> bool {
    &&& room2 == room
    &&& c1 == c0
    &&& r matches Err(m) && m@ == text
}

/// The answer to a request whose room operation gave `t`: its error, or on
/// success the actions `ok`.
pub open spec fn answered<T>(t: Result<T, String>, r: Result<Vec<ConnAction>, String>, ok: Seq<ConnAction>) -> bool {
    match t {
        Ok(_) => r matches Ok(v) && v@ == ok,
        Err(e) => r == Err::<Vec<ConnAction>, String>(e),
    }
}

/// `m` tells a connection the game `g` of room `room` as `viewer` may see
/// it, with every hand size and the deck size, and a clock reading exactly
/// when the room's clock `clock` runs.
pub open spec fn tells_view(
    m: ServerMessage,
    room: RoomId,
    g: crate::game_model::GameView,
    viewer: Option<PlayerID>,
    clock: Option<std::time::Instant>,
) -> bool {
    &&& m matches ServerMessage::GameStateUpdate { room_id, state, hand_counts, deck_count, .. } && room_id
        == room && state@ == redacted(g, viewer) && counts_hands(hand_counts@, g) && deck_count
        == g.deck.len()
    &&& (clock_told(m) is Some <==> clock is Some)
}

/// Request `msg` from connection `c0`, with `room` the room it names (when
/// that room exists) and `code` the code a new room gets, left the room as
/// `room2` (none: gone, or not there), the connection as `c1`, and answered
/// `r`.
pub open spec fn request_after(
    room: Option<GameRoom>,
    c0: Connection,
    msg: ClientMessage,
    code: RoomId,
    room2: Option<GameRoom>,
    c1: Connection,
    r: Result<Vec<ConnAction>, String>,
) -> bool {
    match msg {
        ClientMessage::CreateRoom { room_name, creator_name, visibility, turn_timer_secs } => {
            &&& room2 matches Some(b) && (created_room(&b, code, room_name, visibility, turn_timer_secs, creator_name)
                && (b.phase@ matches PhaseView::Lobby(l) && (r matches Ok(v) && (v@.len() == 3
                && (v@[1] matches ConnAction::Reply(m) && tells_lobby(m, code, l))))))
            &&& c1 == (Connection { room: Some(code), player: Some(1) })
            &&& r matches Ok(v) && (v@[0] == ConnAction::Subscribe(code) && v@[2] == ConnAction::Reply(
                ServerMessage::RoomCreated { room_id: code, player_id: 1 },
            ))
        },
        ClientMessage::ListLobbies => {
            &&& room2 == room
            &&& c1 == c0
            &&& r matches Ok(v) && v@ == seq![ConnAction::SendLobbyList]
        },
        ClientMessage::JoinRoom { room_id, player_name } => match room {
            None => refused(room, c0, room2, c1, r, not_found_text(room_id@)),
            Some(a) => room2 matches Some(b) && (exists|t: Result<PlayerID, String>| {
                &&& #[trigger] join_room_after(&a, &b, player_name, t)
                &&& match t {
                    Err(e) => c1 == c0 && r == Err::<Vec<ConnAction>, String>(e),
                    Ok(pid) => {
                        &&& c1 == (Connection { room: Some(room_id), player: Some(pid) })
                        &&& r matches Ok(v) && (v@.len() == 3 && v@[0] == ConnAction::Subscribe(room_id)
                            && v@[2] == ConnAction::Reply(
                            ServerMessage::PlayerJoined { room_id, player_id: pid, player_name },
                        ) && (v@[1] matches ConnAction::Reply(m) && (b.phase@ matches PhaseView::Lobby(l)
                            && tells_lobby(m, room_id, l))))
                    },
                }
            }),
        },
        ClientMessage::SpectateRoom { room_id } => match room {
            None => refused(room, c0, room2, c1, r, not_found_text(room_id@)),
            Some(a) => match a.phase@ {
                PhaseView::Lobby(_) => refused(room, c0, room2, c1, r, no_game_text(room_id@)),
                PhaseView::Playing(g) => {
                    &&& room2 == room
                    &&& c1 == (Connection { room: Some(room_id), player: None })
                    &&& r matches Ok(v) && (v@.len() == 2 && v@[0] == ConnAction::Subscribe(room_id)
                        && (v@[1] matches ConnAction::Reply(m) && tells_view(m, room_id, g, None, a.turn_deadline)))
                },
            },
        },
        ClientMessage::GetGameState { room_id } => match room {
            None => refused(room, c0, room2, c1, r, not_found_text(room_id@)),
            Some(a) => match a.phase@ {
                PhaseView::Lobby(_) => refused(room, c0, room2, c1, r, no_game_text(room_id@)),
                PhaseView::Playing(g) => {
                    &&& room2 == room
                    &&& c1 == c0
                    &&& r matches Ok(v) && (v@.len() == 1 && (v@[0] matches ConnAction::Reply(m)
                        && tells_view(m, room_id, g, c0.player, a.turn_deadline)))
                },
            },
        },
        ClientMessage::LeaveRoom { room_id, player_id } => match sender_refusal(c0, room_id@, Some(player_id)) {
            Some(text) => refused(room, c0, room2, c1, r, text),
            None => {
                &&& c1 == (Connection { room: None, player: None })
                &&& match room {
                    None => room2 is None && (r matches Ok(v) && v@ == seq![ConnAction::Unsubscribe]),
                    Some(a) => exists|b: GameRoom, gone: bool| {
                        &&& #[trigger] disconnect_after(&a, &b, player_id, gone)
                        &&& room2 == (if gone { None } else { Some(b) })
                        &&& r matches Ok(v) && v@ == (if gone {
                            seq![ConnAction::Unsubscribe]
                        } else {
                            seq![ConnAction::Unsubscribe, ConnAction::ArmTurnClock(room_id)]
                        })
                    },
                }
            },
        },
        ClientMessage::PlaceTile { room_id, player_id, mov } => match sender_refusal(c0, room_id@, Some(player_id)) {
            Some(text) => refused(room, c0, room2, c1, r, text),
            None => match room {
                None => refused(room, c0, room2, c1, r, not_found_text(room_id@)),
                Some(a) => c1 == c0 && (room2 matches Some(b) && exists|t: Result<crate::game::TurnResult, String>| {
                    &&& #[trigger] place_tile_after(&a, &b, player_id, mov, t)
                    &&& answered(t, r, seq![ConnAction::ArmTurnClock(room_id)])
                }),
            },
        },
        ClientMessage::PlacePawn { room_id, player_id, position } => match sender_refusal(c0, room_id@, Some(player_id)) {
            Some(text) => refused(room, c0, room2, c1, r, text),
            None => match room {
                None => refused(room, c0, room2, c1, r, not_found_text(room_id@)),
                Some(a) => c1 == c0 && (room2 matches Some(b) && exists|t: Result<(), String>| {
                    &&& #[trigger] place_pawn_after(&a, &b, player_id, position, t)
                    &&& answered(t, r, Seq::empty())
                }),
            },
        },
        ClientMessage::StartGame { room_id } => match sender_refusal(c0, room_id@, None) {
            Some(text) => refused(room, c0, room2, c1, r, text),
            None => match room {
                None => refused(room, c0, room2, c1, r, not_found_text(room_id@)),
                Some(a) => c1 == c0 && (room2 matches Some(b) && exists|t: Result<(), String>| {
                    &&& #[trigger] start_game_after(&a, &b, t)
                    &&& answered(t, r, seq![ConnAction::ArmTurnClock(room_id)])
                }),
            },
        },
    }
}

/// What the room operations of a request need: a move is one the game can
/// play when it is the mover's (see [`can_perform`]), and the seats of a
/// game left by a player can be counted round the table.
pub open spec fn request_ok(room: Option<GameRoom>, msg: ClientMessage) -> bool {
    match (room, msg) {
        (Some(a), ClientMessage::PlaceTile { player_id, mov, .. }) => a.phase matches RoomPhase::Playing(g)
            ==> (g.current_player_id == player_id && mov.player_id == player_id ==> g.wf() && can_perform(g@, mov)),
        (Some(a), ClientMessage::LeaveRoom { .. }) => a.phase matches RoomPhase::Playing(g)
            ==> g.players@.len() <= usize::MAX / 2,
        _ => true,
    }
}

/// The code of the room that `msg` acts on (see [`request_room`]).
pub fn request_room_code(msg: &ClientMessage) -> (r: Option<RoomId>)
    ensures
        r == request_room(*msg),
{
    match msg {
        ClientMessage::CreateRoom { .. } => None,
        ClientMessage::ListLobbies => None,
        ClientMessage::JoinRoom { room_id, .. } => Some(room_id.clone()),
        ClientMessage::SpectateRoom { room_id } => Some(room_id.clone()),
        ClientMessage::LeaveRoom { room_id, .. } => Some(room_id.clone()),
        ClientMessage::PlaceTile { room_id, .. } => Some(room_id.clone()),
        ClientMessage::GetGameState { room_id } => Some(room_id.clone()),
        ClientMessage::PlacePawn { room_id, .. } => Some(room_id.clone()),
        ClientMessage::StartGame { room_id } => Some(room_id.clone()),
    }
}

/// The room's lobby, as a message to a connection entering it.
fn lobby_reply(room: &GameRoom, room_id: &RoomId) -> (r: Option<ConnAction>)
    ensures
        match room.phase@ {
            PhaseView::Lobby(l) => r matches Some(ConnAction::Reply(m)) && tells_lobby(m, *room_id, l),
            PhaseView::Playing(_) => r is None,
        },
{
    match room.lobby() {
        Some(l) => {
            let lobby: Lobby = l.clone();
            Some(ConnAction::Reply(ServerMessage::LobbyStateUpdate { room_id: room_id.clone(), lobby }))
        },
        None => None,
    }
}

/// The game of the room as `viewer` may see it, as a message, with the
/// room's clock reading `secs`.
fn game_reply(game: &Game, room_id: &RoomId, viewer: Option<PlayerID>, secs: Option<u64>) -> (r: ConnAction)
    ensures
        r matches ConnAction::Reply(m) && (m matches ServerMessage::GameStateUpdate { room_id: rid, state, hand_counts, deck_count, turn_deadline_secs }
            && rid == *room_id && state@ == redacted(game@, viewer) && counts_hands(hand_counts@, game@)
            && deck_count == game@.deck.len() && turn_deadline_secs == secs),
{
    let hand_counts = game.hand_counts();
    let deck_count = game.deck_count();
    ConnAction::Reply(
        ServerMessage::GameStateUpdate {
            room_id: room_id.clone(),
            state: game.view_for(viewer),
            hand_counts,
            deck_count,
            turn_deadline_secs: secs,
        },
    )
}

/// Handles request `msg` of connection `conn`. `room` is the room the
/// request names, taken out of the server's registry (none when no room
/// has that code, and for requests that name none, see [`request_room`]);
/// the room is handed back, unless it is gone, to be put back under its
/// code. `fresh_code` is a code no room has, for a room the request
/// creates. What the server must do for the connection (send, subscribe,
/// arm a turn clock) comes back as actions, in order; a refused request
/// comes back as the error to send.
pub fn handle_request(
    room: Option<GameRoom>,
    conn: &mut Connection,
    msg: ClientMessage,
    fresh_code: RoomId,
) -> (r: (Option<GameRoom>, Result<Vec<ConnAction>, String>))
    requires
        request_ok(room, msg),
    ensures
        request_after(room, *old(conn), msg, fresh_code, r.0, *final(conn), r.1),
{
    match msg {
        ClientMessage::CreateRoom { room_name, creator_name, visibility, turn_timer_secs } => {
            let (created, player_id) = match GameRoom::with_creator(
                fresh_code.clone(),
                room_name,
                visibility,
                turn_timer_secs,
                creator_name,
            ) {
                Ok(x) => x,
                Err(e) => {
                    return (room, Err(e));
                },
            };
            let snapshot = match lobby_reply(&created, &fresh_code) {
                Some(a) => a,
                None => {
                    return (Some(created), Ok(Vec::new()));
                },
            };
            conn.room = Some(fresh_code.clone());
            conn.player = Some(player_id);
            let mut actions: Vec<ConnAction> = Vec::new();
            actions.push(ConnAction::Subscribe(fresh_code.clone()));
            actions.push(snapshot);
            actions.push(ConnAction::Reply(ServerMessage::RoomCreated { room_id: fresh_code, player_id }));
            (Some(created), Ok(actions))
        },
        ClientMessage::ListLobbies => {
            let mut actions: Vec<ConnAction> = Vec::new();
            actions.push(ConnAction::SendLobbyList);
            (room, Ok(actions))
        },
        ClientMessage::JoinRoom { room_id, player_name } => {
            let mut a = match room {
                None => {
                    return (None, Err(room_not_found(&room_id)));
                },
                Some(a) => a,
            };
            let ghost a0 = a;
            let pid = match a.join_room(player_name.clone()) {
                Ok(pid) => pid,
                Err(e) => {
                    proof {
                        assert(join_room_after(&a0, &a, player_name, Err::<PlayerID, String>(e)));
                    }
                    return (Some(a), Err(e));
                },
            };
            let snapshot = match lobby_reply(&a, &room_id) {
                Some(s) => s,
                None => {
                    return (Some(a), Ok(Vec::new()));
                },
            };
            conn.room = Some(room_id.clone());
            conn.player = Some(pid);
            let mut actions: Vec<ConnAction> = Vec::new();
            actions.push(ConnAction::Subscribe(room_id.clone()));
            actions.push(snapshot);
            actions.push(ConnAction::Reply(ServerMessage::PlayerJoined { room_id, player_id: pid, player_name }));
            proof {
                assert(join_room_after(&a0, &a, player_name, Ok::<PlayerID, String>(pid)));
            }
            (Some(a), Ok(actions))
        },
        ClientMessage::SpectateRoom { room_id } => {
            let a = match room {
                None => {
                    return (None, Err(room_not_found(&room_id)));
                },
                Some(a) => a,
            };
            let reply = match a.game() {
                None => {
                    return (Some(a), Err(room_without_game(&room_id)));
                },
                Some(game) => game_reply(game, &room_id, None, a.clock_secs()),
            };
            conn.room = Some(room_id.clone());
            conn.player = None;
            let mut actions: Vec<ConnAction> = Vec::new();
            actions.push(ConnAction::Subscribe(room_id));
            actions.push(reply);
            (Some(a), Ok(actions))
        },
        ClientMessage::GetGameState { room_id } => {
            let a = match room {
                None => {
                    return (None, Err(room_not_found(&room_id)));
                },
                Some(a) => a,
            };
            let reply = match a.game() {
                None => {
                    return (Some(a), Err(room_without_game(&room_id)));
                },
                Some(game) => game_reply(game, &room_id, conn.player, a.clock_secs()),
            };
            let mut actions: Vec<ConnAction> = Vec::new();
            actions.push(reply);
            (Some(a), Ok(actions))
        },
        ClientMessage::LeaveRoom { room_id, player_id } => {
            match verify_sender(&room_id, Some(player_id), &conn.room, &conn.player) {
                Err(e) => {
                    return (room, Err(e));
                },
                Ok(()) => {},
            }
            conn.room = None;
            conn.player = None;
            let mut actions: Vec<ConnAction> = Vec::new();
            actions.push(ConnAction::Unsubscribe);
            match room {
                None => (None, Ok(actions)),
                Some(mut a) => {
                    let ghost a0 = a;
                    let gone = a.handle_disconnect(player_id);
                    proof {
                        assert(disconnect_after(&a0, &a, player_id, gone));
                    }
                    if gone {
                        assert(actions@ =~= seq![ConnAction::Unsubscribe]);
                        (None, Ok(actions))
                    } else {
                        actions.push(ConnAction::ArmTurnClock(room_id));
                        assert(actions@ =~= seq![ConnAction::Unsubscribe, ConnAction::ArmTurnClock(room_id)]);
                        (Some(a), Ok(actions))
                    }
                },
            }
        },
        ClientMessage::PlaceTile { room_id, player_id, mov } => {
            match verify_sender(&room_id, Some(player_id), &conn.room, &conn.player) {
                Err(e) => {
                    return (room, Err(e));
                },
                Ok(()) => {},
            }
            let mut a = match room {
                None => {
                    return (None, Err(room_not_found(&room_id)));
                },
                Some(a) => a,
            };
            let ghost a0 = a;
            let t = a.place_tile(player_id, mov);
            proof {
                assert(place_tile_after(&a0, &a, player_id, mov, t));
            }
            match t {
                Ok(_) => {
                    let mut actions: Vec<ConnAction> = Vec::new();
                    actions.push(ConnAction::ArmTurnClock(room_id));
                    (Some(a), Ok(actions))
                },
                Err(e) => (Some(a), Err(e)),
            }
        },
        ClientMessage::PlacePawn { room_id, player_id, position } => {
            match verify_sender(&room_id, Some(player_id), &conn.room, &conn.player) {
                Err(e) => {
                    return (room, Err(e));
                },
                Ok(()) => {},
            }
            let mut a = match room {
                None => {
                    return (None, Err(room_not_found(&room_id)));
                },
                Some(a) => a,
            };
            let ghost a0 = a;
            let t = a.place_pawn(player_id, position);
            proof {
                assert(place_pawn_after(&a0, &a, player_id, position, t));
            }
            match t {
                Ok(()) => (Some(a), Ok(Vec::new())),
                Err(e) => (Some(a), Err(e)),
            }
        },
        ClientMessage::StartGame { room_id } => {
            match verify_sender(&room_id, None, &conn.room, &conn.player) {
                Err(e) => {
                    return (room, Err(e));
                },
                Ok(()) => {},
            }
            let mut a = match room {
                None => {
                    return (None, Err(room_not_found(&room_id)));
                },
                Some(a) => a,
            };
            let ghost a0 = a;
            let t = a.start_game();
            proof {
                assert(start_game_after(&a0, &a, t));
            }
            match t {
                Ok(()) => {
                    let mut actions: Vec<ConnAction> = Vec::new();
                    actions.push(ConnAction::ArmTurnClock(room_id));
                    (Some(a), Ok(actions))
                },
                Err(e) => (Some(a), Err(e)),
            }
        },
    }
}

/// "Room '<code>' not found".
fn room_not_found(room_id: &RoomId) -> (r: String)
    ensures
        r@ == not_found_text(room_id@),
{
    let mut m = owned_text("Room '");
    append_text(&mut m, room_id.as_str());
    append_text(&mut m, "' not found");
    m
}

/// "Room '<code>' has not started its game".
fn room_without_game(room_id: &RoomId) -> (r: String)
    ensures
        r@ == no_game_text(room_id@),
{
    let mut m = owned_text("Room '");
    append_text(&mut m, room_id.as_str());
    append_text(&mut m, "' has not started its game");
    m
}

} // verus!
