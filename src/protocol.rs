//! Rooms, requests and the messages exchanged with clients.
use vstd::prelude::*;
use vstd::string::*;

use crate::othello::{BoardStruct, Player};

verus! {

/// Identifiers of games and spectators: the 128-bit value of a UUID.
pub type Id = u128;

/// A running game as the server keeps it.
#[derive(Clone, Debug)]
pub struct Room {
    pub id: Id,
    pub black_name: String,
    pub white_name: String,
    /// Time allowed per move, in milliseconds.
    pub timelimit_ms: u64,
    /// Spectators, in the order in which they joined.
    pub watching: Vec<Id>,
}

/// A running game as it is listed to clients.
#[derive(Clone, Debug)]
pub struct ExternalRoom {
    pub black: String,
    pub white: String,
    /// Time allowed per move, in milliseconds.
    pub timelimit_ms: u64,
}

/// A message from the server to a client.
#[derive(Clone, Debug)]
pub enum ServerMessage {
    ListReply { room_list: Vec<(Id, ExternalRoom)> },
    BoardUpdate { board: BoardStruct, tomove: Player, black: String, white: String },
    MoveRequest {},
    GameEnd { board: BoardStruct, winner: Player, forfeit: bool },
    GameError { error: String },
    Disconnect {},
}

/// A request to start a game between two named agents.
#[derive(Clone, Debug)]
pub struct PlayRequest {
    pub black: String,
    pub white: String,
    /// Time allowed per move, in milliseconds.
    pub t_ms: u64,
}

/// A request to follow the game `watching`.
#[derive(Clone, Copy, Debug)]
pub struct WatchRequest {
    pub watching: Id,
}

/// A request for the list of running games.
#[derive(Clone, Copy, Debug)]
pub struct ListRequest {}

/// What a connection asks for when it opens.
#[derive(Clone, Debug)]
pub enum ClientRequest {
    Play(PlayRequest),
    Watch(WatchRequest),
    List(ListRequest),
}

/// A message from a client during a game.
#[derive(Clone, Copy, Debug)]
pub enum ClientMessage {
    MoveReply { square: usize },
    Disconnect {},
}

impl PlayRequest {
    /// The room of a game started by this request, with no spectators yet.
    pub fn to_room(self, id: &Id) -> (r: Room)
        ensures
            r.id == *id,
            r.black_name == self.black,
            r.white_name == self.white,
            r.timelimit_ms == self.t_ms,
            r.watching@ == Seq::<Id>::empty(),
    {
        Room {
            id: *id,
            black_name: self.black,
            white_name: self.white,
            timelimit_ms: self.t_ms,
            watching: Vec::new(),
        }
    }
}

impl Room {
    /// What clients are shown of this room.
    pub fn external(&self) -> (r: ExternalRoom)
        ensures
            r.black == self.black_name,
            r.white == self.white_name,
            r.timelimit_ms == self.timelimit_ms,
    {
        ExternalRoom {
            black: self.black_name.clone(),
            white: self.white_name.clone(),
            timelimit_ms: self.timelimit_ms,
        }
    }
}

impl From<Room> for ExternalRoom {
    fn from(r: Room) -> (e: ExternalRoom)
        ensures
            e == (ExternalRoom { black: r.black_name, white: r.white_name, timelimit_ms: r.timelimit_ms }),
    {
        ExternalRoom { black: r.black_name, white: r.white_name, timelimit_ms: r.timelimit_ms }
    }
}

impl vstd::std_specs::convert::FromSpecImpl<Room> for ExternalRoom {
    open spec fn obeys_from_spec() -> bool {
        true
    }

    open spec fn from_spec(r: Room) -> ExternalRoom {
        ExternalRoom { black: r.black_name, white: r.white_name, timelimit_ms: r.timelimit_ms }
    }
}

impl From<WatchRequest> for Id {
    fn from(wrq: WatchRequest) -> (r: Id)
        ensures
            r == wrq.watching,
    {
        wrq.watching
    }
}

impl vstd::std_specs::convert::FromSpecImpl<WatchRequest> for Id {
    open spec fn obeys_from_spec() -> bool {
        true
    }

    open spec fn from_spec(wrq: WatchRequest) -> Id {
        wrq.watching
    }
}

/// The kinds of request, told apart by the path of the opening request.
#[derive(Copy, Clone, Debug, PartialEq, Eq, Structural)]
pub enum RequestKind {
    Play,
    Watch,
    List,
}

pub open spec fn kind_of_path(path: Seq<char>) -> Option<RequestKind> {
    if path == "/play"@ {
        Some(RequestKind::Play)
    } else if path == "/watch"@ {
        Some(RequestKind::Watch)
    } else if path == "/list/games"@ {
        Some(RequestKind::List)
    } else {
        None
    }
}

/// Whether two texts are equal, character by character.
pub(crate) fn same_text(a: &str, b: &str) -> (r: bool)
    ensures
        r == (a@ == b@),
{
    let n = a.unicode_len();
    if n != b.unicode_len() {
        return false;
    }
    let mut i: usize = 0;
    while i < n
        invariant
            0 <= i <= n,
            n == a@.len(),
            n == b@.len(),
            forall|j: int| 0 <= j < i ==> a@[j] == b@[j],
        decreases n - i,
    {
        if a.get_char(i) != b.get_char(i) {
            return false;
        }
        i = i + 1;
    }
    assert(a@ =~= b@);
    true
}

/// Which request a path names: `/play`, `/watch` or `/list/games`; any
/// other path is refused.
pub fn request_kind(path: &str) -> (r: Option<RequestKind>)
    ensures
        r == kind_of_path(path@),
{
    if same_text(path, "/play") {
        Some(RequestKind::Play)
    } else if same_text(path, "/watch") {
        Some(RequestKind::Watch)
    } else if same_text(path, "/list/games") {
        Some(RequestKind::List)
    } else {
        None
    }
}

} // verus!
