use vstd::prelude::*;

use crate::board::{cell_index, cell_view, empty_cells, winner, render_text, Board, Cells};
use crate::error::GameError;

verus! {

/// Relies on uuid's `Uuid::new_v4` and its `Display`: a random identifier in
/// hyphenated form, 36 characters long.
#[verifier::external_body]
fn new_room_id() -> (r: String)
    ensures
        r@.len() == 36,
{
    uuid::Uuid::new_v4().to_string()
}

/// The reply to an accepted move: the winner announcement when the board has
/// a winner, else the notice that the game goes on.
pub open spec fn movement_message(w: Option<Seq<char>>) -> Seq<char> {
    match w {
        Some(s) => "We have a winner! "@ + s + " is the winner"@,
        None => "Movement being done!! The game continues..."@,
    }
}

/// Whether `x` and `y` name a cell of the 3x3 grid.
pub open spec fn on_grid(x: int, y: int) -> bool {
    0 <= x < 3 && 0 <= y < 3
}

/// Every room registered in `before` is still registered in `after`.
pub open spec fn keeps_rooms(before: Map<Seq<char>, Cells>, after: Map<Seq<char>, Cells>) -> bool {
    before.dom().subset_of(after.dom())
}

/// Identifiers handed out by two calls of `create_room` differ. The first
/// call registers its identifier; the operations between the calls keep
/// every room; the second call picks an identifier that is not registered.
pub proof fn lemma_created_ids_differ(
    before_first: Map<Seq<char>, Cells>,
    after_first: Map<Seq<char>, Cells>,
    before_second: Map<Seq<char>, Cells>,
    first: Seq<char>,
    second: Seq<char>,
)
    requires
        after_first == before_first.insert(first, empty_cells()),
        keeps_rooms(after_first, before_second),
        !before_second.contains_key(second),
    ensures
        first != second,
{
    assert(after_first.contains_key(first));
}

/// The answer to a winner query.
pub struct WinnerStatus {
    /// The winning shape, or the empty string when there is none.
    pub shape_winner: String,
    /// Whether the board has a winner.
    pub has_winner: bool,
}

/// One game session: its identifier, its board and its player count.
struct Room {
    id: String,
    board: Board,
    players: u32,
}

/// The registry of rooms, from room identifier to board. Rooms are never
/// removed, so an identifier once handed out stays taken.
pub struct RoomStore {
    rooms: Vec<Room>,
    boards: Ghost<Map<Seq<char>, Cells>>,
}

impl View for RoomStore {
    type V = Map<Seq<char>, Cells>;

    closed spec fn view(&self) -> Map<Seq<char>, Cells> {
        self.boards@
    }
}

/// The reply text for a move after which the board has winner `w`.
fn movement_text(w: Option<String>) -> (m: String)
    ensures
        m@ == movement_message(cell_view(w)),
{
    match w {
        Some(s) => {
            let mut m = String::from_str("We have a winner! ");
            m.append(s.as_str());
            m.append(" is the winner");
            m
        },
        None => String::from_str("Movement being done!! The game continues..."),
    }
}

impl RoomStore {
    /// Identifiers are unique, every board is well formed, and the rooms are
    /// exactly the entries of the abstract map.
    pub closed spec fn wf(&self) -> bool {
        &&& forall|i: int, j: int|
            0 <= i < j < self.rooms@.len() ==> self.rooms@[i].id@ != self.rooms@[j].id@
        &&& forall|i: int|
            0 <= i < self.rooms@.len() ==> {
                &&& (#[trigger] self.rooms@[i]).board.wf()
                &&& self.rooms@[i].players >= 1
                &&& self.boards@.contains_key(self.rooms@[i].id@)
                &&& self.boards@[self.rooms@[i].id@] == self.rooms@[i].board@
            }
        &&& forall|k: Seq<char>|
            #[trigger] self.boards@.contains_key(k) ==> exists|i: int|
                0 <= i < self.rooms@.len() && self.rooms@[i].id@ == k
    }

    /// Every board in a well-formed store holds nine cells.
    pub proof fn lemma_boards_wf(&self)
        requires
            self.wf(),
        ensures
            forall|k: Seq<char>| #[trigger] self@.contains_key(k) ==> self@[k].len() == 9,
    {
        assert forall|k: Seq<char>| #[trigger] self@.contains_key(k) implies self@[k].len()
            == 9 by {
            let i = choose|i: int| 0 <= i < self.rooms@.len() && self.rooms@[i].id@ == k;
            assert(self.rooms@[i].board.wf());
        }
    }

    /// An empty registry.
    pub fn new() -> (s: RoomStore)
        ensures
            s.wf(),
            s@ == Map::<Seq<char>, Cells>::empty(),
    {
        RoomStore { rooms: Vec::new(), boards: Ghost(Map::empty()) }
    }

    /// The position of the room named `id`, if there is one.
    fn find(&self, id: &String) -> (r: Option<usize>)
        requires
            self.wf(),
        ensures
            match r {
                Some(i) => i < self.rooms@.len() && self.rooms@[i as int].id@ == id@,
                None => !self@.contains_key(id@),
            },
    {
        let mut i: usize = 0;
        while i < self.rooms.len()
            invariant
                self.wf(),
                i <= self.rooms@.len(),
                forall|j: int| 0 <= j < i ==> self.rooms@[j].id@ != id@,
            decreases self.rooms@.len() - i,
        {
            if self.rooms[i].id == *id {
                return Some(i);
            }
            i = i + 1;
        }
        None
    }

    /// Whether a room is registered under `room_id`.
    pub fn contains(&self, room_id: &str) -> (r: bool)
        requires
            self.wf(),
        ensures
            r == self@.contains_key(room_id@),
    {
        let id = String::from_str(room_id);
        self.find(&id).is_some()
    }

    /// Registers an empty board with one player under `id`, unless a room of
    /// that identifier exists already; tells whether it did.
    pub fn add_room(&mut self, id: String) -> (r: bool)
        requires
            old(self).wf(),
        ensures
            final(self).wf(),
            r == !old(self)@.contains_key(id@),
            r ==> final(self)@ == old(self)@.insert(id@, empty_cells()),
            !r ==> final(self)@ == old(self)@,
            keeps_rooms(old(self)@, final(self)@),
    {
        if self.find(&id).is_some() {
            return false;
        }
        let ghost k = id@;
        let board = Board::new();
        self.rooms.push(Room { id, board, players: 1 });
        self.boards = Ghost(self.boards@.insert(k, empty_cells()));
        assert forall|q: Seq<char>| #[trigger] self.boards@.contains_key(q) implies exists|i: int|
            0 <= i < self.rooms@.len() && self.rooms@[i].id@ == q by {
            if q == k {
                assert(self.rooms@[self.rooms@.len() - 1].id@ == q);
            } else {
                assert(old(self).boards@.contains_key(q));
                let i = choose|i: int| 0 <= i < old(self).rooms@.len() && old(self).rooms@[i].id@ == q;
                assert(self.rooms@[i] == old(self).rooms@[i]);
            }
        }
        true
    }

    /// A length that no identifier in the registry exceeds.
    fn longest_id(&self) -> (m: usize)
        requires
            self.wf(),
        ensures
            forall|k: Seq<char>| #[trigger] self@.contains_key(k) ==> k.len() <= m,
    {
        let mut m: usize = 0;
        let mut i: usize = 0;
        while i < self.rooms.len()
            invariant
                self.wf(),
                i <= self.rooms@.len(),
                forall|j: int| 0 <= j < i ==> (#[trigger] self.rooms@[j]).id@.len() <= m,
            decreases self.rooms@.len() - i,
        {
            let n = self.rooms[i].id.as_str().unicode_len();
            if n > m {
                m = n;
            }
            i = i + 1;
        }
        assert forall|k: Seq<char>| #[trigger] self@.contains_key(k) implies k.len() <= m by {
            let j = choose|j: int| 0 <= j < self.rooms@.len() && self.rooms@[j].id@ == k;
            assert(self.rooms@[j].id@.len() <= m);
        }
        m
    }

    /// Opens a room with an empty board and returns its identifier, which no
    /// earlier room of this registry has. The identifier is a random UUID; in
    /// the unlikely case that it is taken, it is lengthened with `-` until it
    /// is longer than every identifier in use.
    pub fn create_room(&mut self) -> (id: String)
        requires
            old(self).wf(),
        ensures
            final(self).wf(),
            !old(self)@.contains_key(id@),
            final(self)@ == old(self)@.insert(id@, empty_cells()),
            keeps_rooms(old(self)@, final(self)@),
    {
        let mut id = new_room_id();
        if self.find(&id).is_some() {
            let m = self.longest_id();
            proof {
                reveal_strlit("-");
            }
            while id.as_str().unicode_len() <= m
                invariant
                    "-"@.len() == 1,
                decreases m + 1 - id@.len(),
            {
                id.append("-");
            }
        }
        self.add_room(id.clone());
        id
    }

    /// Applies the move of `shape` to cell (`x`, `y`) of the room `room_id`
    /// and reports the outcome. The room must exist, the shape must not be
    /// empty and the cell must lie on the grid, checked in that order; a
    /// rejected move changes nothing. An accepted move writes the shape into
    /// the cell, whatever it held, and changes nothing else in the registry.
    pub fn do_movement(&mut self, room_id: &str, shape: String, x: i32, y: i32) -> (r: Result<
        String,
        GameError,
    >)
        requires
            old(self).wf(),
        ensures
            final(self).wf(),
            !old(self)@.contains_key(room_id@) ==> r == Err::<String, GameError>(
                GameError::RoomNotFound,
            ),
            old(self)@.contains_key(room_id@) && shape@.len() == 0 ==> r == Err::<
                String,
                GameError,
            >(GameError::InvalidShape),
            old(self)@.contains_key(room_id@) && shape@.len() > 0 && !on_grid(x as int, y as int)
                ==> r == Err::<String, GameError>(GameError::InvalidCoordinate),
            r is Err ==> final(self)@ == old(self)@,
            keeps_rooms(old(self)@, final(self)@),
            old(self)@.contains_key(room_id@) && shape@.len() > 0 && on_grid(x as int, y as int)
                ==> {
                let b = old(self)@[room_id@].update(cell_index(x as int, y as int), Some(shape@));
                &&& final(self)@ == old(self)@.insert(room_id@, b)
                &&& r matches Ok(m) && m@ == movement_message(winner(b))
            },
    {
        let id = String::from_str(room_id);
        let i = match self.find(&id) {
            Some(i) => i,
            None => return Err(GameError::RoomNotFound),
        };
        if shape.as_str().unicode_len() == 0 {
            return Err(GameError::InvalidShape);
        }
        if x < 0 || x > 2 || y < 0 || y > 2 {
            return Err(GameError::InvalidCoordinate);
        }
        let ghost old_rooms = self.rooms@;
        let ghost s = shape@;
        let mut room = self.rooms.remove(i);
        let _placed = room.board.insert(x as usize, y as usize, shape);
        let w = room.board.find_winner();
        let ghost b = room.board@;
        self.rooms.insert(i, room);
        assert(self.rooms@ =~= old_rooms.update(i as int, self.rooms@[i as int]));
        self.boards = Ghost(self.boards@.insert(id@, b));
        assert forall|q: Seq<char>| #[trigger] self.boards@.contains_key(q) implies exists|j: int|
            0 <= j < self.rooms@.len() && self.rooms@[j].id@ == q by {
            assert(old(self).boards@.contains_key(q));
            let j = choose|j: int| 0 <= j < old_rooms.len() && old_rooms[j].id@ == q;
            assert(self.rooms@[j].id@ == q);
        }
        Ok(movement_text(w))
    }

    /// Whether the board of `room_id` has a winner, and which shape it is.
    pub fn has_winner(&self, room_id: &str) -> (r: Result<WinnerStatus, GameError>)
        requires
            self.wf(),
        ensures
            !self@.contains_key(room_id@) ==> r == Err::<WinnerStatus, GameError>(
                GameError::RoomNotFound,
            ),
            self@.contains_key(room_id@) ==> (r matches Ok(st) && st.has_winner == (winner(
                self@[room_id@],
            ) is Some) && st.shape_winner@ == match winner(self@[room_id@]) {
                Some(s) => s,
                None => Seq::<char>::empty(),
            }),
    {
        let id = String::from_str(room_id);
        let i = match self.find(&id) {
            Some(i) => i,
            None => return Err(GameError::RoomNotFound),
        };
        match self.rooms[i].board.find_winner() {
            Some(s) => Ok(WinnerStatus { shape_winner: s, has_winner: true }),
            None => Ok(WinnerStatus { shape_winner: String::new(), has_winner: false }),
        }
    }

    /// The rendering of the board of `room_id`, cells separated by `spacing`
    /// spaces. The text is a copy: publishing it needs no access to the store.
    pub fn render_room(&self, room_id: &str, spacing: u8) -> (r: Result<String, GameError>)
        requires
            self.wf(),
        ensures
            !self@.contains_key(room_id@) ==> r == Err::<String, GameError>(
                GameError::RoomNotFound,
            ),
            self@.contains_key(room_id@) ==> (r matches Ok(t) && t@ == render_text(
                self@[room_id@],
                spacing as nat,
            )),
    {
        let id = String::from_str(room_id);
        match self.find(&id) {
            Some(i) => Ok(self.rooms[i].board.render(spacing)),
            None => Err(GameError::RoomNotFound),
        }
    }
}

} // verus!
