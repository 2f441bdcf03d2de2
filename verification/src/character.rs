//! The characters of a game and the registry that owns them.
//!
//! Every character starts as one numbered part. Parts are only ever handed
//! from one character to another, so at any time the identities of the
//! living characters split the part numbers among them.

use vstd::prelude::*;
use crate::camera::CamInputState;
use crate::maze::{MAX_SPAWNS, MazeGrid, MazeView};
use crate::units::{PIXEL_WORLD_SIZE, PLAYER_Y, UNITS_PER_WORLD, WorldPos, div_floor};

verus! {

/// The colour in which a character paints its markers.
#[derive(Clone, Copy, Debug, PartialEq, Eq, Structural)]
pub enum CharacterColor {
    Green,
    Blue,
    Red,
}

impl CharacterColor {
    /// The marker colour of the character that starts as part `number`.
    pub open spec fn of_number(number: u8) -> CharacterColor {
        if number == 1 {
            CharacterColor::Green
        } else if number == 2 {
            CharacterColor::Blue
        } else {
            CharacterColor::Red
        }
    }

    /// The marker colour of the character that starts as part `number`:
    /// green for the first, blue for the second, red for any other.
    pub fn from_number(number: u8) -> (color: CharacterColor)
        ensures
            color == CharacterColor::of_number(number),
    {
        match number {
            1 => CharacterColor::Green,
            2 => CharacterColor::Blue,
            _ => CharacterColor::Red,
        }
    }
}

/// The colour of the material that the body of the character starting as
/// part `character` is drawn with: green for the first, red for the second,
/// blue for any other.
pub fn get_character_texture(character: u8) -> (color: CharacterColor)
    ensures
        color == if character == 1 {
            CharacterColor::Green
        } else if character == 2 {
            CharacterColor::Red
        } else {
            CharacterColor::Blue
        },
{
    match character {
        1 => CharacterColor::Green,
        2 => CharacterColor::Red,
        _ => CharacterColor::Blue,
    }
}

/// The identity of a character: the part numbers it stands for, in the
/// order in which it took them on, and its marker colour.
#[derive(Debug, PartialEq, Eq)]
pub struct Character {
    numbers: Vec<u8>,
    pub color: CharacterColor,
}

/// The mathematical content of a [`Character`].
pub struct IdentityView {
    pub numbers: Seq<u8>,
    pub color: CharacterColor,
}

impl View for Character {
    type V = IdentityView;

    closed spec fn view(&self) -> IdentityView {
        IdentityView { numbers: self.numbers@, color: self.color }
    }
}

impl Character {
    /// The character that starts as part `number`, in the colour of that part.
    pub fn new(number: u8) -> (character: Character)
        ensures
            character@ == (IdentityView { numbers: seq![number], color: CharacterColor::of_number(number) }),
    {
        let mut numbers: Vec<u8> = Vec::new();
        numbers.push(number);
        assert(numbers@ =~= seq![number]);
        Character { numbers, color: CharacterColor::from_number(number) }
    }

    /// The parts that the character stands for, in the order in which it
    /// took them on.
    pub fn numbers(&self) -> (numbers: &Vec<u8>)
        ensures
            numbers@ == self@.numbers,
    {
        &self.numbers
    }

    /// The colour in which the character paints its markers.
    pub fn color(&self) -> (color: CharacterColor)
        ensures
            color == self@.color,
    {
        self.color
    }
}

/// A character in the world: its identity, where it stands, and the look
/// orientation kept for it while another character is possessed.
#[derive(Debug, PartialEq, Eq)]
pub struct CharacterState {
    pub character: Character,
    pub position: WorldPos,
    pub look: CamInputState,
}

/// The mathematical content of a [`CharacterState`].
pub struct CharacterView {
    pub numbers: Seq<u8>,
    pub color: CharacterColor,
    pub position: WorldPos,
    pub look: CamInputState,
}

impl View for CharacterState {
    type V = CharacterView;

    closed spec fn view(&self) -> CharacterView {
        CharacterView {
            numbers: self.character@.numbers,
            color: self.character@.color,
            position: self.position,
            look: self.look,
        }
    }
}

/// Whether a character is the one that the player possesses.
#[derive(Clone, Copy, Debug, PartialEq, Eq, Structural)]
pub enum PossessionState {
    Controlled,
    Uncontrolled,
}

/// The mathematical content of a [`CharacterRegistry`]: one slot per
/// spawned character, empty once the character was absorbed by another,
/// and the index of the possessed character's slot.
pub struct RegistryView {
    pub slots: Seq<Option<CharacterView>>,
    pub controlled: int,
}

/// World coordinate of a spawn coordinate given in millionths of a cell.
pub open spec fn spawn_coordinate(cells: int) -> int {
    cells * PIXEL_WORLD_SIZE / (UNITS_PER_WORLD as int)
}

/// The character that is spawned at `point` as part `number`.
pub open spec fn newcomer(number: u8, point: (int, int)) -> CharacterView {
    CharacterView {
        numbers: seq![number],
        color: CharacterColor::of_number(number),
        position: WorldPos {
            x: spawn_coordinate(point.0) as i64,
            y: PLAYER_Y,
            z: spawn_coordinate(point.1) as i64,
        },
        look: CamInputState { pitch: 0, yaw: 0 },
    }
}

/// The registry right after the spawn tick of `maze`: one character per
/// spawn point, numbered from one, the first of them possessed.
pub open spec fn spawned(maze: MazeView) -> RegistryView {
    RegistryView {
        slots: Seq::new(maze.spawns.len(), |i: int| Some(newcomer((i + 1) as u8, maze.spawns[i]))),
        controlled: 0,
    }
}

impl RegistryView {
    /// Whether slot `i` holds a living character.
    pub open spec fn alive(self, i: int) -> bool {
        0 <= i < self.slots.len() && self.slots[i] is Some
    }

    /// The part numbers of the character in slot `i`.
    pub open spec fn numbers(self, i: int) -> Seq<u8> {
        self.slots[i]->0.numbers
    }

    /// Whether the character in slot `i` lives and stands for part `number`.
    pub open spec fn holds(self, i: int, number: u8) -> bool {
        self.alive(i) && self.numbers(i).contains(number)
    }

    /// The invariant of a registry: the possessed character lives, and the
    /// identities of the living characters split the part numbers from one
    /// to the number of slots among them.
    pub open spec fn valid(self) -> bool {
        &&& 1 <= self.slots.len() <= MAX_SPAWNS
        &&& self.alive(self.controlled)
        &&& forall|i: int| self.alive(i) ==> #[trigger] self.numbers(i).no_duplicates()
        &&& forall|i: int, n: u8| #[trigger] self.holds(i, n) ==> 1 <= n <= self.slots.len()
        &&& forall|i: int, j: int, n: u8| #[trigger] self.holds(i, n) && #[trigger] self.holds(j, n) ==> i == j
        &&& forall|n: u8| 1 <= n <= self.slots.len() ==> #[trigger] self.held(n)
    }

    /// The slot of the living character that stands for part `number`, if
    /// there is one.
    pub open spec fn holder(self, number: u8) -> int {
        choose|i: int| self.holds(i, number)
    }

    /// Whether some living character stands for part `number`.
    pub open spec fn held(self, number: u8) -> bool {
        exists|i: int| self.holds(i, number)
    }

    /// The possession state of slot `i`, if a character lives there.
    pub open spec fn state_of(self, i: int) -> Option<PossessionState> {
        if !self.alive(i) {
            None
        } else if i == self.controlled {
            Some(PossessionState::Controlled)
        } else {
            Some(PossessionState::Uncontrolled)
        }
    }

    /// How many of the first `upto` slots hold the possessed character.
    pub open spec fn controlled_among(self, upto: int) -> nat
        decreases upto,
    {
        if upto <= 0 {
            0
        } else {
            self.controlled_among(upto - 1) + if self.state_of(upto - 1) == Some(PossessionState::Controlled) {
                1nat
            } else {
                0nat
            }
        }
    }

    /// How many characters are possessed.
    pub open spec fn controlled_count(self) -> nat {
        self.controlled_among(self.slots.len() as int)
    }

    /// Whether the possessed character stands for every part.
    pub open spec fn complete(self) -> bool {
        self.numbers(self.controlled).len() == self.slots.len()
    }
}

impl RegistryView {
    /// The registry with the saved look orientation of slot `i` replaced.
    pub open spec fn with_look(self, i: int, look: CamInputState) -> RegistryView {
        RegistryView {
            slots: self.slots.update(i, Some(CharacterView { look, ..self.slots[i]->0 })),
            controlled: self.controlled,
        }
    }

    /// The registry with the position of slot `i` replaced.
    pub open spec fn with_position(self, i: int, position: WorldPos) -> RegistryView {
        RegistryView {
            slots: self.slots.update(i, Some(CharacterView { position, ..self.slots[i]->0 })),
            controlled: self.controlled,
        }
    }

    /// The registry with the character in slot `i` possessed.
    pub open spec fn with_controlled(self, i: int) -> RegistryView {
        RegistryView { slots: self.slots, controlled: i }
    }

    /// The registry after the possessed character has absorbed the
    /// character in slot `guest`: the parts of the guest are appended to
    /// those of the possessed character, and the guest's slot is empty.
    pub open spec fn absorbed(self, guest: int) -> RegistryView {
        let host = self.slots[self.controlled]->0;
        RegistryView {
            slots: self.slots.update(
                self.controlled,
                Some(CharacterView { numbers: host.numbers + self.numbers(guest), ..host }),
            ).update(guest, None),
            controlled: self.controlled,
        }
    }

    /// Whether `self` can be a later state of the registry `earlier`: no
    /// slot was added, no absorbed character came back, and no living
    /// character lost a part or changed the order of the parts it had.
    pub open spec fn succeeds(self, earlier: RegistryView) -> bool {
        &&& self.slots.len() == earlier.slots.len()
        &&& forall|i: int| self.alive(i) ==> #[trigger] earlier.alive(i)
        &&& forall|i: int| #[trigger]
            self.alive(i) ==> earlier.numbers(i).is_prefix_of(self.numbers(i))
    }
}

/// The registry of all characters of a game, by spawn order.
pub struct CharacterRegistry {
    slots: Vec<Option<CharacterState>>,
    controlled: usize,
}

impl View for CharacterRegistry {
    type V = RegistryView;

    closed spec fn view(&self) -> RegistryView {
        RegistryView {
            slots: Seq::new(
                self.slots.len() as nat,
                |i: int|
                    match self.slots[i] {
                        Some(state) => Some(state@),
                        None => None,
                    },
            ),
            controlled: self.controlled as int,
        }
    }
}

/// Executable form of [`spawn_coordinate`].
fn spawn_to_world(cells: i64) -> (world: i64)
    ensures
        world == spawn_coordinate(cells as int),
{
    assert(-0x10_0000_0000_0000_0000_0000_0000 <= cells * 700_000 <= 0x10_0000_0000_0000_0000_0000_0000)
        by (nonlinear_arith)
        requires
            -0x8000_0000_0000_0000 <= cells <= 0x7fff_ffff_ffff_ffff,
    ;
    let scaled: i128 = (cells as i128) * (PIXEL_WORLD_SIZE as i128);
    let q: i128 = div_floor(scaled, UNITS_PER_WORLD as i128);
    assert(i64::MIN <= q <= i64::MAX) by (nonlinear_arith)
        requires
            q == (cells * 700_000) / 1_000_000,
            i64::MIN <= cells <= i64::MAX,
    ;
    q as i64
}

impl CharacterRegistry {
    /// The invariant that every registry satisfies.
    pub open spec fn wf(&self) -> bool {
        self@.valid()
    }

    /// Spawns one character per spawn point of `grid`. The character at
    /// spawn point `i` starts as part `i + 1`, at player height, looking
    /// straight ahead; the first character is possessed.
    pub fn spawn(grid: &MazeGrid) -> (registry: CharacterRegistry)
        requires
            grid.wf(),
        ensures
            registry.wf(),
            registry@ == spawned(grid@),
    {
        let count: usize = grid.spawn_count();
        let mut slots: Vec<Option<CharacterState>> = Vec::new();
        let mut i: usize = 0;
        while i < count
            invariant
                grid.wf(),
                count == grid@.spawns.len(),
                i <= count,
                slots.len() == i,
                forall|j: int|
                    0 <= j < i ==> (#[trigger] slots[j]) is Some && slots[j]->0@ == newcomer(
                        (j + 1) as u8,
                        grid@.spawns[j],
                    ),
            decreases count - i,
        {
            let point = grid.spawn(i);
            let number: u8 = (i + 1) as u8;
            let state = CharacterState {
                character: Character::new(number),
                position: WorldPos { x: spawn_to_world(point[0]), y: PLAYER_Y, z: spawn_to_world(point[1]) },
                look: CamInputState { pitch: 0, yaw: 0 },
            };
            slots.push(Some(state));
            i = i + 1;
        }
        let registry = CharacterRegistry { slots, controlled: 0 };
        proof {
            assert(registry@.slots =~= spawned(grid@).slots);
            lemma_spawned_valid(grid@);
        }
        registry
    }
}

impl CharacterRegistry {
    /// Number of slots, which is the number of parts in the game.
    pub fn len(&self) -> (len: usize)
        ensures
            len == self@.slots.len(),
    {
        self.slots.len()
    }

    /// The slot of the possessed character.
    pub fn controlled(&self) -> (slot: usize)
        ensures
            slot == self@.controlled,
    {
        self.controlled
    }

    /// Whether a character lives in slot `i`.
    pub fn is_alive(&self, i: usize) -> (alive: bool)
        ensures
            alive == self@.alive(i as int),
    {
        if i >= self.slots.len() {
            return false;
        }
        match &self.slots[i] {
            Some(_) => true,
            None => false,
        }
    }

    /// Where the character in slot `i` stands, if one lives there.
    pub fn position(&self, i: usize) -> (position: Option<WorldPos>)
        ensures
            position == if self@.alive(i as int) {
                Some(self@.slots[i as int]->0.position)
            } else {
                None
            },
    {
        if i >= self.slots.len() {
            return None;
        }
        match &self.slots[i] {
            Some(state) => Some(state.position),
            None => None,
        }
    }

    /// The look orientation kept for the character in slot `i`, if one lives there.
    pub fn look(&self, i: usize) -> (look: Option<CamInputState>)
        ensures
            look == if self@.alive(i as int) {
                Some(self@.slots[i as int]->0.look)
            } else {
                None
            },
    {
        if i >= self.slots.len() {
            return None;
        }
        match &self.slots[i] {
            Some(state) => Some(state.look),
            None => None,
        }
    }

    /// The marker colour of the character in slot `i`, if one lives there.
    pub fn color(&self, i: usize) -> (color: Option<CharacterColor>)
        ensures
            color == if self@.alive(i as int) {
                Some(self@.slots[i as int]->0.color)
            } else {
                None
            },
    {
        if i >= self.slots.len() {
            return None;
        }
        match &self.slots[i] {
            Some(state) => Some(state.character.color),
            None => None,
        }
    }

    /// How many parts the character in slot `i` stands for; none where no
    /// character lives.
    pub fn part_count(&self, i: usize) -> (count: usize)
        ensures
            count == if self@.alive(i as int) {
                self@.numbers(i as int).len()
            } else {
                0
            },
    {
        if i >= self.slots.len() {
            return 0;
        }
        match &self.slots[i] {
            Some(state) => state.character.numbers.len(),
            None => 0,
        }
    }

    /// The `k`-th part of the character in slot `i`.
    pub fn part(&self, i: usize, k: usize) -> (number: u8)
        requires
            self@.alive(i as int),
            k < self@.numbers(i as int).len(),
        ensures
            number == self@.numbers(i as int)[k as int],
    {
        match &self.slots[i] {
            Some(state) => state.character.numbers[k],
            None => 0,
        }
    }

    /// The parts of the character in slot `i`, in the order in which it
    /// took them on; none where no character lives.
    pub fn parts(&self, i: usize) -> (numbers: Vec<u8>)
        ensures
            numbers@ == if self@.alive(i as int) {
                self@.numbers(i as int)
            } else {
                Seq::<u8>::empty()
            },
    {
        let count: usize = self.part_count(i);
        let mut numbers: Vec<u8> = Vec::new();
        let mut k: usize = 0;
        while k < count
            invariant
                k <= count,
                count > 0 ==> self@.alive(i as int) && count == self@.numbers(i as int).len(),
                numbers.len() == k,
                forall|m: int| 0 <= m < k ==> numbers[m] == self@.numbers(i as int)[m],
            decreases count - k,
        {
            numbers.push(self.part(i, k));
            k = k + 1;
        }
        proof {
            if self@.alive(i as int) {
                assert(numbers@ =~= self@.numbers(i as int));
            } else {
                assert(numbers@ =~= Seq::<u8>::empty());
            }
        }
        numbers
    }

    /// Whether a character lives in slot `i` and stands for part `number`.
    pub fn holds(&self, i: usize, number: u8) -> (held: bool)
        ensures
            held == self@.holds(i as int, number),
    {
        let count: usize = self.part_count(i);
        let mut k: usize = 0;
        while k < count
            invariant
                k <= count,
                count > 0 ==> self@.alive(i as int) && count == self@.numbers(i as int).len(),
                forall|m: int| 0 <= m < k ==> self@.numbers(i as int)[m] != number,
            decreases count - k,
        {
            if self.part(i, k) == number {
                return true;
            }
            k = k + 1;
        }
        false
    }

    /// The slot of the living character that stands for part `number`.
    pub fn find_holder(&self, number: u8) -> (slot: Option<usize>)
        ensures
            match slot {
                Some(i) => self@.holds(i as int, number),
                None => !self@.held(number),
            },
    {
        let mut i: usize = 0;
        while i < self.slots.len()
            invariant
                i <= self.slots.len(),
                self.slots.len() == self@.slots.len(),
                forall|j: int| 0 <= j < i ==> !self@.holds(j, number),
            decreases self.slots.len() - i,
        {
            if self.holds(i, number) {
                return Some(i);
            }
            i = i + 1;
        }
        None
    }

    /// Whether the possessed character stands for every part of the game.
    pub fn is_complete(&self) -> (complete: bool)
        requires
            self.wf(),
        ensures
            complete == self@.complete(),
    {
        self.part_count(self.controlled) == self.slots.len()
    }

    /// The possession state of slot `i`, if a character lives there.
    pub fn possession(&self, i: usize) -> (state: Option<PossessionState>)
        ensures
            state == self@.state_of(i as int),
    {
        if !self.is_alive(i) {
            None
        } else if i == self.controlled {
            Some(PossessionState::Controlled)
        } else {
            Some(PossessionState::Uncontrolled)
        }
    }

    /// Replaces the look orientation kept for the character in slot `i`.
    pub(crate) fn set_look(&mut self, i: usize, look: CamInputState)
        requires
            old(self).wf(),
            old(self)@.alive(i as int),
        ensures
            final(self).wf(),
            final(self)@ == old(self)@.with_look(i as int, look),
    {
        match &mut self.slots[i] {
            Some(state) => {
                state.look = look;
            },
            None => {},
        }
        proof {
            assert(self@.slots =~= old(self)@.with_look(i as int, look).slots);
            lemma_same_identities(old(self)@, self@);
        }
    }

    /// Replaces the position of the character in slot `i`.
    pub(crate) fn set_position(&mut self, i: usize, position: WorldPos)
        requires
            old(self).wf(),
            old(self)@.alive(i as int),
        ensures
            final(self).wf(),
            final(self)@ == old(self)@.with_position(i as int, position),
    {
        match &mut self.slots[i] {
            Some(state) => {
                state.position = position;
            },
            None => {},
        }
        proof {
            assert(self@.slots =~= old(self)@.with_position(i as int, position).slots);
            lemma_same_identities(old(self)@, self@);
        }
    }

    /// Hands possession to the character in slot `i`.
    pub(crate) fn set_controlled(&mut self, i: usize)
        requires
            old(self).wf(),
            old(self)@.alive(i as int),
        ensures
            final(self).wf(),
            final(self)@ == old(self)@.with_controlled(i as int),
    {
        self.controlled = i;
        proof {
            assert(self@.slots =~= old(self)@.slots);
            lemma_same_identities(old(self)@, self@);
        }
    }

    /// Lets the possessed character absorb the character in slot `guest`.
    pub(crate) fn absorb(&mut self, guest: usize)
        requires
            old(self).wf(),
            old(self)@.alive(guest as int),
            guest != old(self)@.controlled,
        ensures
            final(self).wf(),
            final(self)@ == old(self)@.absorbed(guest as int),
    {
        let host: usize = self.controlled;
        let gone: Option<CharacterState> = self.slots[guest].take();
        match gone {
            Some(mut leaving) => {
                match &mut self.slots[host] {
                    Some(state) => {
                        state.character.numbers.append(&mut leaving.character.numbers);
                    },
                    None => {},
                }
            },
            None => {},
        }
        proof {
            assert(self@.slots =~= old(self)@.absorbed(guest as int).slots);
            lemma_absorbed_valid(old(self)@, guest as int);
        }
    }
}

/// A registry with the slots, the possession and the identities of a valid
/// one is valid, wherever its characters stand and look.
pub proof fn lemma_same_identities(before: RegistryView, after: RegistryView)
    requires
        before.valid(),
        after.slots.len() == before.slots.len(),
        after.alive(after.controlled),
        forall|i: int| after.alive(i) == before.alive(i),
        forall|i: int| before.alive(i) ==> after.numbers(i) == before.numbers(i),
    ensures
        after.valid(),
        after.succeeds(before),
{
    assert forall|i: int, n: u8| after.holds(i, n) == before.holds(i, n) by {}
    assert forall|n: u8| 1 <= n <= after.slots.len() implies #[trigger] after.held(n) by {
        assert(before.held(n));
        let i = choose|i: int| before.holds(i, n);
        assert(after.holds(i, n));
    }
}

/// Absorbing a living character other than the possessed one keeps the
/// registry valid: the parts of the two are pooled, nothing is lost.
pub proof fn lemma_absorbed_valid(before: RegistryView, guest: int)
    requires
        before.valid(),
        before.alive(guest),
        guest != before.controlled,
    ensures
        before.absorbed(guest).valid(),
        before.absorbed(guest).succeeds(before),
{
    let after = before.absorbed(guest);
    let host = before.controlled;
    let pooled = before.numbers(host) + before.numbers(guest);
    assert(after.numbers(host) == pooled);
    assert forall|n: u8| pooled.contains(n) <==> before.holds(host, n) || before.holds(guest, n) by {
        if pooled.contains(n) {
            let k = choose|k: int| 0 <= k < pooled.len() && pooled[k] == n;
            if k < before.numbers(host).len() {
                assert(before.numbers(host)[k] == n);
            } else {
                assert(before.numbers(guest)[k - before.numbers(host).len()] == n);
            }
        }
        if before.holds(host, n) {
            let k = choose|k: int| 0 <= k < before.numbers(host).len() && before.numbers(host)[k] == n;
            assert(pooled[k] == n);
        }
        if before.holds(guest, n) {
            let k = choose|k: int| 0 <= k < before.numbers(guest).len() && before.numbers(guest)[k] == n;
            assert(pooled[k + before.numbers(host).len()] == n);
        }
    }
    assert forall|i: int, n: u8| after.holds(i, n) <==> (if i == host {
        before.holds(host, n) || before.holds(guest, n)
    } else {
        i != guest && before.holds(i, n)
    }) by {}
    assert(pooled.no_duplicates()) by {
        assert(before.numbers(host).no_duplicates());
        assert(before.numbers(guest).no_duplicates());
        assert forall|a: int, b: int| 0 <= a < pooled.len() && 0 <= b < pooled.len() && a != b implies pooled[a]
            != pooled[b] by {
            let split = before.numbers(host).len();
            if a < split && b >= split {
                assert(before.holds(host, pooled[a]));
                assert(before.numbers(guest)[b - split] == pooled[b]);
                assert(before.holds(guest, pooled[b]));
            } else if b < split && a >= split {
                assert(before.holds(host, pooled[b]));
                assert(before.numbers(guest)[a - split] == pooled[a]);
                assert(before.holds(guest, pooled[a]));
            } else if a < split {
                assert(before.numbers(host)[a] != before.numbers(host)[b]);
            } else {
                assert(before.numbers(guest)[a - split] != before.numbers(guest)[b - split]);
            }
        }
    }
    assert forall|i: int| after.alive(i) implies #[trigger] after.numbers(i).no_duplicates() by {
        if i != host {
            assert(before.numbers(i).no_duplicates());
        }
    }
    assert forall|i: int, j: int, n: u8| #[trigger] after.holds(i, n) && #[trigger] after.holds(j, n) implies i
        == j by {
        let bi = if i == host && before.holds(guest, n) {
            guest
        } else {
            i
        };
        let bj = if j == host && before.holds(guest, n) {
            guest
        } else {
            j
        };
        assert(before.holds(bi, n) && before.holds(bj, n));
    }
    assert forall|n: u8| 1 <= n <= after.slots.len() implies #[trigger] after.held(n) by {
        assert(before.held(n));
        let i = choose|i: int| before.holds(i, n);
        if i == guest {
            assert(after.holds(host, n));
        } else {
            assert(after.holds(i, n));
        }
    }
    assert forall|i: int| #[trigger] after.alive(i) implies before.numbers(i).is_prefix_of(after.numbers(i)) by {
        if i == host {
            assert(pooled.subrange(0, before.numbers(host).len() as int) =~= before.numbers(host));
        }
    }
}

/// The registry right after the spawn tick satisfies the invariant.
pub proof fn lemma_spawned_valid(maze: MazeView)
    requires
        maze.valid(),
    ensures
        spawned(maze).valid(),
{
    let v = spawned(maze);
    assert forall|i: int, n: u8| v.holds(i, n) implies n == i + 1 by {
        let k = choose|k: int| 0 <= k < v.numbers(i).len() && v.numbers(i)[k] == n;
        assert(v.numbers(i)[0] == (i + 1) as u8);
    }
    assert forall|n: u8| 1 <= n <= v.slots.len() implies #[trigger] v.held(n) by {
        assert(v.numbers(n - 1)[0] == n);
        assert(v.holds(n - 1, n));
    }
}

} // verus!
