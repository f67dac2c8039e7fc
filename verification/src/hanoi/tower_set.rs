//! The board: three towers, and the one sanctioned way to move a disk.

use vstd::prelude::*;
use vstd::multiset::Multiset;
use crate::hanoi::selector::TowerSelector;
use crate::hanoi::tower::{descending, Disk, Tower};

verus! {

/// The tower that a disk was to be taken from, and that held none.
#[derive(Debug)]
pub struct EmptyTowerError(pub TowerSelector);

impl EmptyTowerError {
    /// The text of the warning: `tower`, the label, `is empty`.
    pub fn message(&self) -> (text: String)
        ensures
            text@ == "tower "@ + seq![self.0.letter()] + " is empty"@,
    {
        "tower ".to_owned().concat(self.0.label()).concat(" is empty")
    }
}

/// The state of a board: the radii on each tower, bottom first.
pub struct Board {
    pub a: Seq<nat>,
    pub b: Seq<nat>,
    pub c: Seq<nat>,
}

impl Board {
    /// The stack on the selected tower.
    pub open spec fn stack(self, selector: TowerSelector) -> Seq<nat> {
        match selector {
            TowerSelector::A => self.a,
            TowerSelector::B => self.b,
            TowerSelector::C => self.c,
        }
    }

    /// The board with the selected tower's stack replaced.
    pub open spec fn with_stack(self, selector: TowerSelector, stack: Seq<nat>) -> Board {
        match selector {
            TowerSelector::A => Board { a: stack, ..self },
            TowerSelector::B => Board { b: stack, ..self },
            TowerSelector::C => Board { c: stack, ..self },
        }
    }

    /// A disk can be taken from the selected tower.
    pub open spec fn can_move_from(self, source: TowerSelector) -> bool {
        self.stack(source).len() > 0
    }

    /// The board after the top disk of `source` went onto `target`. Where
    /// `source` is empty nothing moves.
    pub open spec fn moved(self, source: TowerSelector, target: TowerSelector) -> Board {
        if self.can_move_from(source) {
            let lifted = self.with_stack(source, self.stack(source).drop_last());
            lifted.with_stack(target, lifted.stack(target).push(self.stack(source).last()))
        } else {
            self
        }
    }

    /// Every disk on the board: tower `A` bottom to top, then `B`, then `C`.
    pub open spec fn disks(self) -> Seq<nat> {
        self.a + self.b + self.c
    }

    /// The disks on the board as a multiset of radii: what is there, and how
    /// often, regardless of where.
    pub open spec fn disk_multiset(self) -> Multiset<nat> {
        self.a.to_multiset().add(self.b.to_multiset()).add(self.c.to_multiset())
    }

    /// The start of a puzzle with `n` disks: all on tower `A`, largest at the
    /// bottom.
    pub open spec fn initial(n: nat) -> Board {
        Board { a: descending(n), b: Seq::empty(), c: Seq::empty() }
    }
}

/// Three towers, one for each selector.
#[derive(Debug)]
pub struct TowerSet {
    a: Tower,
    b: Tower,
    c: Tower,
}

impl View for TowerSet {
    type V = Board;

    closed spec fn view(&self) -> Board {
        Board { a: self.a@, b: self.b@, c: self.c@ }
    }
}

impl TowerSet {
    /// The board that holds the given towers as `A`, `B` and `C`.
    pub fn from_towers(a: Tower, b: Tower, c: Tower) -> (towers: TowerSet)
        ensures
            towers@ == (Board { a: a@, b: b@, c: c@ }),
    {
        TowerSet { a, b, c }
    }

    /// The start of a puzzle: `n` disks on tower `A`, radii `n` down to 1,
    /// and nothing on `B` and `C`.
    pub fn with_disks(n: usize) -> (towers: TowerSet)
        ensures
            towers@ == Board::initial(n as nat),
    {
        TowerSet { a: Tower::with_disks(n), b: Tower::default(), c: Tower::default() }
    }

    /// The selected tower, to look at.
    pub fn index(&self, index: TowerSelector) -> (tower: &Tower)
        ensures
            tower@ == self@.stack(index),
    {
        match index {
            TowerSelector::A => &self.a,
            TowerSelector::B => &self.b,
            TowerSelector::C => &self.c,
        }
    }

    /// The three towers in their fixed order: `A`, `B`, `C`.
    pub fn towers(&self) -> (towers: [&Tower; 3])
        ensures
            towers@[0]@ == self@.a,
            towers@[1]@ == self@.b,
            towers@[2]@ == self@.c,
    {
        [&self.a, &self.b, &self.c]
    }

    /// The selected tower, to change. The other two towers stay as they are.
    pub fn index_mut(&mut self, index: TowerSelector) -> (tower: &mut Tower)
        ensures
            tower@ == old(self)@.stack(index),
            final(self)@ == old(self)@.with_stack(index, final(tower)@),
    {
        match index {
            TowerSelector::A => &mut self.a,
            TowerSelector::B => &mut self.b,
            TowerSelector::C => &mut self.c,
        }
    }

    /// Moves the top disk of `source` onto `target`.
    ///
    /// With a disk on `source`, exactly that disk changes towers. With none,
    /// the error names `source` and the board is untouched. Either way the
    /// board holds the same disks as before.
    pub fn move_disk(&mut self, source: TowerSelector, target: TowerSelector) -> (moved: Result<
        (),
        EmptyTowerError,
    >)
        ensures
            final(self)@ == old(self)@.moved(source, target),
            final(self)@.disk_multiset() == old(self)@.disk_multiset(),
            match moved {
                Ok(_) => old(self)@.can_move_from(source),
                Err(error) => !old(self)@.can_move_from(source) && error.0 == source
                    && final(self)@ == old(self)@,
            },
    {
        proof {
            lemma_move_keeps_disks(self@, source, target);
        }
        match self.index_mut(source).pop() {
            Some(disk) => {
                self.index_mut(target).push(disk);
                Ok(())
            },
            None => {
                assert(self@ =~= old(self)@);
                Err(EmptyTowerError(source))
            },
        }
    }

    /// Every disk on the board: those of tower `A` from bottom to top, then
    /// those of `B`, then those of `C`.
    pub fn disks(&self) -> (disks: Vec<&Disk>)
        ensures
            disks@.len() == self@.disks().len(),
            forall|i: int| 0 <= i < disks@.len() ==> (#[trigger] disks@[i])@ == self@.disks()[i],
    {
        let mut disks: Vec<&Disk> = Vec::new();
        collect(&self.a, &mut disks);
        collect(&self.b, &mut disks);
        collect(&self.c, &mut disks);
        disks
    }
}

/// Appends the disks of a tower, bottom to top, to those already collected.
fn collect<'a>(tower: &'a Tower, disks: &mut Vec<&'a Disk>)
    ensures
        final(disks)@.len() == old(disks)@.len() + tower@.len(),
        forall|i: int| 0 <= i < old(disks)@.len() ==> final(disks)@[i] == old(disks)@[i],
        forall|i: int|
            old(disks)@.len() <= i < final(disks)@.len() ==> (#[trigger] final(disks)@[i])@
                == tower@[i - old(disks)@.len()],
{
    let mut height: usize = 0;
    while height < tower.count()
        invariant
            height <= tower@.len(),
            disks@.len() == old(disks)@.len() + height,
            forall|i: int| 0 <= i < old(disks)@.len() ==> disks@[i] == old(disks)@[i],
            forall|i: int|
                old(disks)@.len() <= i < disks@.len() ==> (#[trigger] disks@[i])@ == tower@[i
                    - old(disks)@.len()],
        decreases tower@.len() - height,
    {
        if let Some(disk) = tower.get(height) {
            disks.push(disk);
        }
        height += 1;
    }
}

impl PartialEq for TowerSet {
    /// Two boards are equal when each tower holds the same radii in the same
    /// order as its counterpart.
    fn eq(&self, other: &TowerSet) -> (equal: bool) {
        self.a == other.a && self.b == other.b && self.c == other.c
    }
}

impl vstd::std_specs::cmp::PartialEqSpecImpl for TowerSet {
    open spec fn obeys_eq_spec() -> bool {
        true
    }

    open spec fn eq_spec(&self, other: &TowerSet) -> bool {
        self@ == other@
    }
}

impl Eq for TowerSet {

}

/// Moving a disk neither makes nor loses one: the board holds the same
/// multiset of radii before and after, whether or not the move succeeds.
pub proof fn lemma_move_keeps_disks(board: Board, source: TowerSelector, target: TowerSelector)
    ensures
        board.moved(source, target).disk_multiset() == board.disk_multiset(),
{
    if board.can_move_from(source) {
        let stack = board.stack(source);
        let disk = stack.last();
        let lifted = board.with_stack(source, stack.drop_last());
        assert(stack =~= stack.drop_last().push(disk));
        stack.drop_last().to_multiset_ensures();
        lifted.stack(target).to_multiset_ensures();
        assert(stack.to_multiset() =~= stack.drop_last().to_multiset().insert(disk));
        assert(lifted.stack(target).push(disk).to_multiset() =~= lifted.stack(
            target,
        ).to_multiset().insert(disk));
        assert(board.moved(source, target).disk_multiset() =~= board.disk_multiset());
    }
}

} // verus!
