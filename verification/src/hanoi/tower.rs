//! Disks and the towers that hold them.

use vstd::prelude::*;

verus! {

/// A disk, known only by its radius.
#[derive(Debug, PartialEq, Eq, Structural)]
pub struct Disk {
    radius: usize,
}

impl View for Disk {
    type V = nat;

    /// A disk is its radius.
    closed spec fn view(&self) -> nat {
        self.radius as nat
    }
}

impl Disk {
    #[verifier::type_invariant]
    spec fn positive(self) -> bool {
        self.radius > 0
    }

    /// A disk of the given radius.
    pub fn new(radius: usize) -> (disk: Disk)
        requires
            radius > 0,
        ensures
            disk@ == radius,
    {
        Disk { radius }
    }

    /// The radius of the disk, which is never zero.
    pub fn radius(&self) -> (radius: usize)
        ensures
            radius == self@,
            radius > 0,
    {
        proof {
            use_type_invariant(self);
        }
        self.radius
    }
}

/// The radii `n, n - 1, .., 1`: a full stack of `n` disks, bottom first.
pub open spec fn descending(n: nat) -> Seq<nat> {
    Seq::new(n, |i: int| (n - i) as nat)
}

/// Radii strictly decrease from the bottom of a stack to its top.
pub open spec fn is_ordered(stack: Seq<nat>) -> bool {
    forall|i: int, j: int| 0 <= i < j < stack.len() ==> stack[i] > stack[j]
}

/// A stack of disks, listed from bottom to top.
///
/// The only ways to change a tower are [`Tower::pop`] and [`Tower::push`].
/// The tower does not compare radii: keeping larger disks below smaller
/// ones is up to whoever moves the disks.
#[derive(Debug)]
pub struct Tower {
    disks: Vec<Disk>,
}

impl View for Tower {
    type V = Seq<nat>;

    /// A tower is the radii of its disks, bottom first.
    closed spec fn view(&self) -> Seq<nat> {
        Seq::new(self.disks@.len(), |i: int| self.disks@[i]@)
    }
}

impl Tower {
    /// Takes the top disk off, if there is one. An empty tower stays as it is.
    pub fn pop(&mut self) -> (top: Option<Disk>)
        ensures
            match top {
                Some(disk) => old(self)@.len() > 0 && disk@ == old(self)@.last() && final(self)@
                    == old(self)@.drop_last(),
                None => old(self)@.len() == 0 && final(self)@ == old(self)@,
            },
    {
        let top = self.disks.pop();
        proof {
            if top is Some {
                assert(self@ =~= old(self)@.drop_last());
            }
        }
        top
    }

    /// Puts a disk on top, whatever its radius.
    pub fn push(&mut self, disk: Disk)
        ensures
            final(self)@ == old(self)@.push(disk@),
    {
        self.disks.push(disk);
        assert(self@ =~= old(self)@.push(disk@));
    }

    /// A tower of `n` disks with the radii `n` down to 1, the largest at the bottom.
    pub fn with_disks(n: usize) -> (tower: Tower)
        ensures
            tower@ == descending(n as nat),
            is_ordered(tower@),
    {
        let mut disks: Vec<Disk> = Vec::new();
        let mut radius: usize = n;
        while radius > 0
            invariant
                radius <= n,
                disks@.len() == n - radius,
                forall|i: int| 0 <= i < disks@.len() ==> (#[trigger] disks@[i])@ == n - i,
            decreases radius,
        {
            disks.push(Disk::new(radius));
            radius -= 1;
        }
        let tower = Tower { disks };
        assert(tower@ =~= descending(n as nat));
        tower
    }

    /// The number of disks on the tower.
    pub fn count(&self) -> (count: usize)
        ensures
            count == self@.len(),
    {
        self.disks.len()
    }

    /// The top disk, if there is one.
    pub fn peek_top(&self) -> (top: Option<&Disk>)
        ensures
            match top {
                Some(disk) => self@.len() > 0 && disk@ == self@.last(),
                None => self@.len() == 0,
            },
    {
        let count = self.disks.len();
        if count == 0 {
            None
        } else {
            Some(&self.disks[count - 1])
        }
    }

    /// The disk at `height` disks above the ground, if the tower reaches that high.
    pub fn get(&self, height: usize) -> (found: Option<&Disk>)
        ensures
            match found {
                Some(disk) => height < self@.len() && disk@ == self@[height as int],
                None => height >= self@.len(),
            },
    {
        if height < self.disks.len() {
            Some(&self.disks[height])
        } else {
            None
        }
    }
}

impl Default for Tower {
    /// The empty tower.
    fn default() -> (tower: Tower)
        ensures
            tower@ == Seq::<nat>::empty(),
    {
        let tower = Tower { disks: Vec::new() };
        assert(tower@ =~= Seq::<nat>::empty());
        tower
    }
}

impl PartialEq for Tower {
    /// Two towers are equal when they hold the same radii in the same order.
    fn eq(&self, other: &Tower) -> (equal: bool) {
        if self.disks.len() != other.disks.len() {
            return false;
        }
        let mut height: usize = 0;
        while height < self.disks.len()
            invariant
                self.disks@.len() == other.disks@.len(),
                height <= self.disks@.len(),
                forall|i: int| 0 <= i < height ==> self@[i] == other@[i],
            decreases self.disks@.len() - height,
        {
            if self.disks[height].radius() != other.disks[height].radius() {
                assert(self@[height as int] != other@[height as int]);
                return false;
            }
            height += 1;
        }
        assert(self@ =~= other@);
        true
    }
}

impl vstd::std_specs::cmp::PartialEqSpecImpl for Tower {
    open spec fn obeys_eq_spec() -> bool {
        true
    }

    open spec fn eq_spec(&self, other: &Tower) -> bool {
        self@ == other@
    }
}

impl Eq for Tower {

}

} // verus!
