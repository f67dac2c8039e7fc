//! The recursive solver, the moves it makes and the record it keeps.
//!
//! To bring `height` disks from one tower to another the solver first brings
//! the `height - 1` disks above the lowest of them to the third tower, then
//! moves that lowest disk, then brings the others on top of it. It never looks
//! at a radius: it relocates the top `height` disks of the source in their
//! order, whatever they are.

use vstd::prelude::*;
use vstd::arithmetic::power2::{lemma2_to64, lemma_pow2_unfold, pow2};
use crate::hanoi::render::picture;
use crate::hanoi::selector::{TowerSelector, TowerSelectorSet};
use crate::hanoi::tower::is_ordered;
use crate::hanoi::tower_set::{lemma_move_keeps_disks, Board, EmptyTowerError, TowerSet};

verus! {

/// One disk going from the top of one tower to the top of another.
#[derive(Clone, Copy, Debug, PartialEq, Eq, Structural)]
pub struct Move {
    pub source: TowerSelector,
    pub target: TowerSelector,
}

/// The moves that bring `height` disks from `source` to `target`, in order.
pub open spec fn solution(
    height: nat,
    source: TowerSelector,
    target: TowerSelector,
    buffer: TowerSelector,
) -> Seq<Move>
    decreases height,
{
    if height == 0 {
        Seq::empty()
    } else {
        solution((height - 1) as nat, source, buffer, target).push(Move { source, target })
            + solution((height - 1) as nat, buffer, target, source)
    }
}

/// The moves that a run of the solver gets done when `source` holds
/// `available` disks. With enough disks that is the whole solution. With too
/// few, the run brings every disk of `source` to one of the other towers
/// and stops there, at the first move that finds `source` empty.
pub open spec fn performed(
    height: nat,
    available: nat,
    source: TowerSelector,
    target: TowerSelector,
    buffer: TowerSelector,
) -> Seq<Move>
    decreases height,
{
    if height <= available {
        solution(height, source, target, buffer)
    } else {
        performed((height - 1) as nat, available, source, buffer, target)
    }
}

impl Board {
    /// The board after the given moves, made in order. A move from an empty
    /// tower changes nothing.
    pub open spec fn play(self, moves: Seq<Move>) -> Board
        decreases moves.len(),
    {
        if moves.len() == 0 {
            self
        } else {
            self.play(moves.drop_last()).moved(moves.last().source, moves.last().target)
        }
    }

    /// The board after the top `height` disks of `source` went onto `target`
    /// as one block, in their order.
    pub open spec fn relocated(
        self,
        height: nat,
        source: TowerSelector,
        target: TowerSelector,
    ) -> Board {
        let stack = self.stack(source);
        let kept = stack.len() - height;
        self.with_stack(source, stack.take(kept)).with_stack(
            target,
            self.stack(target) + stack.skip(kept),
        )
    }
}

/// The pictures of a board along a sequence of moves: the board as it
/// starts, then the board after each move.
pub open spec fn frames(board: Board, moves: Seq<Move>) -> Seq<Seq<char>> {
    Seq::new(moves.len() + 1, |i: int| picture(board.play(moves.take(i))))
}

/// What a journal holds.
pub struct Record {
    /// The moves made, first to last.
    pub moves: Seq<Move>,
    /// The pictures taken, first to last.
    pub boards: Seq<Seq<char>>,
}

/// The record of one or more solver runs: every move made, and a picture of
/// the board as it stood before the first move and after each move.
#[derive(Debug)]
pub struct Journal {
    pub moves: Vec<Move>,
    pub boards: Vec<String>,
}

impl View for Journal {
    type V = Record;

    open spec fn view(&self) -> Record {
        Record {
            moves: self.moves@,
            boards: Seq::new(self.boards@.len(), |i: int| self.boards@[i]@),
        }
    }
}

impl Journal {
    /// A journal with nothing in it.
    pub fn new() -> (journal: Journal)
        ensures
            journal@ == (Record { moves: Seq::empty(), boards: Seq::empty() }),
    {
        let journal = Journal { moves: Vec::new(), boards: Vec::new() };
        assert(journal@.boards =~= Seq::<Seq<char>>::empty());
        journal
    }

    /// Notes a move.
    fn note_move(&mut self, source: TowerSelector, target: TowerSelector)
        ensures
            final(self)@.moves == old(self)@.moves.push(Move { source, target }),
            final(self)@.boards == old(self)@.boards,
    {
        self.moves.push(Move { source, target });
        assert(self@.boards =~= old(self)@.boards);
    }

    /// Takes a picture of the board.
    fn note_board(&mut self, towers: &TowerSet)
        ensures
            final(self)@.moves == old(self)@.moves,
            final(self)@.boards == old(self)@.boards.push(picture(towers@)),
    {
        self.boards.push(towers.render());
        assert(self@.boards =~= old(self)@.boards.push(picture(towers@)));
    }
}

/// Playing one sequence of moves and then another is playing the two joined.
pub proof fn lemma_play_concat(board: Board, first: Seq<Move>, second: Seq<Move>)
    ensures
        board.play(first + second) == board.play(first).play(second),
    decreases second.len(),
{
    if second.len() == 0 {
        assert(first + second =~= first);
    } else {
        lemma_play_concat(board, first, second.drop_last());
        assert((first + second).drop_last() =~= first + second.drop_last());
        assert((first + second).last() == second.last());
    }
}

/// However many moves are played, legal or not, the board holds the same
/// multiset of disks at the end as at the start.
pub proof fn lemma_play_keeps_disks(board: Board, moves: Seq<Move>)
    ensures
        board.play(moves).disk_multiset() == board.disk_multiset(),
    decreases moves.len(),
{
    if moves.len() > 0 {
        lemma_play_keeps_disks(board, moves.drop_last());
        lemma_move_keeps_disks(
            board.play(moves.drop_last()),
            moves.last().source,
            moves.last().target,
        );
    }
}

/// The pictures along two joined sequences of moves are those along the
/// first, then those along the second from the board that follows the move
/// between them.
pub proof fn lemma_frames_concat(board: Board, first: Seq<Move>, between: Move, second: Seq<Move>)
    ensures
        frames(board, first.push(between) + second) == frames(board, first) + frames(
            board.play(first.push(between)),
            second,
        ),
{
    let joined = first.push(between) + second;
    let left = frames(board, joined);
    let right = frames(board, first) + frames(board.play(first.push(between)), second);
    assert(left.len() == right.len());
    assert forall|i: int| 0 <= i < left.len() implies left[i] == right[i] by {
        if i <= first.len() {
            assert(joined.take(i) =~= first.take(i));
        } else {
            let k = i - first.len() - 1;
            assert(joined.take(i) =~= first.push(between) + second.take(k));
            lemma_play_concat(board, first.push(between), second.take(k));
        }
    }
    assert(left =~= right);
}

/// The solution for `height` disks has `2^height - 1` moves.
pub proof fn lemma_solution_len(
    height: nat,
    source: TowerSelector,
    target: TowerSelector,
    buffer: TowerSelector,
)
    ensures
        solution(height, source, target, buffer).len() == pow2(height) - 1,
    decreases height,
{
    if height == 0 {
        lemma2_to64();
    } else {
        lemma_pow2_unfold(height);
        lemma_solution_len((height - 1) as nat, source, buffer, target);
        lemma_solution_len((height - 1) as nat, buffer, target, source);
    }
}

/// Played on a board whose source tower holds at least `height` disks, the
/// solution takes the top `height` disks of the source to the target in their
/// order and leaves everything else where it was.
pub proof fn lemma_solution_relocates(
    board: Board,
    height: nat,
    source: TowerSelector,
    target: TowerSelector,
    buffer: TowerSelector,
)
    requires
        source != target,
        source != buffer,
        target != buffer,
        height <= board.stack(source).len(),
    ensures
        board.play(solution(height, source, target, buffer)) == board.relocated(
            height,
            source,
            target,
        ),
    decreases height,
{
    if height == 0 {
        lemma_relocated_none(board, source, target);
    } else {
        let above = (height - 1) as nat;
        let first = solution(above, source, buffer, target);
        let second = solution(above, buffer, target, source);
        let between = Move { source, target };
        lemma_solution_relocates(board, above, source, buffer, target);
        let parked = board.relocated(above, source, buffer);
        let crossed = parked.moved(source, target);
        lemma_solution_relocates(crossed, above, buffer, target, source);
        lemma_relocated_step(board, height, source, target, buffer);
        assert(first.push(between).drop_last() =~= first);
        assert(board.play(first.push(between)) == crossed);
        lemma_play_concat(board, first.push(between), second);
    }
}

/// Relocating no disk changes nothing.
pub proof fn lemma_relocated_none(board: Board, source: TowerSelector, target: TowerSelector)
    ensures
        board.relocated(0, source, target) == board,
{
    let stack = board.stack(source);
    assert(stack.take(stack.len() as int) =~= stack);
    assert(board.stack(target) + stack.skip(stack.len() as int) =~= board.stack(target));
    let lifted = board.with_stack(source, stack);
    assert(lifted.stack(target) + stack.skip(stack.len() as int) =~= lifted.stack(target));
}

/// The three steps of the solver add up: park the disks above the lowest on
/// the buffer, move the lowest across, bring the parked disks onto it.
pub proof fn lemma_relocated_step(
    board: Board,
    height: nat,
    source: TowerSelector,
    target: TowerSelector,
    buffer: TowerSelector,
)
    requires
        source != target,
        source != buffer,
        target != buffer,
        0 < height <= board.stack(source).len(),
    ensures
        ({
            let parked = board.relocated((height - 1) as nat, source, buffer);
            let crossed = parked.moved(source, target);
            &&& parked.can_move_from(source)
            &&& height - 1 <= crossed.stack(buffer).len()
            &&& crossed.relocated((height - 1) as nat, buffer, target) == board.relocated(
                height,
                source,
                target,
            )
        }),
{
    let above = (height - 1) as nat;
    let parked = board.relocated(above, source, buffer);
    let crossed = parked.moved(source, target);
    let done = crossed.relocated(above, buffer, target);
    let goal = board.relocated(height, source, target);
    let stack = board.stack(source);
    let kept = stack.len() - height;
    assert(parked.stack(source) =~= stack.take(kept + 1));
    assert(parked.stack(buffer) =~= board.stack(buffer) + stack.skip(kept + 1));
    assert(parked.stack(target) =~= board.stack(target));
    assert(crossed.stack(source) =~= stack.take(kept));
    assert(crossed.stack(target) =~= board.stack(target).push(stack[kept]));
    assert(crossed.stack(buffer) =~= parked.stack(buffer));
    assert(done.stack(buffer) =~= board.stack(buffer));
    assert(done.stack(target) =~= board.stack(target) + stack.skip(kept));
    assert(done.stack(source) =~= stack.take(kept));
    assert(goal.stack(source) =~= stack.take(kept));
    assert(goal.stack(target) =~= board.stack(target) + stack.skip(kept));
    assert(goal.stack(buffer) =~= board.stack(buffer));
    lemma_board_ext(done, goal);
}

/// Two boards with the same stack on every tower are the same board.
pub proof fn lemma_board_ext(left: Board, right: Board)
    requires
        forall|selector: TowerSelector| left.stack(selector) == right.stack(selector),
    ensures
        left == right,
{
    assert(left.stack(TowerSelector::A) == right.stack(TowerSelector::A));
    assert(left.stack(TowerSelector::B) == right.stack(TowerSelector::B));
    assert(left.stack(TowerSelector::C) == right.stack(TowerSelector::C));
}

/// A puzzle solved: with all disks on the source, in order, and nothing on
/// the other two towers, the solution for that many disks ends with the same
/// disks in the same order on the target and nothing on the source and the
/// buffer.
pub proof fn lemma_solution_solves(
    board: Board,
    source: TowerSelector,
    target: TowerSelector,
    buffer: TowerSelector,
)
    requires
        source != target,
        source != buffer,
        target != buffer,
        is_ordered(board.stack(source)),
        board.stack(target) == Seq::<nat>::empty(),
        board.stack(buffer) == Seq::<nat>::empty(),
    ensures
        ({
            let count = board.stack(source).len();
            let solved = board.play(solution(count, source, target, buffer));
            &&& solved.stack(target) == board.stack(source)
            &&& solved.stack(source) == Seq::<nat>::empty()
            &&& solved.stack(buffer) == Seq::<nat>::empty()
            &&& is_ordered(solved.stack(target))
        }),
{
    let count = board.stack(source).len();
    lemma_solution_relocates(board, count, source, target, buffer);
    let solved = board.relocated(count, source, target);
    assert(solved.stack(target) =~= board.stack(source));
    assert(solved.stack(source) =~= Seq::<nat>::empty());
    assert(solved.stack(buffer) =~= Seq::<nat>::empty());
}

/// No move of the solution finds its tower empty: on a board whose source
/// holds at least `height` disks, each move of the solution takes a disk
/// that is there.
pub proof fn lemma_solution_never_stalls(
    board: Board,
    height: nat,
    source: TowerSelector,
    target: TowerSelector,
    buffer: TowerSelector,
    made: nat,
)
    requires
        source != target,
        source != buffer,
        target != buffer,
        height <= board.stack(source).len(),
        made < solution(height, source, target, buffer).len(),
    ensures
        board.play(solution(height, source, target, buffer).take(made as int)).can_move_from(
            solution(height, source, target, buffer)[made as int].source,
        ),
    decreases height,
{
    let moves = solution(height, source, target, buffer);
    if height > 0 {
        let above = (height - 1) as nat;
        let first = solution(above, source, buffer, target);
        let second = solution(above, buffer, target, source);
        let between = Move { source, target };
        let crossed = board.relocated(above, source, buffer).moved(source, target);
        lemma_solution_relocates(board, above, source, buffer, target);
        lemma_relocated_step(board, height, source, target, buffer);
        assert(first.push(between).drop_last() =~= first);
        if made < first.len() {
            assert(moves.take(made as int) =~= first.take(made as int));
            lemma_solution_never_stalls(board, above, source, buffer, target, made);
        } else if made == first.len() {
            assert(moves.take(made as int) =~= first);
        } else {
            let later = (made - first.len() - 1) as nat;
            assert(moves.take(made as int) =~= first.push(between) + second.take(later as int));
            lemma_play_concat(board, first.push(between), second.take(later as int));
            lemma_solution_never_stalls(crossed, above, buffer, target, source, later);
        }
    }
}

/// Every disk among the top `height` of `source` is smaller than every disk
/// on `other`.
pub open spec fn block_fits_on(
    board: Board,
    height: nat,
    source: TowerSelector,
    other: TowerSelector,
) -> bool {
    forall|i: int, j: int|
        board.stack(source).len() - height <= i < board.stack(source).len() && 0 <= j
            < board.stack(other).len() ==> #[trigger] board.stack(source)[i]
            < #[trigger] board.stack(other)[j]
}

impl Board {
    /// On every tower the radii strictly decrease from bottom to top.
    pub open spec fn in_order(self) -> bool {
        is_ordered(self.a) && is_ordered(self.b) && is_ordered(self.c)
    }
}

/// Half way through: once the disks above the lowest are parked on the
/// buffer and the lowest has crossed to the target, the board is in order,
/// and the parked disks are smaller than everything on the other two towers.
proof fn lemma_crossed_in_order(
    board: Board,
    height: nat,
    source: TowerSelector,
    target: TowerSelector,
    buffer: TowerSelector,
)
    requires
        source != target,
        source != buffer,
        target != buffer,
        0 < height <= board.stack(source).len(),
        board.in_order(),
        block_fits_on(board, height, source, target),
        block_fits_on(board, height, source, buffer),
    ensures
        ({
            let crossed = board.relocated((height - 1) as nat, source, buffer).moved(
                source,
                target,
            );
            &&& crossed.in_order()
            &&& block_fits_on(crossed, (height - 1) as nat, buffer, target)
            &&& block_fits_on(crossed, (height - 1) as nat, buffer, source)
        }),
{
    let above = (height - 1) as nat;
    let crossed = board.relocated(above, source, buffer).moved(source, target);
    let from = board.stack(source);
    let onto = board.stack(target);
    let aside = board.stack(buffer);
    let kept = from.len() - height;
    // The lowest disk of the block lands on the target, above larger disks.
    assert(crossed.stack(target) =~= onto.push(from[kept]));
    assert(is_ordered(crossed.stack(target)));
    // The rest of the block stands on the buffer, above larger disks.
    assert(crossed.stack(buffer) =~= aside + from.skip(kept + 1));
    assert(is_ordered(crossed.stack(buffer)));
    // What is left on the source lay below the block.
    assert(crossed.stack(source) =~= from.take(kept));
    assert(block_fits_on(crossed, above, buffer, target));
    assert(block_fits_on(crossed, above, buffer, source));
}

/// The solver never puts a disk on a smaller one. On a board that is in
/// order, and where the disks to be moved are smaller than every disk on the
/// other two towers, each tower is in order after every move of the solution.
pub proof fn lemma_solution_keeps_order(
    board: Board,
    height: nat,
    source: TowerSelector,
    target: TowerSelector,
    buffer: TowerSelector,
    made: nat,
)
    requires
        source != target,
        source != buffer,
        target != buffer,
        height <= board.stack(source).len(),
        board.in_order(),
        block_fits_on(board, height, source, target),
        block_fits_on(board, height, source, buffer),
        made <= solution(height, source, target, buffer).len(),
    ensures
        board.play(solution(height, source, target, buffer).take(made as int)).in_order(),
    decreases height,
{
    let moves = solution(height, source, target, buffer);
    if height == 0 {
        assert(moves.take(made as int) =~= Seq::<Move>::empty());
    } else {
        let above = (height - 1) as nat;
        let first = solution(above, source, buffer, target);
        let second = solution(above, buffer, target, source);
        let between = Move { source, target };
        let crossed = board.relocated(above, source, buffer).moved(source, target);
        lemma_solution_relocates(board, above, source, buffer, target);
        lemma_relocated_step(board, height, source, target, buffer);
        lemma_crossed_in_order(board, height, source, target, buffer);
        assert(first.push(between).drop_last() =~= first);
        assert(board.play(first.push(between)) == crossed);
        if made <= first.len() {
            assert(moves.take(made as int) =~= first.take(made as int));
            lemma_solution_keeps_order(board, above, source, buffer, target, made);
        } else {
            let later = (made - first.len() - 1) as nat;
            assert(moves.take(made as int) =~= first.push(between) + second.take(later as int));
            lemma_play_concat(board, first.push(between), second.take(later as int));
            lemma_solution_keeps_order(crossed, above, buffer, target, source, later);
        }
    }
}

/// What a run with enough disks adds up to. The moves made before, at and
/// after the crossing of the lowest disk are the solution; the pictures taken
/// along the two halves are the pictures along the whole; and the board ends
/// up with the top `height` disks of the source on the target. All of it
/// comes after whatever was noted before the run.
proof fn lemma_whole_run(
    board: Board,
    height: nat,
    source: TowerSelector,
    target: TowerSelector,
    buffer: TowerSelector,
    noted: Record,
)
    requires
        source != target,
        source != buffer,
        target != buffer,
        0 < height <= board.stack(source).len(),
    ensures
        ({
            let above = (height - 1) as nat;
            let first = solution(above, source, buffer, target);
            let second = solution(above, buffer, target, source);
            let parked = board.relocated(above, source, buffer);
            let crossed = parked.moved(source, target);
            &&& parked.can_move_from(source)
            &&& above <= crossed.stack(buffer).len()
            &&& crossed.relocated(above, buffer, target) == board.relocated(
                height,
                source,
                target,
            )
            &&& (noted.moves + first).push(Move { source, target }) + second == noted.moves
                + solution(height, source, target, buffer)
            &&& noted.boards + frames(board, first) + frames(crossed, second) == noted.boards
                + frames(board, solution(height, source, target, buffer))
        }),
{
    let above = (height - 1) as nat;
    let first = solution(above, source, buffer, target);
    let second = solution(above, buffer, target, source);
    let between = Move { source, target };
    let crossed = board.relocated(above, source, buffer).moved(source, target);
    lemma_solution_relocates(board, above, source, buffer, target);
    lemma_relocated_step(board, height, source, target, buffer);
    assert(first.push(between).drop_last() =~= first);
    lemma_frames_concat(board, first, between, second);
    assert((noted.moves + first).push(between) + second =~= noted.moves + (first.push(between)
        + second));
    assert(noted.boards + frames(board, first) + frames(crossed, second) =~= noted.boards + (
    frames(board, first) + frames(crossed, second)));
}

/// Brings the top `height` disks of the source tower to the target tower,
/// by way of the buffer tower, and records the run in `journal`.
///
/// The run succeeds exactly when the source holds at least `height` disks.
/// Then those disks end up on the target in their order, `2^height - 1`
/// moves were made, and nothing else on the board changed. With fewer disks
/// the run stops at the first move that finds the source empty and returns
/// that move's error, which names the source.
///
/// Either way the journal gains the moves that were made, and a picture of
/// the board before the first of them and after each.
pub fn solve(
    towers: TowerSet,
    height: usize,
    selectors: TowerSelectorSet,
    journal: &mut Journal,
) -> (solved: Result<TowerSet, EmptyTowerError>)
    ensures
        match solved {
            Ok(after) => height <= towers@.stack(selectors@.source).len() && after@
                == towers@.relocated(height as nat, selectors@.source, selectors@.target),
            Err(error) => height > towers@.stack(selectors@.source).len() && error.0
                == selectors@.source,
        },
        final(journal)@.moves == old(journal)@.moves + performed(
            height as nat,
            towers@.stack(selectors@.source).len(),
            selectors@.source,
            selectors@.target,
            selectors@.buffer,
        ),
        final(journal)@.boards == old(journal)@.boards + frames(
            towers@,
            performed(
                height as nat,
                towers@.stack(selectors@.source).len(),
                selectors@.source,
                selectors@.target,
                selectors@.buffer,
            ),
        ),
        solved is Ok ==> final(journal)@.moves.len() == old(journal)@.moves.len() + pow2(
            height as nat,
        ) - 1,
    decreases height,
{
    let source = selectors.source();
    let target = selectors.target();
    let buffer = selectors.buffer();
    let ghost board = towers@;
    let ghost available = board.stack(source).len();
    proof {
        use_type_invariant(&selectors);
        lemma_solution_len(height as nat, source, target, buffer);
    }
    if height == 0 {
        journal.note_board(&towers);
        proof {
            lemma_relocated_none(board, source, target);
            let none = Seq::<Move>::empty();
            assert(none.take(0) =~= none);
            assert(frames(board, none) =~= seq![picture(board)]);
            assert(journal@.moves =~= old(journal)@.moves + none);
            assert(journal@.boards =~= old(journal)@.boards + frames(board, none));
        }
        return Ok(towers);
    }
    proof {
        if height <= available {
            lemma_whole_run(board, height as nat, source, target, buffer, old(journal)@);
        } else {
            assert(board.stack(source).take(0).len() == 0);
        }
    }
    let mut towers = solve(
        towers,
        height - 1,
        TowerSelectorSet::from_parts(source, buffer, target),
        journal,
    )?;
    towers.move_disk(source, target)?;
    journal.note_move(source, target);
    solve(towers, height - 1, TowerSelectorSet::from_parts(buffer, target, source), journal)
}

} // verus!
