//! The board as text.
//!
//! A picture has one line of pole tops, one line for each level of the
//! tallest tower, from its top down to the ground, and a last line of labels.
//! Where a shorter tower does not reach a level its column shows bare pole.
//! Every column has one width, that which the widest disk on the board
//! needs, whichever tower that disk is on: room for the disk's `@` signs on
//! both sides, and for the digits of its radius between them. A narrower
//! disk, a stretch of pole and a label are filled up with blanks to that
//! width.

use vstd::prelude::*;
use vstd::seq_lib::lemma_concat_associative;
use crate::hanoi::selector::TowerSelector;
use crate::hanoi::tower_set::{Board, TowerSet};
use crate::text::{decimal, decimal_len, lemma_decimal_len_increases, write_decimal};

verus! {

/// `count` copies of `unit`, one after the other.
pub open spec fn repeated(unit: Seq<char>, count: nat) -> Seq<char>
    decreases count,
{
    if count == 0 {
        Seq::empty()
    } else {
        repeated(unit, (count - 1) as nat) + unit
    }
}

/// The largest of the radii, or 0 where there is none.
pub open spec fn max_radius(radii: Seq<nat>) -> nat
    decreases radii.len(),
{
    if radii.len() == 0 {
        0
    } else {
        let rest = max_radius(radii.drop_last());
        if radii.last() > rest {
            radii.last()
        } else {
            rest
        }
    }
}

/// The radius of the widest disk anywhere on the board, or 0 on an empty
/// board.
pub open spec fn widest(board: Board) -> nat {
    max_radius(board.disks())
}

/// The width of every column on a board whose widest disk has the radius
/// `widest`: a blank, the disk's two halves, the underscore, and the digits
/// of the radius.
pub open spec fn column_width(widest: nat) -> nat {
    2 * widest + 2 + decimal(widest).len()
}

/// The blanks that end a column in which `used` characters stand where the
/// widest disk has the digits of its radius: as many as that disk has more
/// digits.
pub open spec fn fill(widest: nat, used: nat) -> Seq<char> {
    repeated(seq![' '], (decimal(widest).len() - used) as nat)
}

/// A stretch of bare pole, in a column made for disks up to `widest`. The
/// pole takes two characters, one where a disk has its underscore and one
/// where it has the first digit of its radius.
pub open spec fn pole(widest: nat) -> Seq<char> {
    seq![' '] + repeated(seq![' '], widest) + seq!['|', '|'] + repeated(seq![' '], widest)
        + fill(widest, 1)
}

/// A disk by itself: `@` signs to the width of the radius on either side of
/// an underscore and the radius in decimal, set in the middle of the room
/// that the `@` signs of the widest disk take.
pub open spec fn disk_body(radius: nat, widest: nat) -> Seq<char> {
    seq![' '] + repeated(seq![' '], (widest - radius) as nat) + repeated(seq!['@'], radius)
        + seq!['_'] + decimal(radius) + repeated(seq!['@'], radius) + repeated(
        seq![' '],
        (widest - radius) as nat,
    )
}

/// A disk, in a column made for disks up to `widest`: the disk, then blanks
/// for the digits that the widest radius has more than this one.
pub open spec fn disk_text(radius: nat, widest: nat) -> Seq<char> {
    disk_body(radius, widest) + fill(widest, decimal(radius).len())
}

/// A tower's label under its column.
pub open spec fn label_text(selector: TowerSelector, widest: nat) -> Seq<char> {
    seq![' '] + repeated(seq![' '], widest) + seq![' ', selector.letter()] + repeated(
        seq![' '],
        widest,
    ) + fill(widest, 1)
}

/// What one column shows at `level` disks above the ground: the disk that
/// sits there, or bare pole.
pub open spec fn cell(stack: Seq<nat>, level: int, widest: nat) -> Seq<char> {
    if 0 <= level < stack.len() {
        disk_text(stack[level], widest)
    } else {
        pole(widest)
    }
}

/// The line of pole tops.
pub open spec fn pole_tops(widest: nat) -> Seq<char> {
    pole(widest) + pole(widest) + pole(widest) + seq!['\n']
}

/// The line that shows all three towers at one level.
pub open spec fn row(board: Board, level: int) -> Seq<char> {
    cell(board.a, level, widest(board)) + cell(board.b, level, widest(board)) + cell(
        board.c,
        level,
        widest(board),
    ) + seq!['\n']
}

/// The height of the tallest tower on the board.
pub open spec fn tallest(board: Board) -> nat {
    if board.a.len() >= board.b.len() && board.a.len() >= board.c.len() {
        board.a.len()
    } else if board.b.len() >= board.c.len() {
        board.b.len()
    } else {
        board.c.len()
    }
}

/// The topmost `count` disk lines. The first line shows the level of the
/// top disk of the tallest tower; each further line is one level lower.
pub open spec fn rows(board: Board, count: nat) -> Seq<char>
    decreases count,
{
    if count == 0 {
        Seq::empty()
    } else {
        rows(board, (count - 1) as nat) + row(board, tallest(board) - count)
    }
}

/// The line of labels. It is the last line and ends without a line break.
pub open spec fn labels(widest: nat) -> Seq<char> {
    label_text(TowerSelector::A, widest) + label_text(TowerSelector::B, widest) + label_text(
        TowerSelector::C,
        widest,
    )
}

/// The whole picture of a board.
pub open spec fn picture(board: Board) -> Seq<char> {
    pole_tops(widest(board)) + rows(board, tallest(board)) + labels(widest(board))
}

/// The picture is a function of what is on the towers and of nothing else:
/// two boards with the same stacks are drawn alike, and so is one board
/// drawn twice.
pub proof fn lemma_picture_of_equal_boards(first: TowerSet, second: TowerSet)
    requires
        first@ == second@,
    ensures
        picture(first@) == picture(second@),
{
}

/// `max_radius` is an upper bound of the radii, and one of them unless there
/// is none.
pub proof fn lemma_max_radius(radii: Seq<nat>)
    ensures
        forall|i: int| 0 <= i < radii.len() ==> radii[i] <= max_radius(radii),
        radii.len() > 0 ==> exists|i: int| 0 <= i < radii.len() && radii[i] == max_radius(radii),
        radii.len() == 0 ==> max_radius(radii) == 0,
    decreases radii.len(),
{
    if radii.len() > 0 {
        let rest = radii.drop_last();
        lemma_max_radius(rest);
        assert forall|i: int| 0 <= i < radii.len() implies radii[i] <= max_radius(radii) by {
            if i < rest.len() {
                assert(rest[i] == radii[i]);
            }
        }
        if radii.last() > max_radius(rest) {
            assert(radii[radii.len() - 1] == max_radius(radii));
        } else if rest.len() > 0 {
            let i = choose|i: int| 0 <= i < rest.len() && rest[i] == max_radius(rest);
            assert(radii[i] == max_radius(radii));
        } else {
            assert(radii[radii.len() - 1] == max_radius(radii));
        }
    }
}

/// No disk on the board is wider than `widest` says.
pub proof fn lemma_widest_bounds(board: Board, selector: TowerSelector, level: int)
    requires
        0 <= level < board.stack(selector).len(),
    ensures
        board.stack(selector)[level] <= widest(board),
{
    lemma_max_radius(board.disks());
    match selector {
        TowerSelector::A => {
            assert(board.disks()[level] == board.a[level]);
        },
        TowerSelector::B => {
            assert(board.disks()[board.a.len() + level] == board.b[level]);
        },
        TowerSelector::C => {
            assert(board.disks()[board.a.len() + board.b.len() + level] == board.c[level]);
        },
    }
}

/// Copies of a single character are as long as their count.
pub proof fn lemma_repeated_len(c: char, count: nat)
    ensures
        repeated(seq![c], count).len() == count,
    decreases count,
{
    if count > 0 {
        lemma_repeated_len(c, (count - 1) as nat);
    }
}

/// The columns line up: whatever a column shows at any level is as wide as
/// the widest disk on the board makes every column, and so are a stretch of
/// pole and each label, whichever tower holds the widest disk and whatever
/// the radii are.
pub proof fn lemma_columns_line_up(board: Board, selector: TowerSelector, level: int)
    ensures
        cell(board.stack(selector), level, widest(board)).len() == column_width(widest(board)),
        pole(widest(board)).len() == column_width(widest(board)),
        label_text(selector, widest(board)).len() == column_width(widest(board)),
{
    let wide = widest(board);
    lemma_decimal_len_increases(0, wide);
    lemma_repeated_len(' ', wide);
    lemma_repeated_len(' ', (decimal(wide).len() - 1) as nat);
    if 0 <= level < board.stack(selector).len() {
        let radius = board.stack(selector)[level];
        lemma_widest_bounds(board, selector, level);
        lemma_decimal_len_increases(radius, wide);
        lemma_repeated_len(' ', (wide - radius) as nat);
        lemma_repeated_len('@', radius);
        lemma_repeated_len(' ', (decimal(wide).len() - decimal(radius).len()) as nat);
    }
}

/// Every line of the picture has the same length: three columns of one
/// width.
pub proof fn lemma_lines_have_one_length(board: Board, level: int)
    ensures
        pole_tops(widest(board)).len() == 3 * column_width(widest(board)) + 1,
        row(board, level).len() == 3 * column_width(widest(board)) + 1,
        labels(widest(board)).len() == 3 * column_width(widest(board)),
{
    lemma_columns_line_up(board, TowerSelector::A, level);
    lemma_columns_line_up(board, TowerSelector::B, level);
    lemma_columns_line_up(board, TowerSelector::C, level);
}

/// Three columns and a line end appended one by one are the line appended
/// as a whole.
proof fn lemma_line_of_three(
    before: Seq<char>,
    first: Seq<char>,
    second: Seq<char>,
    third: Seq<char>,
    end: Seq<char>,
)
    ensures
        before + first + second + third + end == before + (first + second + third + end),
{
    assert(before + first + second + third + end =~= before + (first + second + third + end));
}

/// Appends `count` copies of `unit`.
fn write_repeated(out: &mut String, unit: &str, count: usize)
    ensures
        final(out)@ == old(out)@ + repeated(unit@, count as nat),
{
    let ghost before = out@;
    let mut done: usize = 0;
    assert(out@ =~= before + repeated(unit@, 0));
    while done < count
        invariant
            done <= count,
            out@ == before + repeated(unit@, done as nat),
        decreases count - done,
    {
        out.append(unit);
        done += 1;
        assert(out@ =~= before + repeated(unit@, done as nat));
    }
}

/// A board about to be drawn, together with the radius that sets the width
/// of every column.
pub struct TowerSetDisplay<'a> {
    towers: &'a TowerSet,
    radius: usize,
}

impl<'a> TowerSetDisplay<'a> {
    /// What holds of every value of this type: the radius kept beside the
    /// board is that of the widest disk on it.
    #[verifier::type_invariant]
    pub open spec fn sized(self) -> bool {
        self.spec_radius() == widest(self.board())
    }

    /// The board to be drawn.
    pub closed spec fn board(self) -> Board {
        self.towers@
    }

    /// The radius that sets the column width.
    pub closed spec fn spec_radius(self) -> nat {
        self.radius as nat
    }

    /// Measures the board: finds the widest disk on any tower.
    pub fn new(towers: &'a TowerSet) -> (display: TowerSetDisplay<'a>)
        ensures
            display.board() == towers@,
            display.spec_radius() == widest(towers@),
    {
        let disks = towers.disks();
        let ghost radii = towers@.disks();
        let mut radius: usize = 0;
        let mut seen: usize = 0;
        assert(radii.take(0) =~= Seq::<nat>::empty());
        while seen < disks.len()
            invariant
                seen <= disks@.len(),
                disks@.len() == radii.len(),
                forall|i: int| 0 <= i < disks@.len() ==> (#[trigger] disks@[i])@ == radii[i],
                radius == max_radius(radii.take(seen as int)),
            decreases disks@.len() - seen,
        {
            let next = disks[seen].radius();
            assert(radii.take(seen + 1).drop_last() =~= radii.take(seen as int));
            if next > radius {
                radius = next;
            }
            seen += 1;
        }
        assert(radii.take(seen as int) =~= radii);
        TowerSetDisplay { towers, radius }
    }

    /// Appends a stretch of bare pole.
    pub fn write_pole(&self, out: &mut String)
        ensures
            final(out)@ == old(out)@ + pole(widest(self.board())),
    {
        proof {
            use_type_invariant(self);
            reveal_strlit(" ");
            reveal_strlit("||");
        }
        out.append(" ");
        write_repeated(out, " ", self.radius);
        out.append("||");
        write_repeated(out, " ", self.radius);
        self.write_fill(out, 1);
        assert(" "@ =~= seq![' ']);
        assert("||"@ =~= seq!['|', '|']);
        assert(out@ =~= old(out)@ + pole(widest(self.board())));
    }

    /// Appends the blanks that end a column in which `used` characters
    /// stand in place of the digits of the widest radius.
    fn write_fill(&self, out: &mut String, used: usize)
        requires
            used <= decimal(widest(self.board())).len(),
        ensures
            final(out)@ == old(out)@ + fill(widest(self.board()), used as nat),
    {
        proof {
            use_type_invariant(self);
            reveal_strlit(" ");
        }
        write_repeated(out, " ", decimal_len(self.radius) - used);
        assert(" "@ =~= seq![' ']);
    }

    /// Appends a disk of the given radius by itself.
    fn write_disk_body(&self, out: &mut String, radius: usize)
        requires
            radius <= widest(self.board()),
        ensures
            final(out)@ == old(out)@ + disk_body(radius as nat, widest(self.board())),
    {
        proof {
            use_type_invariant(self);
            reveal_strlit(" ");
            reveal_strlit("@");
            reveal_strlit("_");
        }
        let gap = self.radius - radius;
        out.append(" ");
        write_repeated(out, " ", gap);
        write_repeated(out, "@", radius);
        out.append("_");
        write_decimal(out, radius);
        write_repeated(out, "@", radius);
        write_repeated(out, " ", gap);
        assert(" "@ =~= seq![' ']);
        assert("@"@ =~= seq!['@']);
        assert("_"@ =~= seq!['_']);
        assert(out@ =~= old(out)@ + disk_body(radius as nat, widest(self.board())));
    }

    /// Appends a disk of the given radius, which the columns must be wide
    /// enough for, and fills its column up.
    fn write_disk(&self, out: &mut String, radius: usize)
        requires
            radius <= widest(self.board()),
        ensures
            final(out)@ == old(out)@ + disk_text(radius as nat, widest(self.board())),
    {
        proof {
            lemma_decimal_len_increases(radius as nat, widest(self.board()));
            lemma_concat_associative(
                old(out)@,
                disk_body(radius as nat, widest(self.board())),
                fill(widest(self.board()), decimal(radius as nat).len()),
            );
        }
        self.write_disk_body(out, radius);
        self.write_fill(out, decimal_len(radius));
    }

    /// Appends the line of pole tops.
    pub fn print_pole_tops(&self, out: &mut String)
        ensures
            final(out)@ == old(out)@ + pole_tops(widest(self.board())),
    {
        proof {
            reveal_strlit("\n");
        }
        let mut column: usize = 0;
        assert(out@ =~= old(out)@ + repeated(pole(widest(self.board())), 0));
        while column < 3
            invariant
                column <= 3,
                out@ == old(out)@ + repeated(pole(widest(self.board())), column as nat),
            decreases 3 - column,
        {
            self.write_pole(out);
            column += 1;
            assert(out@ =~= old(out)@ + repeated(pole(widest(self.board())), column as nat));
        }
        out.append("\n");
        assert("\n"@ =~= seq!['\n']);
        assert(repeated(pole(widest(self.board())), 3) =~= pole(widest(self.board())) + pole(
            widest(self.board()),
        ) + pole(widest(self.board()))) by {
            reveal_with_fuel(repeated, 4);
        }
        assert(out@ =~= old(out)@ + pole_tops(widest(self.board())));
    }

    /// Appends what the selected tower shows at `level`.
    fn write_cell(&self, out: &mut String, selector: TowerSelector, level: usize)
        ensures
            final(out)@ == old(out)@ + cell(
                self.board().stack(selector),
                level as int,
                widest(self.board()),
            ),
    {
        match self.towers.index(selector).get(level) {
            Some(disk) => {
                proof {
                    lemma_widest_bounds(self.board(), selector, level as int);
                }
                self.write_disk(out, disk.radius());
            },
            None => {
                self.write_pole(out);
            },
        }
    }

    /// The height of the tallest tower.
    fn tallest(&self) -> (height: usize)
        ensures
            height == tallest(self.board()),
    {
        let a = self.towers.index(TowerSelector::A).count();
        let b = self.towers.index(TowerSelector::B).count();
        let c = self.towers.index(TowerSelector::C).count();
        if a >= b && a >= c {
            a
        } else if b >= c {
            b
        } else {
            c
        }
    }

    /// Appends the line that shows all three towers at `level`.
    fn write_row(&self, out: &mut String, level: usize)
        ensures
            final(out)@ == old(out)@ + row(self.board(), level as int),
    {
        proof {
            reveal_strlit("\n");
            lemma_line_of_three(
                old(out)@,
                cell(self.board().a, level as int, widest(self.board())),
                cell(self.board().b, level as int, widest(self.board())),
                cell(self.board().c, level as int, widest(self.board())),
                seq!['\n'],
            );
        }
        self.write_cell(out, TowerSelector::A, level);
        self.write_cell(out, TowerSelector::B, level);
        self.write_cell(out, TowerSelector::C, level);
        out.append("\n");
        assert("\n"@ =~= seq!['\n']);
    }

    /// Appends the disk lines, top line first: one for each level of the
    /// tallest tower.
    pub fn print_disks(&self, out: &mut String)
        ensures
            final(out)@ == old(out)@ + rows(self.board(), tallest(self.board())),
    {
        let levels = self.tallest();
        let mut depth: usize = 0;
        assert(out@ =~= old(out)@ + rows(self.board(), 0));
        while depth < levels
            invariant
                depth <= levels,
                levels == tallest(self.board()),
                out@ == old(out)@ + rows(self.board(), depth as nat),
            decreases levels - depth,
        {
            proof {
                lemma_concat_associative(
                    old(out)@,
                    rows(self.board(), depth as nat),
                    row(self.board(), levels - depth - 1),
                );
            }
            self.write_row(out, levels - depth - 1);
            depth += 1;
        }
    }

    /// Appends the line of labels, without a line break after it.
    pub fn print_labels(&self, out: &mut String)
        ensures
            final(out)@ == old(out)@ + labels(widest(self.board())),
    {
        proof {
            use_type_invariant(self);
            reveal_strlit(" ");
        }
        let selectors = [TowerSelector::A, TowerSelector::B, TowerSelector::C];
        let ghost wide = widest(self.board());
        let mut column: usize = 0;
        while column < 3
            invariant
                column <= 3,
                wide == self.radius,
                wide == widest(self.board()),
                " "@ =~= seq![' '],
                selectors@ == seq![TowerSelector::A, TowerSelector::B, TowerSelector::C],
                out@ == old(out)@ + if column == 0 {
                    Seq::<char>::empty()
                } else if column == 1 {
                    label_text(TowerSelector::A, wide)
                } else if column == 2 {
                    label_text(TowerSelector::A, wide) + label_text(TowerSelector::B, wide)
                } else {
                    labels(wide)
                },
            decreases 3 - column,
        {
            let ghost column_start = out@;
            out.append(" ");
            write_repeated(out, " ", self.radius);
            out.append(" ");
            out.append(selectors[column].label());
            write_repeated(out, " ", self.radius);
            self.write_fill(out, 1);
            assert(out@ =~= column_start + label_text(selectors@[column as int], wide));
            column += 1;
        }
    }

    /// Appends the whole picture: pole tops, disk lines, labels.
    pub fn print(&self, out: &mut String)
        ensures
            final(out)@ == old(out)@ + picture(self.board()),
    {
        self.print_pole_tops(out);
        self.print_disks(out);
        self.print_labels(out);
        assert(out@ =~= old(out)@ + picture(self.board()));
    }
}

impl TowerSet {
    /// The picture of the board as text. The board itself is only read.
    pub fn render(&self) -> (text: String)
        ensures
            text@ == picture(self@),
    {
        let mut text = String::new();
        TowerSetDisplay::new(self).print(&mut text);
        assert(text@ =~= picture(self@));
        text
    }
}

} // verus!
