//! The interactive game: what a line of input means and what it does to the
//! board.
//!
//! A line is put in capitals and stripped of surrounding whitespace before
//! it is read. What is left is a command:
//!
//! * nothing at all: ignored;
//! * anything that starts with `Q`: the session ends;
//! * two characters: the labels of the tower to take a disk from and of the
//!   tower to put it on;
//! * anything else: not a command.
//!
//! No line ends the session but one that asks for it, and no line leaves the
//! board with other disks than it had.

use vstd::prelude::*;
use crate::hanoi::render::picture;
use crate::hanoi::selector::{ParseTowerSelectorError, TowerSelector};
use crate::hanoi::tower_set::{Board, EmptyTowerError, TowerSet};
use crate::text::texts;

verus! {

/// Whether `char::is_whitespace` holds of a character: whether it has the
/// Unicode property White_Space, by which `str::trim` goes. The standard
/// library's documentation names the property and leaves the list of its
/// characters to the Unicode Character Database, so the property is named
/// here and not spelled out.
pub uninterp spec fn is_whitespace(c: char) -> bool;

/// What `str::to_uppercase` makes of a text.
pub uninterp spec fn uppercased(text: Seq<char>) -> Seq<char>;

/// A text without the whitespace it starts with.
pub open spec fn trimmed_start(text: Seq<char>) -> Seq<char>
    decreases text.len(),
{
    if text.len() > 0 && is_whitespace(text.first()) {
        trimmed_start(text.drop_first())
    } else {
        text
    }
}

/// A text without the whitespace it ends with.
pub open spec fn trimmed_end(text: Seq<char>) -> Seq<char>
    decreases text.len(),
{
    if text.len() > 0 && is_whitespace(text.last()) {
        trimmed_end(text.drop_last())
    } else {
        text
    }
}

/// A text without the whitespace around it.
pub open spec fn trimmed(text: Seq<char>) -> Seq<char> {
    trimmed_end(trimmed_start(text))
}

/// The command in a line of input: the line in capitals, without the
/// whitespace around it.
pub open spec fn normalized(line: Seq<char>) -> Seq<char> {
    trimmed(uppercased(line))
}

/// Calls `str::to_uppercase`. Nothing is claimed of the result but that it
/// depends on the text alone.
#[verifier::external_body]
fn to_uppercase(text: &str) -> (upper: String)
    ensures
        upper@ == uppercased(text@),
{
    text.to_uppercase()
}

/// Calls `str::trim`, which returns the part of the text between its leading
/// and its trailing whitespace. What is left neither starts nor ends with
/// whitespace.
#[verifier::external_body]
fn trim(text: &str) -> (inner: &str)
    ensures
        inner@ == trimmed(text@),
        inner@.len() > 0 ==> !is_whitespace(inner@.first()) && !is_whitespace(inner@.last()),
{
    text.trim()
}

/// Why a move command was not carried out.
#[derive(Debug)]
pub enum CommandError {
    /// One of the two labels was not a label.
    Parse(ParseTowerSelectorError),
    /// The tower to take a disk from held none.
    EmptyTower(EmptyTowerError),
}

/// Why a move command was not carried out.
pub enum Fault {
    /// This text was to name a tower and does not.
    BadSelector(Seq<char>),
    /// This tower was to give a disk and held none.
    EmptyTower(TowerSelector),
}

impl View for CommandError {
    type V = Fault;

    open spec fn view(&self) -> Fault {
        match self {
            CommandError::Parse(error) => Fault::BadSelector(error.0@),
            CommandError::EmptyTower(error) => Fault::EmptyTower(error.0),
        }
    }
}

impl CommandError {
    /// The text of the warning, as the error inside words it.
    pub fn message(&self) -> (text: String)
        ensures
            text@ == match self@ {
                Fault::BadSelector(given) => given + ": bad tower selector"@,
                Fault::EmptyTower(tower) => "tower "@ + seq![tower.letter()] + " is empty"@,
            },
    {
        match self {
            CommandError::Parse(error) => error.message(),
            CommandError::EmptyTower(error) => error.message(),
        }
    }
}

/// What stops the move that two texts ask for, if anything does. The source
/// label is read first, then the target label; only then is the source tower
/// looked at.
pub open spec fn move_fault(board: Board, source: Seq<char>, target: Seq<char>) -> Option<Fault> {
    match TowerSelector::labelled(source) {
        None => Some(Fault::BadSelector(source)),
        Some(from) => match TowerSelector::labelled(target) {
            None => Some(Fault::BadSelector(target)),
            Some(_) => if board.can_move_from(from) {
                None
            } else {
                Some(Fault::EmptyTower(from))
            },
        },
    }
}

/// The board after the move that two texts ask for. Unless both are labels
/// the board stays as it is.
pub open spec fn move_effect(board: Board, source: Seq<char>, target: Seq<char>) -> Board {
    match (TowerSelector::labelled(source), TowerSelector::labelled(target)) {
        (Some(from), Some(to)) => board.moved(from, to),
        _ => board,
    }
}

/// Reads two labels and moves a disk from the first tower to the second.
///
/// The move is made exactly when both texts are labels and the first tower
/// holds a disk. Otherwise the board stays as it is and the error says what
/// was wrong: the first text that is not a label, or else the empty tower.
pub fn try_move_command(towers: &mut TowerSet, source: &str, target: &str) -> (tried: Result<
    (),
    CommandError,
>)
    ensures
        match tried {
            Ok(_) => move_fault(old(towers)@, source@, target@) is None,
            Err(error) => move_fault(old(towers)@, source@, target@) == Some(error@)
                && final(towers)@ == old(towers)@,
        },
        final(towers)@ == move_effect(old(towers)@, source@, target@),
        final(towers)@.disk_multiset() == old(towers)@.disk_multiset(),
{
    let from = match TowerSelector::from_str(source) {
        Ok(selector) => selector,
        Err(error) => {
            return Err(CommandError::Parse(error));
        },
    };
    let to = match TowerSelector::from_str(target) {
        Ok(selector) => selector,
        Err(error) => {
            return Err(CommandError::Parse(error));
        },
    };
    match towers.move_disk(from, to) {
        Ok(_) => Ok(()),
        Err(error) => Err(CommandError::EmptyTower(error)),
    }
}

/// What the game answers to a line.
#[derive(Debug)]
pub enum Reply {
    /// Nothing to report: the line was empty, or the move was made.
    Continue,
    /// The line asked for a move that was not made.
    Warning(CommandError),
    /// The line was no command at all.
    BadCommand,
    /// The line asked to end the session.
    Quit,
}

/// What the game answers to a line.
pub enum Outcome {
    /// Nothing to report.
    Continue,
    /// A move was asked for and not made.
    Rejected(Fault),
    /// The line was no command.
    BadCommand,
    /// The session ends.
    Quit,
}

impl View for Reply {
    type V = Outcome;

    open spec fn view(&self) -> Outcome {
        match self {
            Reply::Continue => Outcome::Continue,
            Reply::Warning(error) => Outcome::Rejected(error@),
            Reply::BadCommand => Outcome::BadCommand,
            Reply::Quit => Outcome::Quit,
        }
    }
}

impl Reply {
    /// The text of the warning to show, if the reply is one.
    pub fn warning(&self) -> (text: Option<String>)
        ensures
            match self@ {
                Outcome::Rejected(Fault::BadSelector(given)) => text is Some && text.unwrap()@
                    == given + ": bad tower selector"@,
                Outcome::Rejected(Fault::EmptyTower(tower)) => text is Some && text.unwrap()@
                    == "tower "@ + seq![tower.letter()] + " is empty"@,
                Outcome::BadCommand => text is Some && text.unwrap()@ == "bad command"@,
                Outcome::Continue | Outcome::Quit => text is None,
            },
    {
        match self {
            Reply::Warning(error) => Some(error.message()),
            Reply::BadCommand => Some("bad command".to_owned()),
            Reply::Continue => None,
            Reply::Quit => None,
        }
    }

    /// Whether the reply ends the session.
    pub fn is_quit(&self) -> (quit: bool)
        ensures
            quit == (self@ is Quit),
    {
        match self {
            Reply::Quit => true,
            _ => false,
        }
    }
}

/// A command that ends the session: one that starts with `Q`.
pub open spec fn quits(command: Seq<char>) -> bool {
    command.len() > 0 && command.first() == 'Q'
}

/// A command that asks for a move: two characters, the first no `Q`.
pub open spec fn asks_move(command: Seq<char>) -> bool {
    command.len() == 2 && !quits(command)
}

/// The answer to a command on a given board.
pub open spec fn outcome(board: Board, command: Seq<char>) -> Outcome {
    if quits(command) {
        Outcome::Quit
    } else if command.len() == 0 {
        Outcome::Continue
    } else if command.len() == 2 {
        match move_fault(board, command.subrange(0, 1), command.subrange(1, 2)) {
            None => Outcome::Continue,
            Some(fault) => Outcome::Rejected(fault),
        }
    } else {
        Outcome::BadCommand
    }
}

/// The board after a command. Only a move command can change it.
pub open spec fn effect(board: Board, command: Seq<char>) -> Board {
    if asks_move(command) {
        move_effect(board, command.subrange(0, 1), command.subrange(1, 2))
    } else {
        board
    }
}

/// Carries out a command: a line of input that is already in capitals and
/// stripped of surrounding whitespace.
///
/// The reply and the board afterwards are exactly what [`outcome`] and
/// [`effect`] say. The board keeps its disks whatever the command is.
pub fn run_command(towers: &mut TowerSet, command: &str) -> (reply: Reply)
    ensures
        reply@ == outcome(old(towers)@, command@),
        final(towers)@ == effect(old(towers)@, command@),
        final(towers)@.disk_multiset() == old(towers)@.disk_multiset(),
{
    let length = command.unicode_len();
    if length > 0 && command.get_char(0) == 'Q' {
        return Reply::Quit;
    }
    if length == 0 {
        Reply::Continue
    } else if length == 2 {
        let source = command.substring_char(0, 1);
        let target = command.substring_char(1, 2);
        match try_move_command(towers, source, target) {
            Ok(_) => Reply::Continue,
            Err(error) => Reply::Warning(error),
        }
    } else {
        Reply::BadCommand
    }
}

/// Answers one line of input and changes the board as the line asks.
///
/// The line is put in capitals and trimmed; the command that is left is
/// carried out as [`run_command`] does.
pub fn respond(towers: &mut TowerSet, line: &str) -> (reply: Reply)
    ensures
        reply@ == outcome(old(towers)@, normalized(line@)),
        final(towers)@ == effect(old(towers)@, normalized(line@)),
        final(towers)@.disk_multiset() == old(towers)@.disk_multiset(),
{
    let upper = to_uppercase(line);
    let command = trim(upper.as_str());
    run_command(towers, command)
}

/// The board after the given lines were answered one by one.
pub open spec fn board_after(board: Board, lines: Seq<Seq<char>>) -> Board
    decreases lines.len(),
{
    if lines.len() == 0 {
        board
    } else {
        effect(board_after(board, lines.drop_last()), normalized(lines.last()))
    }
}

/// A session that has run its course.
#[derive(Debug)]
pub struct Session {
    /// The board as the session leaves it.
    pub towers: TowerSet,
    /// The reply to each line that was read, in order.
    pub replies: Vec<Reply>,
    /// The picture shown before each attempt to read a line, in order.
    pub boards: Vec<String>,
}

impl Session {
    /// The replies by their meaning.
    pub open spec fn outcomes(self) -> Seq<Outcome> {
        Seq::new(self.replies@.len(), |i: int| self.replies@[i]@)
    }

    /// The pictures as texts.
    pub open spec fn pictures(self) -> Seq<Seq<char>> {
        Seq::new(self.boards@.len(), |i: int| self.boards@[i]@)
    }
}

/// Plays a whole session on the lines that the input holds.
///
/// Before each attempt to read a line the board is drawn. Lines are answered
/// in order until one asks to quit or the input is used up; running out of
/// input ends the session like a request to quit. A line that is refused
/// costs nothing but its warning: the lines after it are still read.
///
/// The session reports the reply to every line it read, the pictures it
/// drew, and the board at the end.
pub fn interact(towers: TowerSet, lines: &Vec<String>) -> (session: Session)
    ensures
        ({
            let input = texts(lines@);
            let read = session.replies@.len() as int;
            let answered = session.boards@.len() - 1;
            &&& 0 <= answered <= read <= input.len()
            &&& forall|i: int| 0 <= i < answered ==> !quits(normalized(#[trigger] input[i]))
            &&& if answered < input.len() {
                read == answered + 1 && quits(normalized(input[answered]))
            } else {
                read == answered
            }
            &&& forall|i: int|
                0 <= i < read ==> #[trigger] session.outcomes()[i] == outcome(
                    board_after(towers@, input.take(i)),
                    normalized(input[i]),
                )
            &&& forall|i: int|
                0 <= i <= answered ==> #[trigger] session.pictures()[i] == picture(
                    board_after(towers@, input.take(i)),
                )
            &&& session.towers@ == board_after(towers@, input.take(answered))
            &&& session.towers@.disk_multiset() == towers@.disk_multiset()
        }),
{
    let ghost start = towers@;
    let ghost input = texts(lines@);
    let mut current = towers;
    let mut replies: Vec<Reply> = Vec::new();
    let mut boards: Vec<String> = Vec::new();
    let mut read: usize = 0;
    assert(input.take(0) =~= Seq::<Seq<char>>::empty());
    loop
        invariant
            start == towers@,
            input == texts(lines@),
            read <= lines@.len(),
            replies@.len() == read,
            boards@.len() == read,
            forall|i: int| 0 <= i < read ==> !quits(normalized(#[trigger] input[i])),
            forall|i: int|
                0 <= i < read ==> (#[trigger] replies@[i])@ == outcome(
                    board_after(start, input.take(i)),
                    normalized(input[i]),
                ),
            forall|i: int|
                0 <= i < read ==> (#[trigger] boards@[i])@ == picture(
                    board_after(start, input.take(i)),
                ),
            current@ == board_after(start, input.take(read as int)),
            current@.disk_multiset() == start.disk_multiset(),
        decreases lines@.len() - read,
    {
        boards.push(current.render());
        if read == lines.len() {
            let session = Session { towers: current, replies, boards };
            proof {
                assert(input.len() == lines@.len());
                assert forall|i: int| 0 <= i < read implies #[trigger] session.outcomes()[i]
                    == outcome(board_after(start, input.take(i)), normalized(input[i])) by {
                    assert(session.outcomes()[i] == session.replies@[i]@);
                }
                assert forall|i: int| 0 <= i <= read implies #[trigger] session.pictures()[i]
                    == picture(board_after(start, input.take(i))) by {
                    assert(session.pictures()[i] == session.boards@[i]@);
                }
            }
            return session;
        }
        let ghost before = current@;
        let reply = respond(&mut current, lines[read].as_str());
        let quit = reply.is_quit();
        replies.push(reply);
        proof {
            assert(input.take(read + 1).drop_last() =~= input.take(read as int));
            assert(input.take(read + 1).last() == input[read as int]);
            assert(input[read as int] == lines@[read as int]@);
        }
        if quit {
            let session = Session { towers: current, replies, boards };
            proof {
                assert(input.len() == lines@.len());
                assert(quits(normalized(input[read as int])));
                assert(effect(before, normalized(input[read as int])) == before);
                assert forall|i: int| 0 <= i <= read implies #[trigger] session.outcomes()[i]
                    == outcome(board_after(start, input.take(i)), normalized(input[i])) by {
                    assert(session.outcomes()[i] == session.replies@[i]@);
                }
                assert forall|i: int| 0 <= i <= read implies #[trigger] session.pictures()[i]
                    == picture(board_after(start, input.take(i))) by {
                    assert(session.pictures()[i] == session.boards@[i]@);
                }
            }
            return session;
        }
        read += 1;
    }
}

} // verus!
