//! The three tower labels, how they are read from text, and the roles they
//! play in one solver call.

use vstd::prelude::*;

verus! {

/// One of the three towers.
#[derive(Clone, Copy, Debug, PartialEq, Eq, Structural)]
pub enum TowerSelector {
    A,
    B,
    C,
}

/// The text that could not be read as a tower label.
#[derive(Debug)]
pub struct ParseTowerSelectorError(pub String);

impl ParseTowerSelectorError {
    /// The text of the warning: the offending text, then `: bad tower selector`.
    pub fn message(&self) -> (text: String)
        ensures
            text@ == self.0@ + ": bad tower selector"@,
    {
        self.0.clone().concat(": bad tower selector")
    }
}

impl TowerSelector {
    /// The letter that names the tower.
    pub open spec fn letter(self) -> char {
        match self {
            TowerSelector::A => 'A',
            TowerSelector::B => 'B',
            TowerSelector::C => 'C',
        }
    }

    /// The tower's label as text: its letter alone.
    pub fn label(&self) -> (label: &'static str)
        ensures
            label@ == seq![self.letter()],
    {
        proof {
            reveal_strlit("A");
            reveal_strlit("B");
            reveal_strlit("C");
        }
        let label = match self {
            TowerSelector::A => "A",
            TowerSelector::B => "B",
            TowerSelector::C => "C",
        };
        assert(label@ =~= seq![self.letter()]);
        label
    }

    /// The label that a single character stands for, if any. Only the
    /// capital letters count.
    pub fn from_char(c: char) -> (found: Option<TowerSelector>)
        ensures
            match found {
                Some(selector) => c == selector.letter(),
                None => c != 'A' && c != 'B' && c != 'C',
            },
    {
        if c == 'A' {
            Some(TowerSelector::A)
        } else if c == 'B' {
            Some(TowerSelector::B)
        } else if c == 'C' {
            Some(TowerSelector::C)
        } else {
            None
        }
    }

    /// The label that a text stands for: the text must be exactly one of the
    /// three capital letters.
    pub open spec fn labelled(text: Seq<char>) -> Option<TowerSelector> {
        if text == seq!['A'] {
            Some(TowerSelector::A)
        } else if text == seq!['B'] {
            Some(TowerSelector::B)
        } else if text == seq!['C'] {
            Some(TowerSelector::C)
        } else {
            None
        }
    }

    /// Reads a label. The text must be exactly `A`, `B` or `C`; anything
    /// else comes back inside the error, unchanged.
    pub fn from_str(s: &str) -> (parsed: Result<TowerSelector, ParseTowerSelectorError>)
        ensures
            match parsed {
                Ok(selector) => TowerSelector::labelled(s@) == Some(selector),
                Err(error) => TowerSelector::labelled(s@) is None && error.0@ == s@,
            },
    {
        assert(seq!['A'].len() == 1 && seq!['B'].len() == 1 && seq!['C'].len() == 1);
        assert(seq!['A'][0] == 'A' && seq!['B'][0] == 'B' && seq!['C'][0] == 'C');
        if s.unicode_len() == 1 {
            let c = s.get_char(0);
            if let Some(selector) = TowerSelector::from_char(c) {
                assert(s@ =~= seq![selector.letter()]);
                return Ok(selector);
            }
            assert(s@[0] != 'A' && s@[0] != 'B' && s@[0] != 'C');
        }
        Err(ParseTowerSelectorError(s.to_owned()))
    }
}

/// Which tower plays which part in a solver call.
pub struct Roles {
    /// The tower that the disks leave.
    pub source: TowerSelector,
    /// The tower that the disks reach.
    pub target: TowerSelector,
    /// The third tower, where disks wait in between.
    pub buffer: TowerSelector,
}

/// A source, a target and a buffer tower, no two of them the same.
pub struct TowerSelectorSet {
    source: TowerSelector,
    target: TowerSelector,
    buffer: TowerSelector,
}

impl View for TowerSelectorSet {
    type V = Roles;

    closed spec fn view(&self) -> Roles {
        Roles { source: self.source, target: self.target, buffer: self.buffer }
    }
}

impl TowerSelectorSet {
    /// What holds of every value of this type: the three roles go to three
    /// different towers.
    #[verifier::type_invariant]
    pub open spec fn distinct(self) -> bool {
        self@.source != self@.target && self@.source != self@.buffer && self@.target
            != self@.buffer
    }

    /// The assignment with the given parts. Giving one tower two roles is a
    /// mistake in the calling code, so the parts must differ.
    pub fn from_parts(source: TowerSelector, target: TowerSelector, buffer: TowerSelector) -> (set:
        TowerSelectorSet)
        requires
            source != target,
            source != buffer,
            target != buffer,
        ensures
            set@ == (Roles { source, target, buffer }),
    {
        TowerSelectorSet { source, target, buffer }
    }

    /// The usual assignment: from `A` to `B`, with `C` as the buffer.
    pub fn new() -> (set: TowerSelectorSet)
        ensures
            set@ == (Roles {
                source: TowerSelector::A,
                target: TowerSelector::B,
                buffer: TowerSelector::C,
            }),
    {
        TowerSelectorSet {
            source: TowerSelector::A,
            target: TowerSelector::B,
            buffer: TowerSelector::C,
        }
    }

    /// The tower that the disks leave.
    pub fn source(&self) -> (source: TowerSelector)
        ensures
            source == self@.source,
    {
        self.source
    }

    /// The tower that the disks reach.
    pub fn target(&self) -> (target: TowerSelector)
        ensures
            target == self@.target,
    {
        self.target
    }

    /// The tower where disks wait in between.
    pub fn buffer(&self) -> (buffer: TowerSelector)
        ensures
            buffer == self@.buffer,
    {
        self.buffer
    }
}

} // verus!
