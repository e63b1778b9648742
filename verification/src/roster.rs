//! The roster state machine: one pass over the lines of a transcript, which
//! gathers name words into entries and files each entry under the members
//! present or the members absent.

use vstd::prelude::*;
use crate::classify::{classification_of, classify, get_name_words, name_words_of, LineClassification};
use crate::patterns::PatternTables;
use crate::text::{join, join_words, lines_of, split_lines, trim, trim_of};

verus! {

/// The stage that the pass has reached. The stages follow one another in this
/// order.
#[derive(Clone, Copy, Debug, PartialEq, Eq, Structural)]
pub enum Phase {
    SeekingAttendees,
    CollectingAttendees,
    CollectingAbsentees,
    Done,
}

/// The mathematical value of a `ParserState`.
pub struct StateModel {
    pub phase: Phase,
    pub attendees_closed: bool,
    pub absentees_closed: bool,
    pub word_buffer: Seq<Seq<char>>,
    pub attendees: Seq<Seq<char>>,
    pub absentees: Seq<Seq<char>>,
}

/// The mathematical value of a `ParliamentMeeting`: two lists of names.
pub struct Roster {
    pub attendees: Seq<Seq<char>>,
    pub absentees: Seq<Seq<char>>,
}

/// The place of a phase in the order of the phases.
pub open spec fn rank(phase: Phase) -> nat {
    match phase {
        Phase::SeekingAttendees => 0,
        Phase::CollectingAttendees => 1,
        Phase::CollectingAbsentees => 2,
        Phase::Done => 3,
    }
}

/// `list` after the words in `buffer` were filed as one entry. An empty buffer
/// files nothing.
pub open spec fn flushed(list: Seq<Seq<char>>, buffer: Seq<Seq<char>>) -> Seq<Seq<char>> {
    if buffer.len() > 0 {
        list.push(join_words(buffer))
    } else {
        list
    }
}

impl StateModel {
    /// The state before the first line.
    pub open spec fn initial() -> StateModel {
        StateModel {
            phase: Phase::SeekingAttendees,
            attendees_closed: false,
            absentees_closed: false,
            word_buffer: Seq::empty(),
            attendees: Seq::empty(),
            absentees: Seq::empty(),
        }
    }

    /// What holds of every state that a pass can reach: the pass is done
    /// exactly when the absentees are closed, the attendees are closed from the
    /// moment the absentees are collected, and words wait in the buffer only
    /// while a list is collected.
    pub open spec fn wf(self) -> bool {
        &&& self.phase is Done <==> self.absentees_closed
        &&& self.phase is CollectingAbsentees ==> self.attendees_closed
        &&& self.attendees_closed ==> self.phase is CollectingAbsentees || self.phase is Done
        &&& self.phase is SeekingAttendees || self.phase is Done ==> self.word_buffer.len() == 0
    }

    /// An attendees header was seen while the attendees were open: the search
    /// for it ends. A pass that is further on stays where it is.
    pub open spec fn open_attendees(self) -> StateModel {
        StateModel {
            phase: if self.phase is SeekingAttendees {
                Phase::CollectingAttendees
            } else {
                self.phase
            },
            ..self
        }
    }

    /// An absentees header was seen while the absentees were open: the entry in
    /// progress goes to the attendees, which are closed, and the absentees are
    /// collected from here on.
    pub open spec fn close_attendees(self) -> StateModel {
        StateModel {
            phase: Phase::CollectingAbsentees,
            attendees_closed: true,
            attendees: flushed(self.attendees, self.word_buffer),
            word_buffer: Seq::empty(),
            ..self
        }
    }

    /// The terminator was seen: the entry in progress goes to the absentees,
    /// whatever was being collected, and the pass is done.
    pub open spec fn close_absentees(self) -> StateModel {
        StateModel {
            phase: Phase::Done,
            absentees_closed: true,
            absentees: flushed(self.absentees, self.word_buffer),
            word_buffer: Seq::empty(),
            ..self
        }
    }

    /// The line is taken into the list that is being collected, if any: an
    /// ignorable line is passed over, a list item start files the entry in
    /// progress, and the words of the line join the buffer.
    pub open spec fn collect(self, signals: LineClassification, words: Seq<Seq<char>>) -> StateModel {
        match self.phase {
            Phase::CollectingAttendees => if signals.is_ignorable {
                self
            } else if signals.is_list_item_start {
                StateModel {
                    attendees: flushed(self.attendees, self.word_buffer),
                    word_buffer: words,
                    ..self
                }
            } else {
                StateModel { word_buffer: self.word_buffer + words, ..self }
            },
            Phase::CollectingAbsentees => if signals.is_ignorable {
                self
            } else if signals.is_list_item_start {
                StateModel {
                    absentees: flushed(self.absentees, self.word_buffer),
                    word_buffer: words,
                    ..self
                }
            } else {
                StateModel { word_buffer: self.word_buffer + words, ..self }
            },
            _ => self,
        }
    }

    /// The state after a line with the given signals and name words. The three
    /// boundary signals are looked at one after the other, each on the state
    /// that the one before left, and then the line is collected.
    pub open spec fn step(self, signals: LineClassification, words: Seq<Seq<char>>) -> StateModel {
        let opened = if signals.is_attendees_header && !self.attendees_closed {
            self.open_attendees()
        } else {
            self
        };
        let switched = if signals.is_absentees_header && !opened.absentees_closed {
            opened.close_attendees()
        } else {
            opened
        };
        let closed = if signals.is_terminator {
            switched.close_absentees()
        } else {
            switched
        };
        closed.collect(signals, words)
    }

    /// The state after the raw line `line`: a line that is blank once trimmed
    /// changes nothing, any other is classified and taken in trimmed.
    pub open spec fn feed(self, line: Seq<char>) -> StateModel {
        let trimmed = trim_of(line);
        if trimmed.len() == 0 {
            self
        } else {
            self.step(classification_of(trimmed), name_words_of(trimmed))
        }
    }

    /// The state after `lines`, fed in order.
    pub open spec fn run(self, lines: Seq<Seq<char>>) -> StateModel
        decreases lines.len(),
    {
        if lines.len() == 0 {
            self
        } else {
            self.run(lines.drop_last()).feed(lines.last())
        }
    }

    /// The two lists of the state. Words that still wait in the buffer are not
    /// part of it.
    pub open spec fn roster(self) -> Roster {
        Roster { attendees: self.attendees, absentees: self.absentees }
    }
}

/// The roster that a sequence of lines gives.
pub open spec fn roster_of_lines(lines: Seq<Seq<char>>) -> Roster {
    StateModel::initial().run(lines).roster()
}

/// The roster that the text of a transcript gives.
pub open spec fn roster_of(content: Seq<char>) -> Roster {
    roster_of_lines(lines_of(content))
}

/// The attendance of one sitting: the names of the members present and of the
/// members absent, each in the order of the document.
#[derive(Debug, PartialEq, Eq)]
pub struct ParliamentMeeting {
    pub attendees: Vec<String>,
    pub absentees: Vec<String>,
}

impl View for ParliamentMeeting {
    type V = Roster;

    open spec fn view(&self) -> Roster {
        Roster { attendees: self.attendees.deep_view(), absentees: self.absentees.deep_view() }
    }
}

/// The state of one pass over one document.
pub struct ParserState {
    phase: Phase,
    attendees_closed: bool,
    absentees_closed: bool,
    word_buffer: Vec<String>,
    attendees: Vec<String>,
    absentees: Vec<String>,
}

impl View for ParserState {
    type V = StateModel;

    closed spec fn view(&self) -> StateModel {
        StateModel {
            phase: self.phase,
            attendees_closed: self.attendees_closed,
            absentees_closed: self.absentees_closed,
            word_buffer: self.word_buffer.deep_view(),
            attendees: self.attendees.deep_view(),
            absentees: self.absentees.deep_view(),
        }
    }
}

/// Files the words in `buffer` as one entry of `list` and empties the buffer.
fn flush(list: &mut Vec<String>, buffer: &mut Vec<String>)
    ensures
        final(list).deep_view() == flushed(old(list).deep_view(), old(buffer).deep_view()),
        final(buffer).deep_view() == Seq::<Seq<char>>::empty(),
{
    if buffer.len() > 0 {
        let entry = join(buffer);
        let ghost before = list.deep_view();
        list.push(entry);
        assert(list.deep_view() =~= before.push(entry@));
        buffer.clear();
    }
    assert(buffer.deep_view() =~= Seq::<Seq<char>>::empty());
}

/// Moves `words` to the end of `buffer`.
fn take_in(buffer: &mut Vec<String>, words: Vec<String>)
    ensures
        final(buffer).deep_view() == old(buffer).deep_view() + words.deep_view(),
{
    let mut words = words;
    let ghost before = buffer.deep_view();
    let ghost added = words.deep_view();
    buffer.append(&mut words);
    assert(buffer.deep_view() =~= before + added);
}

impl ParserState {
    /// The state before the first line.
    pub fn new() -> (state: ParserState)
        ensures
            state@ == StateModel::initial(),
    {
        let state = ParserState {
            phase: Phase::SeekingAttendees,
            attendees_closed: false,
            absentees_closed: false,
            word_buffer: Vec::new(),
            attendees: Vec::new(),
            absentees: Vec::new(),
        };
        assert(state.word_buffer.deep_view() =~= Seq::empty());
        assert(state.attendees.deep_view() =~= Seq::empty());
        assert(state.absentees.deep_view() =~= Seq::empty());
        state
    }

    /// The stage that the pass has reached.
    pub fn phase(&self) -> (phase: Phase)
        ensures
            phase == self@.phase,
    {
        self.phase
    }

    /// Takes in one line, given by its signals and its name words.
    pub fn advance(&mut self, signals: LineClassification, words: Vec<String>)
        ensures
            final(self)@ == old(self)@.step(signals, words.deep_view()),
    {
        if signals.is_attendees_header && !self.attendees_closed {
            match self.phase {
                Phase::SeekingAttendees => {
                    self.phase = Phase::CollectingAttendees;
                },
                _ => {},
            }
        }
        if signals.is_absentees_header && !self.absentees_closed {
            flush(&mut self.attendees, &mut self.word_buffer);
            self.attendees_closed = true;
            self.phase = Phase::CollectingAbsentees;
        }
        if signals.is_terminator {
            flush(&mut self.absentees, &mut self.word_buffer);
            self.absentees_closed = true;
            self.phase = Phase::Done;
        }
        match self.phase {
            Phase::CollectingAttendees => {
                if !signals.is_ignorable {
                    if signals.is_list_item_start {
                        flush(&mut self.attendees, &mut self.word_buffer);
                    }
                    take_in(&mut self.word_buffer, words);
                }
            },
            Phase::CollectingAbsentees => {
                if !signals.is_ignorable {
                    if signals.is_list_item_start {
                        flush(&mut self.absentees, &mut self.word_buffer);
                    }
                    take_in(&mut self.word_buffer, words);
                }
            },
            _ => {},
        }
    }

    /// Takes in one raw line of the document.
    pub fn feed_line(&mut self, tables: &PatternTables, line: &str)
        ensures
            final(self)@ == old(self)@.feed(line@),
    {
        let trimmed = trim(line);
        if trimmed.is_empty() {
            return ;
        }
        let signals = classify(tables, trimmed);
        let words = get_name_words(tables, trimmed);
        self.advance(signals, words);
    }

    /// Ends the pass and hands out the two lists. An entry that was still in
    /// progress is not filed.
    pub fn finish(self) -> (meeting: ParliamentMeeting)
        ensures
            meeting@ == self@.roster(),
    {
        ParliamentMeeting { attendees: self.attendees, absentees: self.absentees }
    }
}

/// Reads the roster out of the lines of a transcript.
pub fn parse_lines(tables: &PatternTables, lines: &Vec<String>) -> (meeting: ParliamentMeeting)
    ensures
        meeting@ == roster_of_lines(lines.deep_view()),
{
    let mut state = ParserState::new();
    let mut i: usize = 0;
    while i < lines.len()
        invariant
            i <= lines.len(),
            state@ == StateModel::initial().run(lines.deep_view().take(i as int)),
        decreases lines.len() - i,
    {
        let ghost upto = lines.deep_view().take(i + 1);
        assert(upto.drop_last() =~= lines.deep_view().take(i as int));
        assert(upto.last() == lines[i as int]@);
        state.feed_line(tables, lines[i].as_str());
        i += 1;
    }
    assert(lines.deep_view().take(lines.len() as int) =~= lines.deep_view());
    state.finish()
}

/// Reads the roster out of the text of a transcript.
pub fn parse(tables: &PatternTables, content: String) -> (meeting: ParliamentMeeting)
    ensures
        meeting@ == roster_of(content@),
{
    let lines = split_lines(content.as_str());
    parse_lines(tables, &lines)
}

} // verus!
