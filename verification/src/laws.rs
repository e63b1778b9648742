//! What holds of the roster state machine on every input.

use vstd::prelude::*;
use crate::classify::{
    absentees_header_in, attendees_header_in, classification_of, name_words_of,
    LineClassification,
};
use crate::patterns::{is_boilerplate, is_page_artifact};
use crate::roster::{flushed, rank, roster_of, roster_of_lines, Roster, StateModel};
use crate::text::{join_words, trim_of, white_space};

verus! {

/// A step leads from a well-formed state to a well-formed state.
pub proof fn lemma_step_keeps_wf(s: StateModel, signals: LineClassification, words: Seq<Seq<char>>)
    requires
        s.wf(),
    ensures
        s.step(signals, words).wf(),
{
}

/// Every state of a pass that began in a well-formed state is well-formed.
pub proof fn lemma_run_keeps_wf(s: StateModel, lines: Seq<Seq<char>>)
    requires
        s.wf(),
    ensures
        s.run(lines).wf(),
    decreases lines.len(),
{
    if lines.len() > 0 {
        let before = s.run(lines.drop_last());
        let trimmed = trim_of(lines.last());
        lemma_run_keeps_wf(s, lines.drop_last());
        lemma_step_keeps_wf(before, classification_of(trimmed), name_words_of(trimmed));
    }
}

/// The phase only moves forward, and a list that is closed stays closed and is
/// never collected again.
pub proof fn lemma_step_moves_forward(
    s: StateModel,
    signals: LineClassification,
    words: Seq<Seq<char>>,
)
    requires
        s.wf(),
    ensures
        rank(s.phase) <= rank(s.step(signals, words).phase),
        s.attendees_closed ==> s.step(signals, words).attendees_closed,
        s.attendees_closed ==> !(s.step(signals, words).phase is CollectingAttendees),
        s.absentees_closed ==> s.step(signals, words).absentees_closed,
        s.absentees_closed ==> !(s.step(signals, words).phase is CollectingAbsentees),
{
}

/// Over a whole pass the phase only moves forward, and a list that is closed
/// stays closed.
pub proof fn lemma_run_moves_forward(s: StateModel, lines: Seq<Seq<char>>)
    requires
        s.wf(),
    ensures
        rank(s.phase) <= rank(s.run(lines).phase),
        s.attendees_closed ==> s.run(lines).attendees_closed,
        s.absentees_closed ==> s.run(lines).absentees_closed,
    decreases lines.len(),
{
    if lines.len() > 0 {
        let before = s.run(lines.drop_last());
        let trimmed = trim_of(lines.last());
        lemma_run_moves_forward(s, lines.drop_last());
        lemma_run_keeps_wf(s, lines.drop_last());
        lemma_step_moves_forward(before, classification_of(trimmed), name_words_of(trimmed));
    }
}

/// A step changes the lists only at their ends, and only by the entry that was
/// in progress before it: each list stays as it is or gains that one entry, and
/// never both gain it.
pub proof fn lemma_step_appends_buffered_entry(
    s: StateModel,
    signals: LineClassification,
    words: Seq<Seq<char>>,
)
    ensures
        ({
            let after = s.step(signals, words);
            let entry = join_words(s.word_buffer);
            &&& after.attendees == s.attendees || after.attendees == s.attendees.push(entry)
            &&& after.absentees == s.absentees || after.absentees == s.absentees.push(entry)
            &&& after.attendees == s.attendees || after.absentees == s.absentees
        }),
{
}

/// The lists keep the order of the lines: what a pass has filed after the
/// first `k` lines stands, unchanged and in the same order, at the front of
/// what it has filed after all of them.
pub proof fn lemma_entries_keep_line_order(lines: Seq<Seq<char>>, k: int)
    requires
        0 <= k <= lines.len(),
    ensures
        roster_of_lines(lines.take(k)).attendees.is_prefix_of(roster_of_lines(lines).attendees),
        roster_of_lines(lines.take(k)).absentees.is_prefix_of(roster_of_lines(lines).absentees),
    decreases lines.len() - k,
{
    if k == lines.len() {
        assert(lines.take(k) =~= lines);
    } else {
        let shorter = lines.drop_last();
        let before = StateModel::initial().run(shorter);
        let trimmed = trim_of(lines.last());
        lemma_entries_keep_line_order(shorter, k);
        assert(shorter.take(k) =~= lines.take(k));
        lemma_step_appends_buffered_entry(
            before,
            classification_of(trimmed),
            name_words_of(trimmed),
        );
    }
}

/// Where no line is an attendees header or an absentees header, both lists are
/// empty.
pub proof fn lemma_no_header_no_entry(lines: Seq<Seq<char>>)
    requires
        forall|i: int|
            0 <= i < lines.len() ==> !attendees_header_in(trim_of(#[trigger] lines[i]))
                && !absentees_header_in(trim_of(lines[i])),
    ensures
        roster_of_lines(lines) == (Roster { attendees: Seq::empty(), absentees: Seq::empty() }),
{
    lemma_no_header_nothing_collected(lines);
}

proof fn lemma_no_header_nothing_collected(lines: Seq<Seq<char>>)
    requires
        forall|i: int|
            0 <= i < lines.len() ==> !attendees_header_in(trim_of(#[trigger] lines[i]))
                && !absentees_header_in(trim_of(lines[i])),
    ensures
        ({
            let end = StateModel::initial().run(lines);
            &&& end.phase is SeekingAttendees || end.phase is Done
            &&& end.word_buffer == Seq::<Seq<char>>::empty()
            &&& end.attendees == Seq::<Seq<char>>::empty()
            &&& end.absentees == Seq::<Seq<char>>::empty()
        }),
    decreases lines.len(),
{
    if lines.len() > 0 {
        let shorter = lines.drop_last();
        assert forall|i: int| 0 <= i < shorter.len() implies !attendees_header_in(
            trim_of(#[trigger] shorter[i]),
        ) && !absentees_header_in(trim_of(shorter[i])) by {
            assert(shorter[i] == lines[i]);
        }
        lemma_no_header_nothing_collected(shorter);
        assert(lines.last() == lines[lines.len() - 1]);
    }
}

/// The roster is a function of the text alone: two runs on the same text give
/// the same two lists.
pub proof fn lemma_same_text_same_roster(first: Seq<char>, second: Seq<char>)
    requires
        first == second,
    ensures
        roster_of(first) == roster_of(second),
{
}

/// `after` holds no word that `before` did not hold: the buffer is as it was or
/// empty, and each list is as it was or has gained the entry that was in
/// progress.
pub open spec fn takes_no_words(before: StateModel, after: StateModel) -> bool {
    let entry = join_words(before.word_buffer);
    &&& after.word_buffer == before.word_buffer || after.word_buffer == Seq::<Seq<char>>::empty()
    &&& after.attendees == before.attendees || after.attendees == before.attendees.push(entry)
    &&& after.absentees == before.absentees || after.absentees == before.absentees.push(entry)
}

/// The words of an ignorable line go nowhere, in whatever phase it is read: the
/// step is the one that the same signals make without any words.
pub proof fn lemma_ignorable_adds_no_words(
    s: StateModel,
    signals: LineClassification,
    words: Seq<Seq<char>>,
)
    requires
        signals.is_ignorable,
    ensures
        s.step(signals, words) == s.step(signals, Seq::empty()),
        takes_no_words(s, s.step(signals, words)),
{
}

/// An ignorable line that is no boundary changes nothing at all.
pub proof fn lemma_ignorable_line_between_boundaries_changes_nothing(
    s: StateModel,
    signals: LineClassification,
    words: Seq<Seq<char>>,
)
    requires
        signals.is_ignorable,
        !signals.is_attendees_header,
        !signals.is_absentees_header,
        !signals.is_terminator,
    ensures
        s.step(signals, words) == s,
{
}

/// A boilerplate line neither begins nor ends with white space, so trimming
/// leaves it as it is.
pub proof fn lemma_boilerplate_is_trimmed(line: Seq<char>)
    requires
        is_boilerplate(line),
    ensures
        trim_of(line) == line,
        line.len() > 0,
{
    reveal_strlit("DR.");
    reveal_strlit("Ahli-ahli Yang Hadir:");
    reveal_strlit("Senator Yang Turut Hadir:");
    reveal_strlit("Ahli-ahli Yang Tidak Hadir:");
    reveal_strlit("Ahli-Ahli Yang Tidak Hadir:");
    reveal_strlit("Ahli-Ahli Yang Tidak Hadir Di Bawah Peraturan Mesyuarat 91");
    assert(!white_space(line.first()));
    assert(!white_space(line.last()));
}

/// A line that is one of the boilerplate lines, as it stands or once trimmed,
/// adds no words to the buffer or to either list, in whatever phase it is
/// read.
pub proof fn lemma_boilerplate_adds_no_words(s: StateModel, line: Seq<char>)
    requires
        is_boilerplate(line) || is_boilerplate(trim_of(line)),
    ensures
        takes_no_words(s, s.feed(line)),
{
    if is_boilerplate(line) {
        lemma_boilerplate_is_trimmed(line);
    }
    let trimmed = trim_of(line);
    if trimmed.len() > 0 {
        lemma_ignorable_adds_no_words(s, classification_of(trimmed), name_words_of(trimmed));
    }
}

/// A line that holds a running page header or footer adds no words to the
/// buffer or to either list, in whatever phase it is read.
pub proof fn lemma_page_artifact_adds_no_words(s: StateModel, line: Seq<char>)
    requires
        is_page_artifact(trim_of(line)),
    ensures
        takes_no_words(s, s.feed(line)),
{
    let trimmed = trim_of(line);
    if trimmed.len() > 0 {
        lemma_ignorable_adds_no_words(s, classification_of(trimmed), name_words_of(trimmed));
    }
}

/// While a list is collected, a list item start that is neither ignorable nor a
/// boundary files the entry in progress under that list and begins the next
/// entry with its own words.
pub proof fn lemma_list_item_starts_entry(
    s: StateModel,
    signals: LineClassification,
    words: Seq<Seq<char>>,
)
    requires
        s.phase is CollectingAttendees || s.phase is CollectingAbsentees,
        signals.is_list_item_start,
        !signals.is_ignorable,
        !signals.is_absentees_header,
        !signals.is_terminator,
    ensures
        s.step(signals, words).word_buffer == words,
        s.step(signals, words).phase == s.phase,
        s.phase is CollectingAttendees ==> s.step(signals, words).attendees == flushed(
            s.attendees,
            s.word_buffer,
        ) && s.step(signals, words).absentees == s.absentees,
        s.phase is CollectingAbsentees ==> s.step(signals, words).absentees == flushed(
            s.absentees,
            s.word_buffer,
        ) && s.step(signals, words).attendees == s.attendees,
{
}

/// While a list is collected, a line that is neither ignorable nor a list item
/// start nor a boundary continues the entry in progress: its words follow those
/// in the buffer, and nothing is filed.
pub proof fn lemma_wrapped_line_continues_entry(
    s: StateModel,
    signals: LineClassification,
    words: Seq<Seq<char>>,
)
    requires
        s.phase is CollectingAttendees || s.phase is CollectingAbsentees,
        !signals.is_list_item_start,
        !signals.is_ignorable,
        !signals.is_absentees_header,
        !signals.is_terminator,
    ensures
        s.step(signals, words).word_buffer == s.word_buffer + words,
        s.step(signals, words).phase == s.phase,
        s.step(signals, words).attendees == s.attendees,
        s.step(signals, words).absentees == s.absentees,
{
}

/// The terminator files the entry in progress under the absentees, also where
/// the attendees were still being collected, and ends the pass. The one
/// exception is a line that is an absentees header as well, read while the
/// absentees are open: there the header has filed the entry before.
pub proof fn lemma_terminator_files_under_absentees(
    s: StateModel,
    signals: LineClassification,
    words: Seq<Seq<char>>,
)
    requires
        signals.is_terminator,
        !(signals.is_absentees_header && !s.absentees_closed),
    ensures
        s.step(signals, words).absentees == flushed(s.absentees, s.word_buffer),
        s.step(signals, words).attendees == s.attendees,
        s.step(signals, words).word_buffer == Seq::<Seq<char>>::empty(),
        s.step(signals, words).phase is Done,
        s.step(signals, words).absentees_closed,
{
}

} // verus!
