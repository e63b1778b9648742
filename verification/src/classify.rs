//! The line classifier and the name token extractor.

use vstd::prelude::*;
use crate::patterns::{
    is_boilerplate, is_boilerplate_line, is_list_item_start, is_page_artifact, name_span_of,
    PatternTables,
};
use crate::text::{
    all_occur_in, contains, contains_text, lemma_contains_text_is_transitive, lemma_words_occur,
    lowercased, split_words, to_lowercase, trim, trim_of, words_of,
};

verus! {

/// The phrase that opens the list of members present, in lower case.
pub const ATTENDEES_HEADER: &'static str = "ahli-ahli yang hadir:";

/// The phrase that opens the list of members absent, in lower case.
pub const ABSENTEES_HEADER: &'static str = "ahli-ahli yang tidak hadir:";

/// The token that closes the roster: the country's name in capitals.
pub const MALAYSIA: &'static str = "MALAYSIA";

/// The structural signals that one line carries. They do not exclude one
/// another.
#[derive(Clone, Copy, Debug, PartialEq, Eq, Structural)]
pub struct LineClassification {
    pub is_attendees_header: bool,
    pub is_absentees_header: bool,
    pub is_terminator: bool,
    pub is_ignorable: bool,
    pub is_list_item_start: bool,
}

/// `line`, trimmed and in lower case, holds the phrase for the members present.
pub open spec fn attendees_header_in(line: Seq<char>) -> bool {
    contains_text(lowercased(trim_of(line)), ATTENDEES_HEADER@)
}

/// `line`, trimmed and in lower case, holds the phrase for the members absent.
pub open spec fn absentees_header_in(line: Seq<char>) -> bool {
    contains_text(lowercased(trim_of(line)), ABSENTEES_HEADER@)
}

/// `line` holds the closing token, in capitals.
pub open spec fn terminator_in(line: Seq<char>) -> bool {
    contains_text(line, MALAYSIA@)
}

/// `line` is boilerplate or holds a page header or footer.
pub open spec fn is_ignorable(line: Seq<char>) -> bool {
    is_page_artifact(line) || is_boilerplate(line)
}

/// The words of the first run of name text in `line`; none where it has no
/// such run.
pub open spec fn name_words_of(line: Seq<char>) -> Seq<Seq<char>> {
    match name_span_of(line) {
        Some(span) => words_of(span),
        None => Seq::empty(),
    }
}

/// The signals of `line`.
pub open spec fn classification_of(line: Seq<char>) -> LineClassification {
    LineClassification {
        is_attendees_header: attendees_header_in(line),
        is_absentees_header: absentees_header_in(line),
        is_terminator: terminator_in(line),
        is_ignorable: is_ignorable(line),
        is_list_item_start: is_list_item_start(line),
    }
}

/// Whether `line` opens the list of members present. Case and surrounding text
/// do not matter.
pub fn is_attendees_header(line: &str) -> (hit: bool)
    ensures
        hit == attendees_header_in(line@),
{
    let lower = to_lowercase(trim(line));
    contains(lower.as_str(), ATTENDEES_HEADER)
}

/// Whether `line` opens the list of members absent. Case and surrounding text
/// do not matter.
pub fn is_absentees_header(line: &str) -> (hit: bool)
    ensures
        hit == absentees_header_in(line@),
{
    let lower = to_lowercase(trim(line));
    contains(lower.as_str(), ABSENTEES_HEADER)
}

/// Whether `line` closes the roster.
pub fn is_terminator(line: &str) -> (hit: bool)
    ensures
        hit == terminator_in(line@),
{
    contains(line, MALAYSIA)
}

/// Whether `line` is to be passed over while names are collected.
pub fn should_ignore_line(tables: &PatternTables, line: &str) -> (ignore: bool)
    ensures
        ignore == is_ignorable(line@),
{
    if tables.matches_page_artifact(line) {
        return true;
    }
    is_boilerplate_line(line)
}

/// Whether `line` begins a new numbered entry.
pub fn is_start_of_new_person(tables: &PatternTables, line: &str) -> (hit: bool)
    ensures
        hit == is_list_item_start(line@),
{
    tables.matches_list_item_start(line)
}

/// The words of a run of name text, or no words where there is no run.
pub fn words_of_span(span: Option<String>) -> (words: Vec<String>)
    ensures
        words.deep_view() == match span {
            Some(found) => words_of(found@),
            None => Seq::empty(),
        },
{
    match span {
        Some(found) => split_words(found.as_str()),
        None => {
            let words: Vec<String> = Vec::new();
            assert(words.deep_view() =~= Seq::empty());
            words
        },
    }
}

/// The name words of `line`: the first run of name text, cut at single spaces.
/// Every word is a part of the line.
pub fn get_name_words(tables: &PatternTables, line: &str) -> (words: Vec<String>)
    ensures
        words.deep_view() == name_words_of(line@),
        name_span_of(line@) matches Some(span) ==> contains_text(line@, span),
        all_occur_in(words.deep_view(), line@),
{
    let span = tables.name_span(line);
    proof {
        if let Some(found) = name_span_of(line@) {
            lemma_words_occur(found);
            assert forall|i: int| 0 <= i < words_of(found).len() implies contains_text(
                line@,
                #[trigger] words_of(found)[i],
            ) by {
                lemma_contains_text_is_transitive(line@, found, words_of(found)[i]);
            }
        }
    }
    words_of_span(span)
}

/// The signals of `line`, which is expected trimmed and not empty.
pub fn classify(tables: &PatternTables, line: &str) -> (signals: LineClassification)
    ensures
        signals == classification_of(line@),
{
    LineClassification {
        is_attendees_header: is_attendees_header(line),
        is_absentees_header: is_absentees_header(line),
        is_terminator: is_terminator(line),
        is_ignorable: should_ignore_line(tables, line),
        is_list_item_start: is_start_of_new_person(tables, line),
    }
}

} // verus!
