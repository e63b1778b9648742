//! The fixed pattern tables: the boilerplate lines, and the three regular
//! expressions, which the `regex` crate compiles and runs.
//!
//! What the engine answers is not restated here. Each of its answers has a
//! name, a spec function without a body, and the contracts of this library
//! speak of the answers by those names.

use vstd::prelude::*;
use regex::Regex;
use crate::text::{contains_text, same_text};

verus! {

/// A compiled regular expression of the `regex` crate. Nothing of its inside
/// is known here.
#[verifier::external_type_specification]
#[verifier::external_body]
pub struct ExRegex(regex::Regex);

/// The error with which the `regex` crate refuses a pattern. Nothing of its
/// inside is known here.
#[verifier::external_type_specification]
#[verifier::external_body]
pub struct ExRegexError(regex::Error);

/// A running page header or footer: the marker `DR.`, a date written as
/// day.month.year, and a page number.
pub const PAGE_ARTIFACT_PATTERN: &'static str = r"DR\. +\d{1,2}\.\d{1,2}\.\d{1,4} +\d+";

/// The marker of a numbered list at the start of a line: digits, a period and
/// white space.
pub const LIST_ITEM_START_PATTERN: &'static str = r"^\d+\.\s";

/// A run of name text: an uppercase letter or an open parenthesis, followed by
/// word characters, commas, apostrophes, parentheses, `@`, slashes, periods,
/// hyphens and spaces.
pub const NAME_SPAN_PATTERN: &'static str = r"[A-Z(][\w,’'()@/\.\- ]+";

/// Boilerplate: the marker of a page header that was cut off its date.
pub const BOILERPLATE_MARKER: &'static str = "DR.";

/// Boilerplate: the heading of the members present.
pub const BOILERPLATE_PRESENT: &'static str = "Ahli-ahli Yang Hadir:";

/// Boilerplate: the heading of the senators who attend as well.
pub const BOILERPLATE_SENATORS: &'static str = "Senator Yang Turut Hadir:";

/// Boilerplate: the heading of the members absent.
pub const BOILERPLATE_ABSENT: &'static str = "Ahli-ahli Yang Tidak Hadir:";

/// Boilerplate: the heading of the members absent, in its other casing.
pub const BOILERPLATE_ABSENT_CAPITALISED: &'static str = "Ahli-Ahli Yang Tidak Hadir:";

/// Boilerplate: the heading of the members absent under the standing order.
pub const BOILERPLATE_ABSENT_STANDING_ORDER: &'static str =
    "Ahli-Ahli Yang Tidak Hadir Di Bawah Peraturan Mesyuarat 91";

/// Whether the engine accepts `pattern`: whether `Regex::new` returns a regex
/// for it and not an error.
pub uninterp spec fn pattern_accepted(pattern: Seq<char>) -> bool;

/// The regex that `Regex::new` makes of `pattern`, where it makes one.
pub uninterp spec fn compiled(pattern: Seq<char>) -> Regex;

/// Whether `re` matches anywhere in `text`: the answer of `Regex::is_match`.
pub uninterp spec fn regex_is_match(re: Regex, text: Seq<char>) -> bool;

/// The part of `text` that the leftmost match of `re` covers, if there is a
/// match: group 0 of what `Regex::captures` returns.
pub uninterp spec fn regex_first_match(re: Regex, text: Seq<char>) -> Option<Seq<char>>;

/// `line` holds a running page header or footer.
pub open spec fn is_page_artifact(line: Seq<char>) -> bool {
    regex_is_match(compiled(PAGE_ARTIFACT_PATTERN@), line)
}

/// `line` begins with the marker of a numbered list.
pub open spec fn is_list_item_start(line: Seq<char>) -> bool {
    regex_is_match(compiled(LIST_ITEM_START_PATTERN@), line)
}

/// The first run of name text in `line`, if it has one.
pub open spec fn name_span_of(line: Seq<char>) -> Option<Seq<char>> {
    regex_first_match(compiled(NAME_SPAN_PATTERN@), line)
}

/// `line` is, letter for letter and as a whole, one of the boilerplate lines.
pub open spec fn is_boilerplate(line: Seq<char>) -> bool {
    ||| line == BOILERPLATE_MARKER@
    ||| line == BOILERPLATE_PRESENT@
    ||| line == BOILERPLATE_SENATORS@
    ||| line == BOILERPLATE_ABSENT@
    ||| line == BOILERPLATE_ABSENT_CAPITALISED@
    ||| line == BOILERPLATE_ABSENT_STANDING_ORDER@
}

/// Calls `Regex::new`, which reads nothing but the pattern. Whether it returns
/// a regex is what `pattern_accepted` names, and the regex is the one that
/// `compiled` names.
#[verifier::external_body]
fn compile(pattern: &str) -> (made: Result<Regex, regex::Error>)
    ensures
        made is Ok <==> pattern_accepted(pattern@),
        made matches Ok(re) ==> re == compiled(pattern@),
{
    Regex::new(pattern)
}

/// Calls `Regex::is_match`, whose answer is what `regex_is_match` names.
#[verifier::external_body]
fn matches_anywhere(re: &Regex, text: &str) -> (found: bool)
    ensures
        found == regex_is_match(*re, text@),
{
    re.is_match(text)
}

/// Calls `Regex::captures` and copies group 0, the whole match, which every
/// match has. The result is what `regex_first_match` names, and a match is a
/// part of the text that was searched.
#[verifier::external_body]
fn first_match(re: &Regex, text: &str) -> (span: Option<String>)
    ensures
        match span {
            Some(found) => regex_first_match(*re, text@) == Some(found@) && contains_text(
                text@,
                found@,
            ),
            None => regex_first_match(*re, text@) is None,
        },
{
    match re.captures(text) {
        Some(groups) => Some(groups[0].to_string()),
        None => None,
    }
}

/// Whether `line` is one of the boilerplate lines. The comparison is exact:
/// case counts, and so does every character of the line.
pub fn is_boilerplate_line(line: &str) -> (hit: bool)
    ensures
        hit == is_boilerplate(line@),
{
    same_text(line, BOILERPLATE_MARKER)
        || same_text(line, BOILERPLATE_PRESENT)
        || same_text(line, BOILERPLATE_SENATORS)
        || same_text(line, BOILERPLATE_ABSENT)
        || same_text(line, BOILERPLATE_ABSENT_CAPITALISED)
        || same_text(line, BOILERPLATE_ABSENT_STANDING_ORDER)
}

/// The three compiled patterns. A value of this type always holds the fixed
/// patterns of this module, each in its place; it is made once and handed on by
/// reference.
pub struct PatternTables {
    page_artifact: Regex,
    list_item_start: Regex,
    name_span: Regex,
}

impl PatternTables {
    #[verifier::type_invariant]
    spec fn holds_fixed_patterns(&self) -> bool {
        self@ == fixed_patterns()
    }

    /// The tables made of three compilation results: there are tables exactly
    /// when all three patterns compiled.
    fn assemble(
        page_artifact: Result<Regex, regex::Error>,
        list_item_start: Result<Regex, regex::Error>,
        name_span: Result<Regex, regex::Error>,
    ) -> (tables: Option<PatternTables>)
        requires
            page_artifact matches Ok(re) ==> re == compiled(PAGE_ARTIFACT_PATTERN@),
            list_item_start matches Ok(re) ==> re == compiled(LIST_ITEM_START_PATTERN@),
            name_span matches Ok(re) ==> re == compiled(NAME_SPAN_PATTERN@),
        ensures
            tables is Some <==> page_artifact is Ok && list_item_start is Ok && name_span is Ok,
            tables matches Some(made) ==> made@ == fixed_patterns(),
    {
        match (page_artifact, list_item_start, name_span) {
            (Ok(page_artifact), Ok(list_item_start), Ok(name_span)) => Some(
                PatternTables { page_artifact, list_item_start, name_span },
            ),
            _ => None,
        }
    }

    /// Compiles the three fixed patterns. There are tables exactly when the
    /// engine accepts all three, and they hold, each in its place, the regexes
    /// that it makes of them.
    pub fn new() -> (tables: Option<PatternTables>)
        ensures
            tables is Some <==> pattern_accepted(PAGE_ARTIFACT_PATTERN@) && pattern_accepted(
                LIST_ITEM_START_PATTERN@,
            ) && pattern_accepted(NAME_SPAN_PATTERN@),
            tables matches Some(made) ==> made@ == fixed_patterns(),
    {
        PatternTables::assemble(
            compile(PAGE_ARTIFACT_PATTERN),
            compile(LIST_ITEM_START_PATTERN),
            compile(NAME_SPAN_PATTERN),
        )
    }

    /// Whether `line` holds a running page header or footer.
    pub fn matches_page_artifact(&self, line: &str) -> (hit: bool)
        ensures
            hit == is_page_artifact(line@),
    {
        proof {
            use_type_invariant(self);
        }
        matches_anywhere(&self.page_artifact, line)
    }

    /// Whether `line` begins with the marker of a numbered list.
    pub fn matches_list_item_start(&self, line: &str) -> (hit: bool)
        ensures
            hit == is_list_item_start(line@),
    {
        proof {
            use_type_invariant(self);
        }
        matches_anywhere(&self.list_item_start, line)
    }

    /// The first run of name text in `line`, if it has one. The run is a part
    /// of the line.
    pub fn name_span(&self, line: &str) -> (span: Option<String>)
        ensures
            span is Some <==> name_span_of(line@) is Some,
            span matches Some(found) ==> name_span_of(line@) == Some(found@),
            span matches Some(found) ==> contains_text(line@, found@),
    {
        proof {
            use_type_invariant(self);
        }
        first_match(&self.name_span, line)
    }
}

/// The mathematical value of a `PatternTables`: its three regexes.
pub struct PatternModel {
    pub page_artifact: Regex,
    pub list_item_start: Regex,
    pub name_span: Regex,
}

/// The regexes that the engine makes of the three fixed patterns.
pub open spec fn fixed_patterns() -> PatternModel {
    PatternModel {
        page_artifact: compiled(PAGE_ARTIFACT_PATTERN@),
        list_item_start: compiled(LIST_ITEM_START_PATTERN@),
        name_span: compiled(NAME_SPAN_PATTERN@),
    }
}

impl View for PatternTables {
    type V = PatternModel;

    closed spec fn view(&self) -> PatternModel {
        PatternModel {
            page_artifact: self.page_artifact,
            list_item_start: self.list_item_start,
            name_span: self.name_span,
        }
    }
}

} // verus!
