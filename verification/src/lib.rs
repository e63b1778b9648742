//! Reads the attendance roster of a sitting of the Dewan Rakyat out of the
//! plain text of its transcript: the members present and the members absent,
//! each as a list of names in the order of the document.

pub mod classify;
pub mod laws;
pub mod paths;
pub mod patterns;
pub mod roster;
pub mod text;

pub use classify::{
    classify, get_name_words, is_absentees_header, is_attendees_header, is_start_of_new_person,
    is_terminator, should_ignore_line, LineClassification,
};
pub use patterns::PatternTables;
pub use roster::{parse, parse_lines, ParliamentMeeting, ParserState, Phase};
pub use paths::get_out_json_path;
