use vstd::prelude::*;
use crate::errors::ProcessingError;
use crate::text::{
    byte_size, char_frequencies, count_lines, count_words, is_frequency_table, line_count_of,
    utf8_len, word_count_of,
};

verus! {

/// Figures measured on one file's text.
#[derive(Debug, Clone)]
pub struct FileStats {
    pub word_count: usize,
    pub line_count: usize,
    pub char_frequencies: Vec<(char, usize)>,
    pub size_bytes: u64,
}

/// The record of one task: the file's name, its figures, what went wrong, and
/// how long the task took.
#[derive(Debug, Clone)]
pub struct FileAnalysis {
    pub filename: String,
    pub stats: FileStats,
    pub errors: Vec<ProcessingError>,
    pub processing_time: std::time::Duration,
}

/// Relies on `Duration` being `Copy`: a clone is the same span.
pub assume_specification[ <std::time::Duration as Clone>::clone ](d: &std::time::Duration) -> (r:
    std::time::Duration)
    ensures
        r == *d,
;

/// Relies on `str::chars`: it yields the characters of the text in order.
#[verifier::external_body]
pub(crate) fn chars_of(s: &str) -> (r: Vec<char>)
    ensures
        r@ == s@,
{
    s.chars().collect()
}

impl FileStats {
    /// The figures measured on `text`.
    pub open spec fn describes(self, text: Seq<char>) -> bool {
        &&& self.word_count == word_count_of(text)
        &&& self.line_count == line_count_of(text)
        &&& self.size_bytes == utf8_len(text)
        &&& is_frequency_table(self.char_frequencies@, text)
    }

    /// All figures zero, no characters counted.
    pub open spec fn is_empty(self) -> bool {
        &&& self.word_count == 0
        &&& self.line_count == 0
        &&& self.size_bytes == 0
        &&& self.char_frequencies@.len() == 0
    }

    /// Figures of a task that measured nothing.
    pub fn empty() -> (r: FileStats)
        ensures
            r.is_empty(),
    {
        FileStats { word_count: 0, line_count: 0, char_frequencies: Vec::new(), size_bytes: 0 }
    }

    /// Measures `text`: words as `split_whitespace` splits them, lines as
    /// `lines` yields them, its UTF-8 size, and how often each character occurs.
    pub fn of_text(text: &str) -> (r: FileStats)
        requires
            4 * text@.len() <= u64::MAX,
        ensures
            r.describes(text@),
    {
        let chars = chars_of(text);
        FileStats {
            word_count: count_words(&chars),
            line_count: count_lines(&chars),
            char_frequencies: char_frequencies(&chars),
            size_bytes: byte_size(&chars),
        }
    }
}

} // verus!
