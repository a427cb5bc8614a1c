//! The history of the G-code commands executed by the printer.
use std::ops::Range;

use vstd::prelude::*;
use vstd::string::StringSliceAdditionalSpecFns;
use vstd::utf8::{encode_utf8, is_char_boundary};

use crate::utils::text::{
    lemma_char_boundary_after_ascii, lemma_line_feeds_len, lemma_line_feeds_positions, lemma_line_feeds_prefix, spec_line_feeds,
    spec_lines_count, LINE_FEED,
};

verus! {

broadcast use vstd::utf8::encode_utf8_valid_utf8;

/// The bytes of `text` after skipping its first `line_offset` lines (all of `text` when the offset
/// isn't positive, nothing when `text` doesn't have that many line feeds).
pub open spec fn spec_lines_from(text: Seq<u8>, line_offset: int) -> Seq<u8> {
    let line_feeds = spec_line_feeds(text);
    if line_offset <= 0 {
        text
    } else if line_offset <= line_feeds.len() {
        text.subrange(line_feeds[line_offset - 1] + 1, text.len() as int)
    } else {
        Seq::empty()
    }
}

/// This struct keeps track of the G-code commands executed by the printer (basically the ones read
/// from the file system).
///
/// This is useful because the history of commands could be displayed in the control interface
/// program.
pub struct GCodeHistory {
    history: String,
    history_lines_bounds: Range<u32>,
}

impl GCodeHistory {
    /// The lines in the history.
    pub closed spec fn spec_history(&self) -> String {
        self.history
    }

    /// The number of the first line in the history and the number after the last one.
    pub closed spec fn spec_lines_bounds(&self) -> (u32, u32) {
        (self.history_lines_bounds.start, self.history_lines_bounds.end)
    }

    /// The bytes of the lines in the history.
    pub open spec fn spec_history_bytes(&self) -> Seq<u8> {
        encode_utf8(self.spec_history()@)
    }

    /// Returns an empty [`GCodeHistory`].
    ///
    /// # Examples
    /// ```
    /// # use firmware_core::printer::communication::http::other::*;
    /// #
    /// let history = GCodeHistory::new();
    ///
    /// for i in 0..10_000
    /// {
    /// 	assert_eq!(history.get_lines_from_history(i), "");
    /// }
    /// ```
    pub fn new() -> (history: Self)
        ensures
            history.spec_history()@ == Seq::<char>::empty(),
            history.spec_lines_bounds() == (0u32, 0u32),
    {
        Self { history: String::new(), history_lines_bounds: Range { start: 0, end: 0 } }
    }

    /// Add the provided `lines` to the history of commands. You can later retrieve this string
    /// using [`Self::get_lines_from_history`].
    ///
    /// The lines are numbered across the calls: the new lines follow the ones of the previous
    /// call, so a client that polls by line number doesn't miss lines.
    ///
    /// # Warning
    /// Due to the fact that microcontrollers have a low amount of RAM, the old lines you provided in
    /// the last call to this function will be replaces by these new ones. The control interface
    /// program should periodically poll this history to avoid missing some lines.
    ///
    /// # Examples
    /// ```
    /// # use firmware_core::printer::communication::http::other::*;
    /// #
    /// let mut history = GCodeHistory::new();
    ///
    /// history.add_read_lines("G1 X0".to_string());
    /// assert_eq!(history.get_lines_from_history(0), "G1 X0");
    /// history.add_read_lines("G0 Y10".to_string());
    /// assert!(history.get_lines_from_history(0) != "G1 X0");
    /// ```
    pub fn add_read_lines(&mut self, lines: String)
        requires
            old(self).spec_lines_bounds().1 + spec_lines_count(encode_utf8(lines@)) <= u32::MAX,
        ensures
            final(self).spec_history() == lines,
            final(self).spec_lines_bounds() == (
                old(self).spec_lines_bounds().1,
                (old(self).spec_lines_bounds().1 + spec_lines_count(encode_utf8(lines@))) as u32,
            ),
    {
        let lines_count = Self::count_lines(lines.as_str().as_bytes());
        let end = self.history_lines_bounds.end;
        self.history_lines_bounds = Range { start: end, end: end + lines_count as u32 };
        self.history = lines;
    }

    /// Returns the number of lines of `bytes` (see [`spec_lines_count`]).
    fn count_lines(bytes: &[u8]) -> (count: usize)
        ensures
            count == spec_lines_count(bytes@),
    {
        let mut line_feeds: usize = 0;
        let mut i: usize = 0;
        while i < bytes.len()
            invariant
                i <= bytes@.len(),
                line_feeds == spec_line_feeds(bytes@.take(i as int)).len(),
                line_feeds <= i,
            decreases bytes@.len() - i,
        {
            assert(bytes@.take(i + 1).drop_last() =~= bytes@.take(i as int));
            if bytes[i] == LINE_FEED {
                line_feeds = line_feeds + 1;
            }
            i = i + 1;
        }
        assert(bytes@.take(i as int) =~= bytes@);
        proof {
            lemma_line_feeds_len(bytes@);
        }
        if bytes.len() > 0 && bytes[bytes.len() - 1] != LINE_FEED {
            line_feeds + 1
        } else {
            line_feeds
        }
    }

    /// Returns a string containing the `lines` you provided to [`Self::add_read_lines`] whose
    /// number is greater than `start_line_number` (see [`spec_lines_from`]).
    ///
    /// # Examples
    /// ```
    /// # use firmware_core::printer::communication::http::other::*;
    /// #
    /// let mut history = GCodeHistory::new();
    ///
    /// history.add_read_lines("G1 X0\nG1 Y10".to_string());
    /// assert_eq!(history.get_lines_from_history(0), "G1 X0\nG1 Y10");
    /// assert_eq!(history.get_lines_from_history(1), "G1 Y10");
    /// ```
    pub fn get_lines_from_history(&self, start_line_number: u32) -> (lines: &str)
        ensures
            lines.spec_bytes() == spec_lines_from(
                self.spec_history_bytes(),
                start_line_number - self.spec_lines_bounds().0,
            ),
    {
        let history = self.history.as_str();
        let bytes = history.as_bytes();
        let ghost text = bytes@;
        assert(text == self.spec_history_bytes());
        let line_offset = start_line_number.saturating_sub(self.history_lines_bounds.start);
        if line_offset == 0 {
            return history;
        }
        proof {
            lemma_line_feeds_positions(text);
        }
        let mut line_feeds: u32 = 0;
        let mut i: usize = 0;
        while i < bytes.len()
            invariant
                text == bytes@,
                text == self.spec_history_bytes(),
                text == history.spec_bytes(),
                0 < line_offset,
                line_offset == start_line_number - self.spec_lines_bounds().0,
                i <= text.len(),
                line_feeds == spec_line_feeds(text.take(i as int)).len(),
                line_feeds < line_offset,
            decreases text.len() - i,
        {
            proof {
                assert(text.take(i + 1).drop_last() =~= text.take(i as int));
                lemma_line_feeds_prefix(text, i + 1);
            }
            if bytes[i] == LINE_FEED {
                line_feeds = line_feeds + 1;
                if line_feeds == line_offset {
                    proof {
                        let prefix = spec_line_feeds(text.take(i + 1));
                        assert(prefix[prefix.len() - 1] == i);
                        assert(spec_line_feeds(text)[line_offset - 1] == i);
                        lemma_char_boundary_after_ascii(text, i as int);
                        assert(is_char_boundary(history.spec_bytes(), (i + 1) as int));
                    }
                    let (_, rest) = history.split_at(i + 1);
                    return rest;
                }
            }
            i = i + 1;
        }
        proof {
            assert(text.take(i as int) =~= text);
            reveal_strlit("");
        }
        ""
    }
}

} // verus!
