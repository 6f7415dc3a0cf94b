//! The reader: one article as wrapped plain text, a viewport that scrolls by
//! lines, and an incremental search that marks one match at a time.
//!
//! The state is kept apart from the widgets that draw it. The text is
//! wrapped again only when the width changes; the table of line starts is
//! rebuilt with it. The viewport begins at the start of a line and shows as
//! many lines as the view is high, so only that window has to be drawn.

use vstd::prelude::*;
use vstd::string::StringSliceAdditionalSpecFns;
use vstd::utf8::{encode_utf8, encode_utf8_valid_utf8, is_char_boundary_start_end_of_seq};
use crate::lines::{
    find_line, lemma_boundary_in_prefix, lemma_entry_starts_its_line, lemma_line_offsets,
    lemma_line_start_is_boundary, line_at, line_offsets, line_offsets_of,
};
use crate::markup::{render_plain, rendered_text};
use crate::pattern::{find_all, literal, literal_pattern, regex_matches};
use crate::text::same_text;

verus! {

/// The lines kept in view across a page movement.
pub const PAGE_MARGIN: usize = 5;

/// The columns of the view that the text cannot use.
pub const SIDE_MARGIN: usize = 3;

/// A key, as far as the reader tells keys apart.
#[derive(Debug, Clone, Copy, PartialEq, Eq, Structural)]
pub enum ReaderEvent {
    Char(char),
    PageDown,
    PageUp,
    Down,
    Up,
    Esc,
    Enter,
    Other,
}

/// What the widgets have to do after the reader saw a key.
#[derive(Debug, Clone, Copy, PartialEq, Eq, Structural)]
pub enum ReaderAction {
    /// The key was used up; draw the reader again.
    Redraw,
    /// The key was used up: enable the search field and give it the focus.
    OpenSearch,
    /// The key was used up: empty and disable the search field, give the
    /// text the focus, draw it without a mark.
    CloseSearch,
    /// The key was used up: take the reader off the stack of views.
    Close,
    /// The key is not the reader's: hand it to the widget that has the focus.
    Forward,
}

/// A stretch of the text and whether it is drawn inverted.
#[derive(Debug, Clone, Copy, PartialEq, Eq, Structural)]
pub struct Span {
    pub start: usize,
    pub end: usize,
    pub width: usize,
    pub inverted: bool,
}

/// Whether a match counts when looking onwards from the offset `from`: when
/// advancing, only a match that starts later; else one that starts there too.
pub open spec fn qualifies(found: (usize, usize), from: usize, advance: bool) -> bool {
    found.0 > from || (!advance && found.0 == from)
}

/// The first match at index `at` or later that qualifies.
pub open spec fn first_qualifying(
    matches: Seq<(usize, usize)>,
    at: int,
    from: usize,
    advance: bool,
) -> Option<(usize, usize)>
    decreases matches.len() - at,
{
    if at < 0 || at >= matches.len() {
        None
    } else if qualifies(matches[at], from, advance) {
        Some(matches[at])
    } else {
        first_qualifying(matches, at + 1, from, advance)
    }
}

/// The match to mark: the first that qualifies, else the very first
/// (wraparound), else none.
pub open spec fn selected(matches: Seq<(usize, usize)>, from: usize, advance: bool) -> Option<
    (usize, usize),
> {
    match first_qualifying(matches, 0, from, advance) {
        Some(found) => Some(found),
        None => if matches.len() > 0 {
            Some(matches[0])
        } else {
            None
        },
    }
}

/// Wraparound: where no match starts after the offset `from`, advancing
/// marks the very first match.
pub proof fn law_advancing_past_the_last_match_wraps(matches: Seq<(usize, usize)>, from: usize)
    requires
        matches.len() > 0,
        forall|i: int| 0 <= i < matches.len() ==> (#[trigger] matches[i]).0 <= from,
    ensures
        selected(matches, from, true) == Some(matches[0]),
{
    lemma_none_qualifies(matches, 0, from, true);
}

/// Where a match starts after the offset `from` and none before it does,
/// advancing marks that match.
pub proof fn law_advancing_marks_the_next_match(
    matches: Seq<(usize, usize)>,
    from: usize,
    next: int,
)
    requires
        0 <= next < matches.len(),
        matches[next].0 > from,
        forall|i: int| 0 <= i < next ==> (#[trigger] matches[i]).0 <= from,
    ensures
        selected(matches, from, true) == Some(matches[next]),
{
    lemma_first_qualifying_at(matches, 0, from, true, next);
}

proof fn lemma_none_qualifies(matches: Seq<(usize, usize)>, at: int, from: usize, advance: bool)
    requires
        0 <= at <= matches.len(),
        forall|i: int| at <= i < matches.len() ==> !qualifies(#[trigger] matches[i], from, advance),
    ensures
        first_qualifying(matches, at, from, advance) is None,
    decreases matches.len() - at,
{
    if at < matches.len() {
        lemma_none_qualifies(matches, at + 1, from, advance);
    }
}

proof fn lemma_first_qualifying_at(
    matches: Seq<(usize, usize)>,
    at: int,
    from: usize,
    advance: bool,
    next: int,
)
    requires
        0 <= at <= next < matches.len(),
        qualifies(matches[next], from, advance),
        forall|i: int| at <= i < next ==> !qualifies(#[trigger] matches[i], from, advance),
    ensures
        first_qualifying(matches, at, from, advance) == Some(matches[next]),
    decreases next - at,
{
    if at < next {
        lemma_first_qualifying_at(matches, at + 1, from, advance, next);
    }
}

/// The three stretches of a text of `total` bytes with the match from `start`
/// to `end` marked: plain, inverted, plain.
pub open spec fn marked_spans(total: usize, start: usize, end: usize) -> Seq<Span> {
    seq![
        Span { start: 0, end: start, width: start, inverted: false },
        Span { start, end, width: (end - start) as usize, inverted: true },
        Span { start: end, end: total, width: (total - end) as usize, inverted: false },
    ]
}

/// The mathematical state of a reader.
pub struct ReaderModel {
    /// The article as it came.
    pub html: Seq<char>,
    /// The article as plain text, wrapped to the view's width.
    pub text: Seq<char>,
    /// The byte offset at which the viewport begins.
    pub top: usize,
    /// The marked match, as start and end byte offsets.
    pub current_match: Option<(usize, usize)>,
    pub width: usize,
    pub height: usize,
    /// Whether the search field has the focus.
    pub searching: bool,
}

impl ReaderModel {
    /// A reader that has not been laid out yet.
    pub open spec fn initial(html: Seq<char>) -> ReaderModel {
        ReaderModel {
            html,
            text: Seq::empty(),
            top: 0,
            current_match: None,
            width: 1,
            height: 1,
            searching: false,
        }
    }

    pub open spec fn bytes(self) -> Seq<u8> {
        encode_utf8(self.text)
    }

    /// The table of line starts of the wrapped text.
    pub open spec fn offsets(self) -> Seq<usize> {
        line_offsets_of(self.bytes())
    }

    /// The line at which the viewport begins.
    pub open spec fn top_line(self) -> int {
        line_at(self.offsets(), self.top)
    }

    /// The viewport begins at the start of a line, and the mark lies within the text.
    pub open spec fn wf(self) -> bool {
        &&& self.bytes().len() <= usize::MAX
        &&& self.offsets()[self.top_line()] == self.top
        &&& match self.current_match {
            Some((start, end)) => start <= end <= self.bytes().len(),
            None => true,
        }
    }

    /// The last line at which scrolling may put the top of the viewport.
    pub open spec fn scroll_limit(self) -> int {
        if self.offsets().len() > self.height {
            self.offsets().len() - self.height
        } else {
            0
        }
    }

    /// `line` held within what scrolling allows.
    pub open spec fn within_limit(self, line: int) -> int {
        if line < 0 {
            0
        } else if line > self.scroll_limit() {
            self.scroll_limit()
        } else {
            line
        }
    }

    /// The reader with its viewport at the start of `line`, or of the last
    /// entry of the table where `line` lies beyond it.
    pub open spec fn at_line(self, line: int) -> ReaderModel {
        let last = self.offsets().len() - 1;
        let index = if line < 0 {
            0
        } else if line > last {
            last
        } else {
            line
        };
        ReaderModel { top: self.offsets()[index], ..self }
    }

    /// The reader after scrolling by `lines`, down if positive.
    pub open spec fn scrolled(self, lines: int) -> ReaderModel {
        self.at_line(self.within_limit(self.top_line() + lines))
    }

    /// The lines that a page movement scrolls by: the height less the
    /// margin, and no more than an `i32` holds.
    pub open spec fn page(self) -> int {
        if self.height - PAGE_MARGIN > i32::MAX {
            i32::MAX as int
        } else if self.height > PAGE_MARGIN {
            self.height - PAGE_MARGIN
        } else {
            0
        }
    }

    /// The window of the text that the viewport shows, as byte offsets:
    /// from the top, as many lines as the view is high.
    pub open spec fn window(self) -> (int, int) {
        let len = self.bytes().len() as int;
        let start = if self.top <= len {
            self.top as int
        } else {
            len
        };
        let below = self.top_line() + self.height;
        let end = if below >= self.offsets().len() || self.offsets()[below] > len {
            len
        } else {
            self.offsets()[below] as int
        };
        (start, end)
    }

    /// Whether `line` lies in the viewport.
    pub open spec fn shows_line(self, line: int) -> bool {
        self.top_line() <= line < self.top_line() + self.height
    }

    /// The reader with the match from `start` to `end` marked. Where the
    /// line of the match lies outside the viewport, the viewport moves so
    /// that the line comes to its middle, as far as scrolling allows.
    pub open spec fn with_match(self, start: usize, end: usize) -> ReaderModel {
        let marked = ReaderModel { current_match: Some((start, end)), ..self };
        let line = line_at(self.offsets(), start);
        if self.shows_line(line) {
            marked
        } else {
            marked.at_line(marked.within_limit(line - self.height / 2))
        }
    }

    /// The reader without a mark.
    pub open spec fn without_match(self) -> ReaderModel {
        ReaderModel { current_match: None, ..self }
    }

    /// The reader with a newly wrapped text. The viewport stays with the line
    /// that holds its old offset; the mark, which counted bytes of the old
    /// text, is dropped.
    pub open spec fn with_text(self, text: Seq<char>) -> ReaderModel {
        let offsets = line_offsets_of(encode_utf8(text));
        ReaderModel { text, top: offsets[line_at(offsets, self.top)], current_match: None, ..self }
    }

    /// The columns that the text may use in a view of the given width.
    pub open spec fn wrap_width(width: usize) -> usize {
        if width >= SIDE_MARGIN {
            (width - SIDE_MARGIN) as usize
        } else {
            0
        }
    }

    /// The reader after a layout pass at the given size. The text is wrapped
    /// again only if the width changed; a document that cannot be rendered
    /// at that width shows as empty text.
    pub open spec fn laid_out(self, width: usize, height: usize) -> ReaderModel {
        let sized = ReaderModel { width, height, ..self };
        if width == self.width {
            sized
        } else {
            match rendered_text(encode_utf8(self.html), Self::wrap_width(width)) {
                Ok(text) => sized.with_text(text),
                Err(_) => sized.with_text(Seq::empty()),
            }
        }
    }

    /// The part of the marked match that lies in the window, counted from
    /// the window's start; `None` where none of it does.
    pub open spec fn visible_match(self) -> Option<(int, int)> {
        let (from, to) = self.window();
        match self.current_match {
            Some((start, end)) => if start < to && end > from {
                Some(
                    (
                        if start > from {
                            start - from
                        } else {
                            0
                        },
                        if end < to {
                            end - from
                        } else {
                            to - from
                        },
                    ),
                )
            } else {
                None
            },
            None => None,
        }
    }

    /// The stretches in which the window is drawn, counted from its start.
    pub open spec fn visible_spans(self) -> Seq<Span> {
        let total = (self.window().1 - self.window().0) as usize;
        match self.visible_match() {
            Some((start, end)) => marked_spans(total, start as usize, end as usize),
            None => seq![Span { start: 0, end: total, width: total, inverted: false }],
        }
    }

    /// The offset from which the search looks onwards.
    pub open spec fn search_origin(self) -> usize {
        match self.current_match {
            Some((start, _)) => start,
            None => 0,
        }
    }

    /// The reader after a search that found `matches`.
    pub open spec fn with_matches(self, matches: Seq<(usize, usize)>, advance: bool) -> ReaderModel {
        match selected(matches, self.search_origin(), advance) {
            Some((start, end)) => self.with_match(start, end),
            None => self,
        }
    }

    /// The reader after a search for `term`, in either case, through the whole text.
    pub open spec fn searched(self, term: Seq<char>, advance: bool) -> ReaderModel {
        match regex_matches(literal_pattern(term), self.text) {
            Some(matches) => self.with_matches(matches, advance),
            None => self,
        }
    }

    /// The reader after a key, and what the widgets have to do. `term` is
    /// what the search field holds.
    pub open spec fn after_event(self, event: ReaderEvent, term: Seq<char>) -> (
        ReaderModel,
        ReaderAction,
    ) {
        if !self.searching {
            match event {
                ReaderEvent::PageDown => (self.scrolled(self.page()), ReaderAction::Redraw),
                ReaderEvent::PageUp => (self.scrolled(-self.page()), ReaderAction::Redraw),
                ReaderEvent::Down => (self.scrolled(1), ReaderAction::Redraw),
                ReaderEvent::Up => (self.scrolled(-1), ReaderAction::Redraw),
                ReaderEvent::Char(c) => if c == ' ' {
                    (self.scrolled(self.page()), ReaderAction::Redraw)
                } else if c == '/' {
                    (ReaderModel { searching: true, ..self }, ReaderAction::OpenSearch)
                } else if c == 'q' {
                    (self, ReaderAction::Close)
                } else {
                    (self, ReaderAction::Forward)
                },
                _ => (self, ReaderAction::Forward),
            }
        } else {
            match event {
                ReaderEvent::Esc => (
                    ReaderModel { searching: false, ..self.without_match() },
                    ReaderAction::CloseSearch,
                ),
                ReaderEvent::Enter => (self.searched(term, true), ReaderAction::Redraw),
                _ => (self, ReaderAction::Forward),
            }
        }
    }
}

/// An entry of the table of a text is the start of the line it falls in.
proof fn lemma_top_at_entry(bytes: Seq<u8>, k: int)
    requires
        bytes.len() <= usize::MAX,
        0 <= k < line_offsets_of(bytes).len(),
    ensures
        0 <= line_at(line_offsets_of(bytes), line_offsets_of(bytes)[k]) < line_offsets_of(
            bytes,
        ).len(),
        line_offsets_of(bytes)[line_at(line_offsets_of(bytes), line_offsets_of(bytes)[k])]
            == line_offsets_of(bytes)[k],
{
    lemma_line_offsets(bytes);
    lemma_entry_starts_its_line(line_offsets_of(bytes), k);
}

/// The state of the reader of one article.
pub struct ReaderView {
    html: String,
    text_wrapped: String,
    line_offsets: Vec<usize>,
    char_offset: usize,
    current_match: Option<(usize, usize)>,
    width: usize,
    height: usize,
    searching: bool,
}

impl View for ReaderView {
    type V = ReaderModel;

    closed spec fn view(&self) -> ReaderModel {
        ReaderModel {
            html: self.html@,
            text: self.text_wrapped@,
            top: self.char_offset,
            current_match: self.current_match,
            width: self.width,
            height: self.height,
            searching: self.searching,
        }
    }
}

impl ReaderView {
    #[verifier::type_invariant]
    spec fn inv(&self) -> bool {
        &&& self.line_offsets@ == line_offsets_of(encode_utf8(self.text_wrapped@))
        &&& self@.wf()
    }

    /// A reader for the article `html`, not laid out yet: no text, one
    /// column wide and one line high.
    pub fn new(html: &str) -> (reader: Self)
        ensures
            reader@ == ReaderModel::initial(html@),
            reader@.wf(),
    {
        let text = String::new();
        let offsets = line_offsets(text.as_str());
        let len = text.as_str().as_bytes().len();
        proof {
            lemma_line_offsets(encode_utf8(text@));
            lemma_top_at_entry(encode_utf8(text@), 0);
        }
        let reader = ReaderView {
            html: html.to_owned(),
            text_wrapped: text,
            line_offsets: offsets,
            char_offset: 0,
            current_match: None,
            width: 1,
            height: 1,
            searching: false,
        };
        reader
    }

    /// The wrapped text.
    pub fn text(&self) -> (text: &str)
        ensures
            text@ == self@.text,
            self@.wf(),
    {
        proof {
            use_type_invariant(self);
        }
        self.text_wrapped.as_str()
    }

    /// The table of line starts of the wrapped text.
    pub fn line_offsets(&self) -> (offsets: &Vec<usize>)
        ensures
            offsets@ == self@.offsets(),
    {
        proof {
            use_type_invariant(self);
        }
        &self.line_offsets
    }

    /// The byte offset at which the viewport begins.
    pub fn char_offset(&self) -> (offset: usize)
        ensures
            offset == self@.top,
    {
        self.char_offset
    }

    /// The marked match, if there is one.
    pub fn current_match(&self) -> (found: Option<(usize, usize)>)
        ensures
            found == self@.current_match,
    {
        self.current_match
    }

    /// Whether the search field has the focus.
    pub fn is_searching(&self) -> (searching: bool)
        ensures
            searching == self@.searching,
    {
        self.searching
    }

    /// The line that the byte offset `pos` falls in.
    pub fn find_line(&self, pos: usize) -> (line: usize)
        ensures
            line == line_at(self@.offsets(), pos),
            line < self@.offsets().len(),
            self@.offsets()[line as int] <= pos,
            line + 1 < self@.offsets().len() ==> pos < self@.offsets()[line + 1],
    {
        proof {
            use_type_invariant(self);
            lemma_line_offsets(self@.bytes());
        }
        find_line(&self.line_offsets, pos)
    }

    /// Puts the top of the viewport at the start of `line`; a line beyond
    /// the table counts as its last entry.
    pub fn scroll_to_line(&mut self, line: usize)
        ensures
            final(self)@ == old(self)@.at_line(line as int),
    {
        proof {
            use_type_invariant(&*self);
            lemma_line_offsets(self@.bytes());
        }
        let last = self.line_offsets.len() - 1;
        let index = if line > last {
            last
        } else {
            line
        };
        proof {
            lemma_top_at_entry(self@.bytes(), index as int);
        }
        self.char_offset = self.line_offsets[index];
    }

    /// Scrolls by `lines`, down if positive, and stops where the last lines
    /// of the text fill the viewport.
    pub fn scroll_by_lines(&mut self, lines: i32)
        ensures
            final(self)@ == old(self)@.scrolled(lines as int),
    {
        proof {
            use_type_invariant(&*self);
            lemma_line_offsets(self@.bytes());
        }
        let count = self.line_offsets.len();
        let limit: usize = if count > self.height {
            count - self.height
        } else {
            0
        };
        let line = self.find_line(self.char_offset);
        let target: usize = if lines >= 0 {
            let down: usize = lines as usize;
            if line >= limit {
                limit
            } else if down >= limit - line {
                limit
            } else {
                line + down
            }
        } else {
            let wide: i64 = lines as i64;
            let up: usize = (-wide) as usize;
            if up >= line {
                0
            } else if line - up > limit {
                limit
            } else {
                line - up
            }
        };
        assert(target as int == old(self)@.within_limit(old(self)@.top_line() + lines));
        self.scroll_to_line(target);
    }

    /// Marks the match from `start` to `end` and, where its line lies
    /// outside the viewport, moves the viewport so that the line comes to
    /// its middle.
    pub fn set_match(&mut self, start: usize, end: usize)
        requires
            start <= end <= old(self)@.bytes().len(),
        ensures
            final(self)@ == old(self)@.with_match(start, end),
    {
        proof {
            use_type_invariant(&*self);
            lemma_line_offsets(self@.bytes());
        }
        self.current_match = Some((start, end));
        let line = self.find_line(start);
        let top = self.find_line(self.char_offset);
        let shown = top <= line && line - top < self.height;
        if !shown {
            let half = self.height / 2;
            let wanted: usize = if line > half {
                line - half
            } else {
                0
            };
            let count = self.line_offsets.len();
            let limit: usize = if count > self.height {
                count - self.height
            } else {
                0
            };
            let target = if wanted > limit {
                limit
            } else {
                wanted
            };
            self.scroll_to_line(target);
        }
    }

    /// Removes the mark.
    pub fn clear_match(&mut self)
        ensures
            final(self)@ == old(self)@.without_match(),
    {
        proof {
            use_type_invariant(&*self);
        }
        self.current_match = None;
    }

    /// The stretches in which the whole text is drawn: plain, and inverted
    /// where the match is marked.
    pub fn spans(&self) -> (spans: Vec<Span>)
        ensures
            spans@ == match self@.current_match {
                Some((start, end)) => marked_spans(self@.bytes().len() as usize, start, end),
                None => seq![
                    Span {
                        start: 0,
                        end: self@.bytes().len() as usize,
                        width: self@.bytes().len() as usize,
                        inverted: false,
                    },
                ],
            },
    {
        proof {
            use_type_invariant(self);
        }
        let total = self.text_wrapped.as_str().len();
        let mut spans: Vec<Span> = Vec::new();
        match self.current_match {
            Some((start, end)) => {
                spans.push(Span { start: 0, end: start, width: start, inverted: false });
                spans.push(Span { start, end, width: end - start, inverted: true });
                spans.push(Span { start: end, end: total, width: total - end, inverted: false });
                assert(spans@ =~= marked_spans(total, start, end));
            },
            None => {
                spans.push(Span { start: 0, end: total, width: total, inverted: false });
                assert(spans@ =~= seq![Span { start: 0, end: total, width: total, inverted: false }]);
            },
        }
        spans
    }

    /// Takes a newly wrapped text. The viewport stays with the line that
    /// holds its old offset, and the mark is dropped.
    pub fn set_text(&mut self, text: String)
        ensures
            final(self)@ == old(self)@.with_text(text@),
    {
        let offsets = line_offsets(text.as_str());
        let len = text.as_str().as_bytes().len();
        proof {
            lemma_line_offsets(encode_utf8(text@));
        }
        let line = find_line(&offsets, self.char_offset);
        let top = offsets[line];
        proof {
            lemma_top_at_entry(encode_utf8(text@), line as int);
        }
        let reader = ReaderView {
            html: self.html.clone(),
            text_wrapped: text,
            line_offsets: offsets,
            char_offset: top,
            current_match: None,
            width: self.width,
            height: self.height,
            searching: self.searching,
        };
        *self = reader;
    }

    /// A layout pass at the given size. If the width changed, the article is
    /// rendered again, `SIDE_MARGIN` columns narrower than the view; an
    /// article that cannot be rendered at that width shows as empty text.
    pub fn layout(&mut self, width: usize, height: usize)
        ensures
            final(self)@ == old(self)@.laid_out(width, height),
    {
        proof {
            use_type_invariant(&*self);
        }
        if self.width != width {
            let wrap: usize = if width >= SIDE_MARGIN {
                width - SIDE_MARGIN
            } else {
                0
            };
            let text = match render_plain(self.html.as_str().as_bytes(), wrap) {
                Ok(text) => text,
                Err(_) => String::new(),
            };
            self.set_text(text);
        }
        proof {
            use_type_invariant(&*self);
        }
        self.width = width;
        self.height = height;
    }

    /// Takes the matches of a search through the text and marks the first
    /// that starts after the marked one, or at it where `advance` is not
    /// set; the very first where none does; none where there is none.
    pub fn apply_matches(&mut self, matches: &Vec<(usize, usize)>, advance: bool)
        requires
            forall|i: int|
                0 <= i < matches.len() ==> (#[trigger] matches[i]).0 <= matches[i].1 <= old(
                    self,
                )@.bytes().len(),
        ensures
            final(self)@ == old(self)@.with_matches(matches@, advance),
    {
        let from: usize = match self.current_match {
            Some((start, _)) => start,
            None => 0,
        };
        let mut i: usize = 0;
        while i < matches.len()
            invariant
                i <= matches.len(),
                *self == *old(self),
                from == self@.search_origin(),
                forall|i: int|
                    0 <= i < matches.len() ==> (#[trigger] matches[i]).0 <= matches[i].1
                        <= self@.bytes().len(),
                first_qualifying(matches@, 0, from, advance) == first_qualifying(
                    matches@,
                    i as int,
                    from,
                    advance,
                ),
            decreases matches.len() - i,
        {
            let found = matches[i];
            if found.0 > from || (!advance && found.0 == from) {
                self.set_match(found.0, found.1);
                return ;
            }
            i += 1;
        }
        if matches.len() > 0 {
            let found = matches[0];
            self.set_match(found.0, found.1);
        }
    }

    /// Searches the whole text for `term`, in either case, and marks a match
    /// as `apply_matches` chooses it.
    pub fn update_search(&mut self, term: &str, advance: bool)
        ensures
            final(self)@ == old(self)@.searched(term@, advance),
    {
        let pattern = literal(term);
        match find_all(pattern.as_str(), self.text_wrapped.as_str()) {
            Some(matches) => {
                self.apply_matches(&matches, advance);
            },
            None => {},
        }
    }

    /// Takes a key. `term` is what the search field holds.
    ///
    /// With the text in focus: space and page-down scroll down by a page,
    /// page-up scrolls up by one, the arrows scroll by a line, `/` opens the
    /// search, `q` closes the reader. With the search field in focus: escape
    /// closes the search and removes the mark, enter marks the next match.
    /// Every other key is handed on.
    pub fn on_event(&mut self, event: ReaderEvent, term: &str) -> (action: ReaderAction)
        ensures
            (final(self)@, action) == old(self)@.after_event(event, term@),
    {
        proof {
            use_type_invariant(&*self);
        }
        let page: i32 = if self.height > PAGE_MARGIN {
            let lines = self.height - PAGE_MARGIN;
            if lines > 0x7fff_ffff {
                0x7fff_ffff
            } else {
                lines as i32
            }
        } else {
            0
        };
        if !self.searching {
            match event {
                ReaderEvent::PageDown => {
                    self.scroll_by_lines(page);
                    ReaderAction::Redraw
                },
                ReaderEvent::PageUp => {
                    self.scroll_by_lines(-page);
                    ReaderAction::Redraw
                },
                ReaderEvent::Down => {
                    self.scroll_by_lines(1);
                    ReaderAction::Redraw
                },
                ReaderEvent::Up => {
                    self.scroll_by_lines(-1);
                    ReaderAction::Redraw
                },
                ReaderEvent::Char(c) => {
                    if c == ' ' {
                        self.scroll_by_lines(page);
                        ReaderAction::Redraw
                    } else if c == '/' {
                        self.searching = true;
                        ReaderAction::OpenSearch
                    } else if c == 'q' {
                        ReaderAction::Close
                    } else {
                        ReaderAction::Forward
                    }
                },
                _ => ReaderAction::Forward,
            }
        } else {
            match event {
                ReaderEvent::Esc => {
                    self.searching = false;
                    self.clear_match();
                    ReaderAction::CloseSearch
                },
                ReaderEvent::Enter => {
                    self.update_search(term, true);
                    ReaderAction::Redraw
                },
                _ => ReaderAction::Forward,
            }
        }
    }

    /// Takes an edit of the search field: where the text in it changed, the
    /// search runs again from the marked match.
    pub fn search_edited(&mut self, before: &str, after: &str)
        ensures
            final(self)@ == if before@ == after@ {
                old(self)@
            } else {
                old(self)@.searched(after@, false)
            },
    {
        if !same_text(before, after) {
            self.update_search(after, false);
        }
    }

    /// The window of the text that the viewport shows, as byte offsets.
    pub fn visible_range(&self) -> (range: (usize, usize))
        ensures
            (range.0 as int, range.1 as int) == self@.window(),
            range.0 <= range.1 <= self@.bytes().len(),
    {
        proof {
            use_type_invariant(self);
            lemma_line_offsets(self@.bytes());
        }
        let len = self.text_wrapped.as_str().len();
        let line = self.find_line(self.char_offset);
        let start = if self.char_offset <= len {
            self.char_offset
        } else {
            len
        };
        let count = self.line_offsets.len();
        let end = if self.height >= count - line {
            len
        } else {
            let below = self.line_offsets[line + self.height];
            assert(self.line_offsets[line as int] <= self.line_offsets[line + self.height]);
            if below > len {
                len
            } else {
                below
            }
        };
        (start, end)
    }

    /// The text that the viewport shows.
    pub fn visible_text(&self) -> (shown: &str)
        ensures
            shown.spec_bytes() == self@.bytes().subrange(self@.window().0, self@.window().1),
    {
        let (start, end) = self.visible_range();
        let text = self.text_wrapped.as_str();
        proof {
            use_type_invariant(self);
            let bytes = self@.bytes();
            let offsets = self@.offsets();
            lemma_line_offsets(bytes);
            encode_utf8_valid_utf8(self@.text);
            is_char_boundary_start_end_of_seq(bytes);
            let line = self@.top_line();
            vstd::seq::axiom_seq_subrange_len(bytes, 0, end as int);
            crate::lines::lemma_line_at_bounds(offsets, self@.top);
            if start < bytes.len() {
                assert(start == offsets[line]);
                lemma_line_start_is_boundary(self@.text, line);
            }
            if end < bytes.len() {
                assert(end == offsets[line + self@.height]);
                lemma_line_start_is_boundary(self@.text, line + self@.height);
            }
            lemma_boundary_in_prefix(bytes, start as int, end as int);
        }
        let (head, _) = text.split_at(end);
        let (_, shown) = head.split_at(start);
        assert(shown.spec_bytes() =~= self@.bytes().subrange(start as int, end as int));
        shown
    }

    /// The stretches in which the visible text is drawn, counted from its
    /// start: plain, and inverted where the marked match shows.
    pub fn visible_spans(&self) -> (spans: Vec<Span>)
        ensures
            spans@ == self@.visible_spans(),
    {
        let (from, to) = self.visible_range();
        let total = to - from;
        let mut spans: Vec<Span> = Vec::new();
        let shown: Option<(usize, usize)> = match self.current_match {
            Some((start, end)) => {
                if start < to && end > from {
                    let first = if start > from {
                        start - from
                    } else {
                        0
                    };
                    let last = if end < to {
                        end - from
                    } else {
                        total
                    };
                    Some((first, last))
                } else {
                    None
                }
            },
            None => None,
        };
        proof {
            use_type_invariant(self);
        }
        match shown {
            Some((start, end)) => {
                spans.push(Span { start: 0, end: start, width: start, inverted: false });
                spans.push(Span { start, end, width: end - start, inverted: true });
                spans.push(Span { start: end, end: total, width: total - end, inverted: false });
                assert(spans@ =~= marked_spans(total, start, end));
            },
            None => {
                spans.push(Span { start: 0, end: total, width: total, inverted: false });
                assert(spans@ =~= seq![Span { start: 0, end: total, width: total, inverted: false }]);
            },
        }
        spans
    }
}

} // verus!
