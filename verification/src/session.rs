//! The per-view search session: tickets for dispatched queries, and the rule
//! that decides which completion may replace the displayed results.
//!
//! Every edit of the search field takes a ticket from a counter that only
//! grows. A completion carries the ticket of the edit that started it and is
//! applied only if that ticket is newer than every ticket applied so far, so
//! the results on display always belong to the newest query whose completion
//! has been seen, in whatever order completions arrive. Stale work is never
//! cancelled; it is dropped when it reports back.

use vstd::prelude::*;

verus! {

/// A search result: the stored title and the article body fetched for it.
#[derive(Debug, Clone)]
pub struct Article {
    pub title: String,
    pub content_html: String,
}

/// What an [`Article`] is to the contracts.
pub struct ArticleView {
    pub title: Seq<char>,
    pub content_html: Seq<char>,
}

impl View for Article {
    type V = ArticleView;

    open spec fn view(&self) -> ArticleView {
        ArticleView { title: self.title@, content_html: self.content_html@ }
    }
}

/// The views of a sequence of articles, in order.
pub open spec fn articles_view(articles: Seq<Article>) -> Seq<ArticleView> {
    articles.map_values(|a: Article| a@)
}

/// The mathematical state of a search session.
pub struct SessionView {
    /// The newest ticket handed out; 0 before the first edit.
    pub dispatched: nat,
    /// The newest ticket whose outcome is on display.
    pub applied: nat,
    /// The results on display.
    pub results: Seq<ArticleView>,
    /// Whether the visible list has to be rebuilt.
    pub dirty: bool,
}

impl SessionView {
    /// A session in which nothing has been typed yet.
    pub open spec fn initial() -> SessionView {
        SessionView { dispatched: 0, applied: 0, results: Seq::empty(), dirty: false }
    }

    /// No ticket is applied before it is handed out.
    pub open spec fn wf(self) -> bool {
        self.applied <= self.dispatched
    }

    /// The state after the search field was edited. An edit to empty text
    /// clears the results on the spot under the new ticket; any other edit
    /// only takes the ticket and leaves the results to its completion.
    pub open spec fn edit(self, text_is_empty: bool) -> SessionView {
        if text_is_empty {
            SessionView {
                dispatched: self.dispatched + 1,
                applied: self.dispatched + 1,
                results: Seq::empty(),
                dirty: true,
            }
        } else {
            SessionView { dispatched: self.dispatched + 1, dirty: true, ..self }
        }
    }

    /// Whether a completion that carries `ticket` takes precedence: the
    /// ticket was handed out, and it is newer than every ticket applied.
    pub open spec fn accepts(self, ticket: nat) -> bool {
        self.applied < ticket <= self.dispatched
    }

    /// The state after a completion with `ticket` and `hits` reported back.
    pub open spec fn complete(self, ticket: nat, hits: Seq<ArticleView>) -> SessionView {
        if self.accepts(ticket) {
            SessionView { applied: ticket, results: hits, dirty: true, ..self }
        } else {
            self
        }
    }

    /// The state after the visible list was rebuilt.
    pub open spec fn refreshed(self) -> SessionView {
        SessionView { dirty: false, ..self }
    }
}

/// The character of a decimal digit.
pub open spec fn digit_char(d: nat) -> char
    recommends
        d < 10,
{
    if d == 0 {
        '0'
    } else if d == 1 {
        '1'
    } else if d == 2 {
        '2'
    } else if d == 3 {
        '3'
    } else if d == 4 {
        '4'
    } else if d == 5 {
        '5'
    } else if d == 6 {
        '6'
    } else if d == 7 {
        '7'
    } else if d == 8 {
        '8'
    } else {
        '9'
    }
}

/// A number in decimal, without sign or leading zeros.
pub open spec fn decimal(n: nat) -> Seq<char>
    decreases n,
{
    if n < 10 {
        seq![digit_char(n)]
    } else {
        decimal(n / 10).push(digit_char(n % 10))
    }
}

/// `text` moved to the right by spaces until it is `width` long; longer text
/// is left as it is.
pub open spec fn right_aligned(text: Seq<char>, width: nat) -> Seq<char> {
    if text.len() >= width {
        text
    } else {
        Seq::new((width - text.len()) as nat, |i: int| ' ') + text
    }
}

/// The line shown for the result at place `rank` (counted from 1): the rank
/// right-aligned in three columns, a colon, a space, and the title.
pub open spec fn label_text(rank: nat, title: Seq<char>) -> Seq<char> {
    right_aligned(decimal(rank), 3) + seq![':', ' '] + title
}

/// The labels of all results, in order, ranks counted from 1.
pub open spec fn labels_of(results: Seq<ArticleView>) -> Seq<Seq<char>> {
    Seq::new(results.len(), |i: int| label_text((i + 1) as nat, results[i].title))
}

/// The lengths of short decimals.
pub proof fn lemma_decimal_len(n: nat)
    ensures
        decimal(n).len() >= 1,
        n < 10 ==> decimal(n).len() == 1,
        10 <= n < 100 ==> decimal(n).len() == 2,
        n >= 100 ==> decimal(n).len() >= 3,
    decreases n,
{
    if n >= 10 {
        lemma_decimal_len(n / 10);
    }
}

fn digit_str(d: usize) -> (s: &'static str)
    requires
        d < 10,
    ensures
        s@ == seq![digit_char(d as nat)],
{
    proof {
        reveal_strlit("0");
        reveal_strlit("1");
        reveal_strlit("2");
        reveal_strlit("3");
        reveal_strlit("4");
        reveal_strlit("5");
        reveal_strlit("6");
        reveal_strlit("7");
        reveal_strlit("8");
        reveal_strlit("9");
    }
    let s = if d == 0 {
        "0"
    } else if d == 1 {
        "1"
    } else if d == 2 {
        "2"
    } else if d == 3 {
        "3"
    } else if d == 4 {
        "4"
    } else if d == 5 {
        "5"
    } else if d == 6 {
        "6"
    } else if d == 7 {
        "7"
    } else if d == 8 {
        "8"
    } else {
        "9"
    };
    assert(s@ =~= seq![digit_char(d as nat)]);
    s
}

fn push_decimal(out: &mut String, n: usize)
    ensures
        final(out)@ == old(out)@ + decimal(n as nat),
    decreases n,
{
    if n >= 10 {
        push_decimal(out, n / 10);
    }
    out.append(digit_str(n % 10));
    assert(out@ =~= old(out)@ + decimal(n as nat));
}

/// The line shown for the result at place `rank`, counted from 1.
pub fn result_label(rank: usize, title: &str) -> (label: String)
    ensures
        label@ == label_text(rank as nat, title@),
{
    let mut label = String::new();
    proof {
        reveal_strlit("  ");
        reveal_strlit(" ");
        reveal_strlit(": ");
        lemma_decimal_len(rank as nat);
    }
    if rank < 10 {
        label.append("  ");
    } else if rank < 100 {
        label.append(" ");
    }
    assert(label@ + decimal(rank as nat) =~= right_aligned(decimal(rank as nat), 3));
    push_decimal(&mut label, rank);
    label.append(": ");
    label.append(title);
    assert(label@ =~= label_text(rank as nat, title@));
    label
}

/// What an edit of the search field asks of the caller.
#[derive(Debug, Clone, Copy, PartialEq, Eq, Structural)]
pub enum EditOutcome {
    /// The text was empty: the results were cleared and nothing is to be run.
    Cleared,
    /// Run the query in the background and report back with this ticket.
    Dispatch(u64),
}

/// The state that the input path and the background searches share.
pub struct SearchResultState {
    dispatch_counter: u64,
    applied_counter: u64,
    results: Vec<Article>,
    dirty: bool,
}

impl View for SearchResultState {
    type V = SessionView;

    closed spec fn view(&self) -> SessionView {
        SessionView {
            dispatched: self.dispatch_counter as nat,
            applied: self.applied_counter as nat,
            results: articles_view(self.results@),
            dirty: self.dirty,
        }
    }
}

impl SearchResultState {
    #[verifier::type_invariant]
    spec fn inv(&self) -> bool {
        self.applied_counter <= self.dispatch_counter
    }

    /// A fresh session: no ticket handed out, nothing on display.
    pub fn new() -> (state: Self)
        ensures
            state@ == SessionView::initial(),
    {
        let state = SearchResultState {
            dispatch_counter: 0,
            applied_counter: 0,
            results: Vec::new(),
            dirty: false,
        };
        assert(articles_view(state.results@) =~= Seq::empty());
        state
    }

    /// Records an edit of the search field to `text`.
    ///
    /// The counter is 64 bits wide; the one state in which it cannot grow is
    /// left to the caller.
    pub fn on_edit(&mut self, text: &str) -> (outcome: EditOutcome)
        requires
            old(self)@.dispatched < u64::MAX,
        ensures
            final(self)@ == old(self)@.edit(text@.len() == 0),
            outcome == (if text@.len() == 0 {
                EditOutcome::Cleared
            } else {
                EditOutcome::Dispatch(final(self)@.dispatched as u64)
            }),
    {
        proof {
            use_type_invariant(&*self);
        }
        let ticket: u64 = self.dispatch_counter + 1;
        self.dispatch_counter = ticket;
        self.dirty = true;
        if text.is_empty() {
            self.applied_counter = ticket;
            self.results = Vec::new();
            assert(articles_view(self.results@) =~= Seq::empty());
            EditOutcome::Cleared
        } else {
            EditOutcome::Dispatch(ticket)
        }
    }

    /// Takes in the hits of the background query that carries `ticket`.
    /// Returns whether they were put on display; a superseded or unknown
    /// ticket changes nothing.
    pub fn complete(&mut self, ticket: u64, hits: Vec<Article>) -> (applied: bool)
        ensures
            applied == old(self)@.accepts(ticket as nat),
            final(self)@ == old(self)@.complete(ticket as nat, articles_view(hits@)),
    {
        proof {
            use_type_invariant(&*self);
        }
        if self.applied_counter < ticket && ticket <= self.dispatch_counter {
            self.applied_counter = ticket;
            self.results = hits;
            self.dirty = true;
            true
        } else {
            false
        }
    }

    /// Takes in the failure of the background query that carries `ticket`:
    /// it counts as a completion without hits.
    pub fn complete_failed(&mut self, ticket: u64) -> (applied: bool)
        ensures
            applied == old(self)@.accepts(ticket as nat),
            final(self)@ == old(self)@.complete(ticket as nat, Seq::empty()),
    {
        let hits: Vec<Article> = Vec::new();
        assert(articles_view(hits@) =~= Seq::empty());
        self.complete(ticket, hits)
    }

    /// The render path. If the results changed since the last call, returns
    /// the lines of the visible list, one per result in order, and marks the
    /// list as up to date; otherwise returns nothing and changes nothing.
    pub fn refresh(&mut self) -> (labels: Option<Vec<String>>)
        ensures
            final(self)@ == old(self)@.refreshed(),
            labels is Some == old(self)@.dirty,
            labels matches Some(lines) ==> lines@.map_values(|l: String| l@) == labels_of(
                old(self)@.results,
            ),
    {
        proof {
            use_type_invariant(&*self);
        }
        if !self.dirty {
            return None;
        }
        let mut lines: Vec<String> = Vec::new();
        let mut i: usize = 0;
        while i < self.results.len()
            invariant
                *self == *old(self),
                self.applied_counter <= self.dispatch_counter,
                i <= self.results.len(),
                lines.len() == i,
                forall|k: int|
                    0 <= k < i ==> (#[trigger] lines[k])@ == label_text(
                        (k + 1) as nat,
                        self.results[k].title@,
                    ),
            decreases self.results.len() - i,
        {
            let line = result_label(i + 1, self.results[i].title.as_str());
            lines.push(line);
            i += 1;
        }
        self.dirty = false;
        assert(lines@.map_values(|l: String| l@) =~= labels_of(old(self)@.results));
        Some(lines)
    }

    /// The newest ticket handed out.
    pub fn dispatch_counter(&self) -> (n: u64)
        ensures
            n == self@.dispatched,
    {
        self.dispatch_counter
    }

    /// The newest ticket whose outcome is on display. It never runs ahead
    /// of the tickets handed out.
    pub fn applied_counter(&self) -> (n: u64)
        ensures
            n == self@.applied,
            self@.wf(),
    {
        proof {
            use_type_invariant(self);
        }
        self.applied_counter
    }

    /// Whether the visible list is out of date.
    pub fn is_dirty(&self) -> (dirty: bool)
        ensures
            dirty == self@.dirty,
    {
        self.dirty
    }

    /// The results on display.
    pub fn results(&self) -> (results: &Vec<Article>)
        ensures
            articles_view(results@) == self@.results,
    {
        &self.results
    }
}

/// Every step keeps a session well formed, and no step lowers the applied ticket.
pub proof fn law_applied_only_grows(s: SessionView, text_is_empty: bool, ticket: nat, hits: Seq<ArticleView>)
    requires
        s.wf(),
    ensures
        s.edit(text_is_empty).wf(),
        s.complete(ticket, hits).wf(),
        s.refreshed().wf(),
        s.edit(text_is_empty).applied >= s.applied,
        s.complete(ticket, hits).applied >= s.applied,
        s.refreshed().applied == s.applied,
{
}

/// Once a completion has been applied, a completion of any request that was
/// dispatched no later changes nothing: not the results, not the counters,
/// not even the dirty flag.
pub proof fn law_stale_completion_is_dropped(
    s: SessionView,
    newer: nat,
    older: nat,
    newer_hits: Seq<ArticleView>,
    older_hits: Seq<ArticleView>,
)
    requires
        s.accepts(newer),
        older <= newer,
    ensures
        s.complete(newer, newer_hits).results == newer_hits,
        s.complete(newer, newer_hits).complete(older, older_hits) == s.complete(
            newer,
            newer_hits,
        ),
{
}

/// Last request wins under reordering: of three requests dispatched in the
/// order `first`, `second`, `third` whose completions arrive as `third`,
/// `first`, `second`, only the third is ever on display.
pub proof fn law_last_request_wins(
    s: SessionView,
    first: nat,
    second: nat,
    third: nat,
    first_hits: Seq<ArticleView>,
    second_hits: Seq<ArticleView>,
    third_hits: Seq<ArticleView>,
)
    requires
        s.applied < first < second < third <= s.dispatched,
    ensures
        ({
            let a = s.complete(third, third_hits);
            let b = a.complete(first, first_hits);
            let c = b.complete(second, second_hits);
            &&& a.results == third_hits
            &&& b == a
            &&& c == a
        }),
{
}

/// An edit to empty text clears the results at once, and fences off every
/// request dispatched before it: none of their completions is accepted
/// afterwards.
pub proof fn law_empty_edit_resets(s: SessionView, ticket: nat)
    requires
        s.wf(),
        ticket <= s.dispatched + 1,
    ensures
        s.edit(true).results == Seq::<ArticleView>::empty(),
        s.edit(true).dirty,
        s.edit(true).applied == s.edit(true).dispatched,
        !s.edit(true).accepts(ticket),
{
}

/// An edit to other text hands out a ticket that its completion can use:
/// unless a later completion overtakes it, it will be accepted.
pub proof fn law_fresh_ticket_is_accepted(s: SessionView, hits: Seq<ArticleView>)
    requires
        s.wf(),
    ensures
        s.edit(false).results == s.results,
        s.edit(false).accepts(s.edit(false).dispatched),
        s.edit(false).complete(s.edit(false).dispatched, hits).results == hits,
{
}

/// What can happen to a session.
pub enum SessionEvent {
    /// The search field was edited.
    Edit { text_is_empty: bool },
    /// A background query reported back.
    Completion { ticket: nat, hits: Seq<ArticleView> },
    /// The visible list was rebuilt.
    Refresh,
}

impl SessionView {
    /// The state after one event.
    pub open spec fn step(self, event: SessionEvent) -> SessionView {
        match event {
            SessionEvent::Edit { text_is_empty } => self.edit(text_is_empty),
            SessionEvent::Completion { ticket, hits } => self.complete(ticket, hits),
            SessionEvent::Refresh => self.refreshed(),
        }
    }

    /// The state of a fresh session after the first `count` of `events`.
    pub open spec fn after(events: Seq<SessionEvent>, count: int) -> SessionView
        decreases count,
    {
        if count <= 0 {
            SessionView::initial()
        } else {
            SessionView::after(events, count - 1).step(events[count - 1])
        }
    }
}

/// Whatever happens to a session, it stays well formed, and its applied
/// ticket never goes back.
pub proof fn law_history_never_goes_back(events: Seq<SessionEvent>, earlier: int, later: int)
    requires
        0 <= earlier <= later <= events.len(),
    ensures
        SessionView::after(events, later).wf(),
        SessionView::after(events, earlier).applied <= SessionView::after(events, later).applied,
        SessionView::after(events, earlier).dispatched <= SessionView::after(
            events,
            later,
        ).dispatched,
    decreases later,
{
    if later > 0 {
        if earlier < later {
            law_history_never_goes_back(events, earlier, later - 1);
        } else {
            law_history_never_goes_back(events, later - 1, later - 1);
        }
    }
}

/// Last request wins: whatever the order of events, no request whose
/// completion has been seen is newer than the one on display.
pub proof fn law_display_is_never_older_than_a_completion(
    events: Seq<SessionEvent>,
    seen: int,
    now: int,
)
    requires
        0 <= seen < now <= events.len(),
        events[seen] is Completion,
        events[seen]->ticket <= SessionView::after(events, seen).dispatched,
    ensures
        events[seen]->ticket <= SessionView::after(events, now).applied,
{
    law_history_never_goes_back(events, seen, seen);
    law_history_never_goes_back(events, seen + 1, now);
}

/// What is on display is what the applied ticket brought: either nothing
/// was ever applied and nothing is shown, or some earlier event put exactly
/// the current ticket and the current results in place. That event is an
/// edit to empty text, which shows nothing, or an accepted completion, which
/// shows its hits.
pub proof fn law_display_belongs_to_the_applied_ticket(events: Seq<SessionEvent>, now: int)
    requires
        0 <= now <= events.len(),
    ensures
        ({
            let shown = SessionView::after(events, now);
            ||| shown.applied == 0 && shown.results == Seq::<ArticleView>::empty()
            ||| exists|source: int|
                0 <= source < now && #[trigger] puts_on_display(events, source, shown)
        }),
    decreases now,
{
    if now > 0 {
        let before = SessionView::after(events, now - 1);
        let shown = SessionView::after(events, now);
        law_display_belongs_to_the_applied_ticket(events, now - 1);
        law_history_never_goes_back(events, now - 1, now - 1);
        if shown.applied == before.applied && shown.results == before.results {
            if !(before.applied == 0 && before.results == Seq::<ArticleView>::empty()) {
                let source = choose|source: int|
                    0 <= source < now - 1 && #[trigger] puts_on_display(events, source, before);
                assert(puts_on_display(events, source, shown));
            }
        } else {
            assert(puts_on_display(events, now - 1, shown));
        }
    }
}

/// Whether the event at place `source` put the ticket and the results of
/// `shown` in place.
pub open spec fn puts_on_display(events: Seq<SessionEvent>, source: int, shown: SessionView) -> bool {
    let before = SessionView::after(events, source);
    match events[source] {
        SessionEvent::Edit { text_is_empty } => text_is_empty && shown.applied == before.dispatched
            + 1 && shown.results == Seq::<ArticleView>::empty(),
        SessionEvent::Completion { ticket, hits } => before.accepts(ticket) && shown.applied
            == ticket && shown.results == hits,
        SessionEvent::Refresh => false,
    }
}

} // verus!
