use vstd::prelude::*;
use vstd::string::*;
use crate::ansi::segments_view;
use crate::chars::{decimal_padded, push_decimal_padded3};
use crate::color::{timestamp_color, timestamp_color_of, Color};
use crate::entry::{lemma_entries_carry_timestamp, entries_for, entries_of, entries_view, timestamp_of, DataOut, Entry, EntryView};
use crate::escape::{display_runs, highlight_invisible};
use crate::scroll::{content_rows, ScrollState};

verus! {

/// One rendered row: the timestamp with its colour, and the display runs of
/// the entry's text, all on the entry's background.
#[derive(Debug)]
pub struct Row {
    pub timestamp: String,
    pub timestamp_color: Color,
    pub background: Color,
    pub runs: Vec<(String, Color)>,
}

/// A row as plain values.
pub struct RowView {
    pub timestamp: Seq<char>,
    pub timestamp_color: Color,
    pub background: Color,
    pub runs: Seq<(Seq<char>, Color)>,
}

impl View for Row {
    type V = RowView;

    open spec fn view(&self) -> RowView {
        RowView {
            timestamp: self.timestamp@,
            timestamp_color: self.timestamp_color,
            background: self.background,
            runs: segments_view(self.runs@),
        }
    }
}

/// The rendered panel: its title, whether the view follows the newest entry
/// (which the border shows), and the rows from the vertical offset on.
#[derive(Debug)]
pub struct Panel {
    pub title: String,
    pub following: bool,
    pub rows: Vec<Row>,
}

/// A panel as plain values.
pub struct PanelView {
    pub title: Seq<char>,
    pub following: bool,
    pub rows: Seq<RowView>,
}

impl View for Panel {
    type V = PanelView;

    open spec fn view(&self) -> PanelView {
        PanelView {
            title: self.title@,
            following: self.following,
            rows: self.rows@.map_values(|r: Row| r@),
        }
    }
}

/// The newest `limit` items of a list, or all of it where it has no more.
pub open spec fn keep_last<A>(s: Seq<A>, limit: nat) -> Seq<A> {
    if s.len() <= limit {
        s
    } else {
        s.skip(s.len() - limit)
    }
}

/// A text without its first `columns` characters; empty where it has no
/// more than that.
pub open spec fn shifted(text: Seq<char>, columns: nat) -> Seq<char> {
    if columns >= text.len() {
        Seq::empty()
    } else {
        text.skip(columns as int)
    }
}

/// The row that shows an entry, scrolled `columns` characters to the right.
pub open spec fn row_of(e: EntryView, columns: nat) -> RowView {
    RowView {
        timestamp: e.timestamp.label(),
        timestamp_color: timestamp_color_of(e.foreground, e.background),
        background: e.background,
        runs: display_runs(shifted(e.text, columns), e.foreground),
    }
}

/// The panel's title: the number of entries with at least three digits in
/// square brackets, and the panel's name.
pub open spec fn title_of(entry_count: nat) -> Seq<char> {
    seq!['['] + decimal_padded(entry_count, 3) + "] Text UTF-8"@
}

/// The panel that shows `entries` at the scroll position `scroll`.
pub open spec fn panel_of(entries: Seq<EntryView>, scroll: ScrollState) -> PanelView {
    PanelView {
        title: title_of(entries.len()),
        following: scroll.auto_follow,
        rows: entries.skip(scroll.vertical_offset as int).map_values(
            |e: EntryView| row_of(e, scroll.horizontal_offset as nat),
        ),
    }
}

/// A view that follows shows the newest entry on its last row, in a
/// viewport that has room for entries: the panel has a row for each entry
/// that fits, and no more.
pub proof fn lemma_following_panel_ends_with_newest(entries: Seq<EntryView>, scroll: ScrollState)
    requires
        scroll.wf(entries.len()),
        scroll.auto_follow,
        entries.len() > 0,
        content_rows(scroll.viewport_height) > 0,
    ensures
        panel_of(entries, scroll).following,
        panel_of(entries, scroll).rows.len() > 0,
        panel_of(entries, scroll).rows.len() <= content_rows(scroll.viewport_height),
        entries.len() >= content_rows(scroll.viewport_height) ==> panel_of(
            entries,
            scroll,
        ).rows.len() == content_rows(scroll.viewport_height),
        panel_of(entries, scroll).rows.last() == row_of(
            entries.last(),
            scroll.horizontal_offset as nat,
        ),
{
}

/// The entries of a list of events, in order.
pub open spec fn all_entries(events: Seq<DataOut>) -> Seq<EntryView>
    decreases events.len(),
{
    if events.len() == 0 {
        Seq::empty()
    } else {
        all_entries(events.drop_last()) + entries_of(events.last())
    }
}

/// The log after a list of events came in one by one, each followed by the
/// eviction of what is over the limit.
pub open spec fn log_after(log: Seq<EntryView>, events: Seq<DataOut>, limit: nat) -> Seq<
    EntryView,
>
    decreases events.len(),
{
    if events.len() == 0 {
        log
    } else {
        keep_last(log_after(log, events.drop_last(), limit) + entries_of(events.last()), limit)
    }
}

/// After an event has come in while the view follows, the next panel still
/// follows and shows the newest entry of the log on its last row, where the
/// log holds an entry and the viewport has room for one.
pub proof fn lemma_ingest_keeps_newest_in_view(
    log: Seq<EntryView>,
    scroll: ScrollState,
    event: DataOut,
    limit: nat,
)
    requires
        scroll.auto_follow,
        limit <= usize::MAX,
        keep_last(log + entries_of(event), limit).len() > 0,
        content_rows(scroll.viewport_height) > 0,
    ensures
        ({
            let after = keep_last(log + entries_of(event), limit);
            let panel = panel_of(after, scroll.settled(after.len()));
            &&& panel.following
            &&& panel.rows.len() > 0
            &&& panel.rows.len() <= content_rows(scroll.viewport_height)
            &&& panel.rows.last() == row_of(after.last(), scroll.horizontal_offset as nat)
        }),
{
    let after = keep_last(log + entries_of(event), limit);
    lemma_following_panel_ends_with_newest(after, scroll.settled(after.len()));
}

/// Evicting in between changes nothing: the newest of the whole are the
/// newest of what was kept and what came after.
pub proof fn lemma_keep_last_twice<A>(a: Seq<A>, b: Seq<A>, limit: nat)
    ensures
        keep_last(keep_last(a, limit) + b, limit) == keep_last(a + b, limit),
        keep_last(a, limit).len() <= limit,
        keep_last(a, limit).len() <= a.len(),
{
    assert(keep_last(keep_last(a, limit) + b, limit) =~= keep_last(a + b, limit));
}

/// The log never holds more than its limit, and after any list of events
/// it holds exactly the newest entries of all that ever came in, in the
/// order in which they came: the oldest leave first.
pub proof fn lemma_log_keeps_newest(log: Seq<EntryView>, events: Seq<DataOut>, limit: nat)
    requires
        log.len() <= limit,
    ensures
        log_after(log, events, limit) == keep_last(log + all_entries(events), limit),
        log_after(log, events, limit).len() <= limit,
    decreases events.len(),
{
    if events.len() == 0 {
        assert(log + all_entries(events) =~= log);
    } else {
        let front = events.drop_last();
        lemma_log_keeps_newest(log, front, limit);
        lemma_keep_last_twice(log + all_entries(front), entries_of(events.last()), limit);
        assert((log + all_entries(front)) + entries_of(events.last()) =~= log + all_entries(
            events,
        ));
    }
}

/// The history of what went over the device link: a log of entries that
/// holds no more than its capacity, and the scroll position of the view on
/// it.
pub struct TextView {
    history: Vec<Entry>,
    capacity: usize,
    scroll: ScrollState,
}

impl TextView {
    /// The entries of the log, oldest first.
    pub closed spec fn entries(&self) -> Seq<EntryView> {
        entries_view(self.history@)
    }

    /// The largest number of entries that the log holds.
    pub closed spec fn limit(&self) -> nat {
        self.capacity as nat
    }

    /// The scroll position.
    pub closed spec fn scroll_state(&self) -> ScrollState {
        self.scroll
    }

    /// The log is within its limit, every entry has a valid timestamp, and
    /// the scroll position is valid for the log.
    pub open spec fn wf(&self) -> bool {
        &&& self.entries().len() <= self.limit()
        &&& self.scroll_state().wf(self.entries().len())
        &&& forall|i: int|
            0 <= i < self.entries().len() ==> (#[trigger] self.entries()[i]).timestamp.wf()
    }

    /// An empty history with the given capacity, following the newest
    /// entry.
    pub fn new(capacity: usize) -> (view: TextView)
        ensures
            view.wf(),
            view.entries() == Seq::<EntryView>::empty(),
            view.limit() == capacity,
            view.scroll_state() == ScrollState::initial(),
    {
        let view = TextView { history: Vec::new(), capacity, scroll: ScrollState::new() };
        assert(view.entries() =~= Seq::<EntryView>::empty());
        view
    }

    /// The number of entries in the log.
    pub fn len(&self) -> (n: usize)
        ensures
            n == self.entries().len(),
    {
        self.history.len()
    }

    /// The capacity that the history was made with.
    pub fn capacity(&self) -> (c: usize)
        ensures
            c == self.limit(),
    {
        self.capacity
    }

    /// The scroll position.
    pub fn scroll(&self) -> (s: ScrollState)
        ensures
            s == self.scroll_state(),
    {
        self.scroll
    }

    /// The entry at place `index`, counted from the oldest.
    pub fn entry(&self, index: usize) -> (e: &Entry)
        requires
            index < self.entries().len(),
        ensures
            e@ == self.entries()[index as int],
    {
        &self.history[index]
    }

    /// The largest vertical offset for the log as it is.
    pub fn max_main_axis(&self) -> (m: usize)
        ensures
            m == self.scroll_state().bottom(self.entries().len()),
    {
        self.scroll.max_main_axis(self.history.len())
    }

    /// Adds one entry at the end and evicts the oldest where the log is
    /// then over its capacity.
    fn append(&mut self, entry: Entry)
        requires
            old(self).entries().len() <= old(self).limit(),
        ensures
            final(self).entries() == keep_last(
                old(self).entries().push(entry@),
                old(self).limit(),
            ),
            final(self).capacity == old(self).capacity,
            final(self).scroll == old(self).scroll,
    {
        self.history.push(entry);
        assert(entries_view(self.history@) =~= old(self).entries().push(entry@));
        if self.history.len() > self.capacity {
            let ghost full = entries_view(self.history@);
            let _ = self.history.remove(0);
            assert(entries_view(self.history@) =~= keep_last(full, self.capacity as nat));
        }
    }

    /// Takes in one event: its entries are added to the log in order, and
    /// after each of them the oldest entry leaves where the log is over its
    /// capacity. A view that follows moves to the new bottom.
    pub fn add_data_out(&mut self, data: DataOut)
        requires
            old(self).wf(),
            timestamp_of(data).wf(),
        ensures
            final(self).wf(),
            final(self).limit() == old(self).limit(),
            final(self).entries() == keep_last(
                old(self).entries() + entries_of(data),
                old(self).limit(),
            ),
            final(self).entries().len() <= final(self).limit(),
            final(self).scroll_state() == old(self).scroll_state().settled(
                final(self).entries().len(),
            ),
    {
        let added = entries_for(data);
        let ghost fresh = entries_of(data);
        let ghost before = self.entries();
        let ghost limit = self.limit();
        let mut k: usize = 0;
        assert(before + fresh.take(0) =~= before);
        while k < added.len()
            invariant
                k <= added@.len(),
                entries_view(added@) == fresh,
                fresh == entries_of(data),
                timestamp_of(data).wf(),
                self.capacity == old(self).capacity,
                self.scroll == old(self).scroll,
                limit == self.limit(),
                self.entries() == keep_last(before + fresh.take(k as int), limit),
                self.entries().len() <= limit,
                forall|i: int|
                    0 <= i < self.entries().len() ==> (#[trigger] self.entries()[i]).timestamp.wf(),
                forall|i: int| 0 <= i < before.len() ==> (#[trigger] before[i]).timestamp.wf(),
            decreases added@.len() - k,
        {
            let entry = added[k].duplicate();
            assert(entry@ == fresh[k as int]);
            proof {
                lemma_entries_carry_timestamp(data);
                assert(entry@.timestamp == timestamp_of(data));
                lemma_keep_last_twice(before + fresh.take(k as int), seq![entry@], limit);
                assert((before + fresh.take(k as int)) + seq![entry@] =~= before + fresh.take(
                    k + 1,
                ));
                assert(self.entries() + seq![entry@] =~= self.entries().push(entry@));
            }
            let ghost prior = self.entries();
            self.append(entry);
            assert forall|i: int| 0 <= i < self.entries().len() implies (
            #[trigger] self.entries()[i]).timestamp.wf() by {
                let whole = prior.push(entry@);
                let shift = whole.len() - self.entries().len();
                assert(self.entries()[i] == whole[i + shift]);
                if i + shift < prior.len() {
                    assert(whole[i + shift] == prior[i + shift]);
                }
            }
            k += 1;
        }
        assert(fresh.take(k as int) =~= fresh);
        self.scroll.settle(self.history.len());
    }

    /// Empties the log and puts the view back to the top left, following.
    pub fn clear(&mut self)
        ensures
            final(self).wf(),
            final(self).entries() == Seq::<EntryView>::empty(),
            final(self).limit() == old(self).limit(),
            final(self).scroll_state() == (ScrollState {
                vertical_offset: 0,
                horizontal_offset: 0,
                auto_follow: true,
                ..old(self).scroll_state()
            }),
    {
        self.scroll.vertical_offset = 0;
        self.scroll.horizontal_offset = 0;
        self.scroll.auto_follow = true;
        self.history.clear();
        assert(self.entries() =~= Seq::<EntryView>::empty());
    }

    /// Scrolls three rows up, no further than the first entry. Following
    /// ends unless all entries fit into the viewport.
    pub fn up_scroll(&mut self)
        requires
            old(self).wf(),
        ensures
            final(self).wf(),
            final(self).entries() == old(self).entries(),
            final(self).limit() == old(self).limit(),
            final(self).scroll_state() == old(self).scroll_state().up(old(self).entries().len()),
    {
        self.scroll.scroll_up(self.history.len());
    }

    /// Scrolls three rows down, no further than the bottom, where following
    /// starts again.
    pub fn down_scroll(&mut self)
        requires
            old(self).wf(),
        ensures
            final(self).wf(),
            final(self).entries() == old(self).entries(),
            final(self).limit() == old(self).limit(),
            final(self).scroll_state() == old(self).scroll_state().down(
                old(self).entries().len(),
            ),
    {
        self.scroll.scroll_down(self.history.len());
    }

    /// Scrolls three columns to the left, no further than the first.
    pub fn left_scroll(&mut self)
        requires
            old(self).wf(),
        ensures
            final(self).wf(),
            final(self).entries() == old(self).entries(),
            final(self).limit() == old(self).limit(),
            final(self).scroll_state() == old(self).scroll_state().left(),
    {
        self.scroll.scroll_left();
    }

    /// Scrolls three columns to the right.
    pub fn right_scroll(&mut self)
        requires
            old(self).wf(),
        ensures
            final(self).wf(),
            final(self).entries() == old(self).entries(),
            final(self).limit() == old(self).limit(),
            final(self).scroll_state() == old(self).scroll_state().right(),
    {
        self.scroll.scroll_right();
    }

    /// Stores the height of the viewport and brings the vertical offset in
    /// line with it.
    pub fn set_frame_height(&mut self, frame_height: u16)
        requires
            old(self).wf(),
        ensures
            final(self).wf(),
            final(self).entries() == old(self).entries(),
            final(self).limit() == old(self).limit(),
            final(self).scroll_state() == old(self).scroll_state().resized(
                frame_height,
                old(self).entries().len(),
            ),
    {
        self.scroll.resize(frame_height, self.history.len());
    }

    /// Brings the vertical offset in line with the log, whatever it was: to
    /// the bottom while the view follows, else no lower than the bottom. The
    /// scroll position is valid for the log afterwards; that of a valid view
    /// is in line already and stays as it is.
    pub fn update_scroll(&mut self)
        ensures
            final(self).entries() == old(self).entries(),
            final(self).limit() == old(self).limit(),
            final(self).scroll_state() == old(self).scroll_state().settled(
                old(self).entries().len(),
            ),
            final(self).scroll_state().wf(final(self).entries().len()),
            old(self).wf() ==> final(self).wf() && final(self).scroll_state() == old(
                self,
            ).scroll_state(),
    {
        self.scroll.settle(self.history.len());
    }

    /// Renders one entry as a row, scrolled `columns` characters to the
    /// right.
    pub fn draw_row(entry: &Entry, columns: usize) -> (row: Row)
        requires
            entry.timestamp.wf(),
        ensures
            row@ == row_of(entry@, columns as nat),
    {
        let text = entry.text.as_str();
        let n: usize = text.unicode_len();
        let content = if columns >= n {
            text.substring_char(n, n)
        } else {
            text.substring_char(columns, n)
        };
        assert(content@ =~= shifted(entry@.text, columns as nat));
        Row {
            timestamp: entry.timestamp.format(),
            timestamp_color: timestamp_color(entry.foreground, entry.background),
            background: entry.background,
            runs: highlight_invisible(content, entry.foreground),
        }
    }

    /// Renders the panel: the title with the number of entries, and a row
    /// for each entry from the vertical offset to the newest.
    pub fn draw(&self) -> (panel: Panel)
        requires
            self.wf(),
        ensures
            panel@ == panel_of(self.entries(), self.scroll_state()),
    {
        let mut title = String::new();
        title.push('[');
        push_decimal_padded3(&mut title, self.history.len());
        title.append("] Text UTF-8");
        let mut rows: Vec<Row> = Vec::new();
        let first: usize = self.scroll.vertical_offset;
        let columns: usize = self.scroll.horizontal_offset;
        let ghost shown = self.entries().skip(first as int);
        let ghost render = |e: EntryView| row_of(e, columns as nat);
        let mut i: usize = first;
        assert(rows@.map_values(|r: Row| r@) =~= shown.take(0).map_values(render));
        while i < self.history.len()
            invariant
                self.wf(),
                first <= i <= self.history@.len(),
                first == self.scroll.vertical_offset,
                columns == self.scroll.horizontal_offset,
                shown == self.entries().skip(first as int),
                render == |e: EntryView| row_of(e, columns as nat),
                rows@.map_values(|r: Row| r@) == shown.take(i - first).map_values(render),
            decreases self.history@.len() - i,
        {
            let ghost before = rows@.map_values(|r: Row| r@);
            assert(self.entries()[i as int].timestamp.wf());
            let row = TextView::draw_row(&self.history[i], columns);
            let ghost added = row@;
            rows.push(row);
            assert(rows@.map_values(|r: Row| r@) =~= before.push(added));
            assert(shown.take(i + 1 - first).map_values(render) =~= shown.take(
                i - first,
            ).map_values(render).push(render(shown[i - first])));
            i += 1;
        }
        assert(shown.take(i - first) =~= shown);
        let panel = Panel { title, following: self.scroll.auto_follow, rows };
        assert(panel@.title =~= title_of(self.entries().len()));
        panel
    }
}

} // verus!
