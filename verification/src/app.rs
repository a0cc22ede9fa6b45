//! The application state: the stash collection, the selection, the active
//! mode, the search filter and the content buffer with its scroll offset.
//!
//! `AppView` is the mathematical state; every operation on `App` is stated
//! as a function from one `AppView` to the next.

use crate::git::{stash_views, GatewayError, Stash, StashView};
use crate::text::{
    chars_of, contains, contains_exec, lines_of, lowercase_of, occurs_at, split_lines, views_of,
};
use vstd::prelude::*;

verus! {

/// What a confirmation dialog is about to do with the selected stash.
#[derive(Debug, PartialEq, Eq, Clone, Copy)]
pub enum ConfirmAction {
    Drop,
    Pop,
    Apply,
}

/// Which sub-view is active.
#[derive(Debug, PartialEq, Clone)]
pub enum Mode {
    /// The stash list.
    Normal,
    /// The content buffer, holding a diff.
    Diff,
    /// The content buffer, holding a file list.
    Files,
    /// A confirmation dialog.
    Confirm(ConfirmAction),
    /// The form for a new stash.
    NewStash,
    /// A message that any key dismisses.
    Message(String),
}

/// The mathematical value of a `Mode`.
pub enum ModeView {
    Normal,
    Diff,
    Files,
    Confirm(ConfirmAction),
    NewStash,
    Message(Seq<char>),
}

impl View for Mode {
    type V = ModeView;

    open spec fn view(&self) -> ModeView {
        match self {
            Mode::Normal => ModeView::Normal,
            Mode::Diff => ModeView::Diff,
            Mode::Files => ModeView::Files,
            Mode::Confirm(action) => ModeView::Confirm(*action),
            Mode::NewStash => ModeView::NewStash,
            Mode::Message(text) => ModeView::Message(text@),
        }
    }
}

/// The whole state of the application.
#[derive(Debug, Clone)]
pub struct App {
    /// The stash collection, as last fetched.
    pub stashes: Vec<Stash>,
    /// Index into the filtered view.
    pub selected: usize,
    pub mode: Mode,
    /// The lines of the diff or file list that is shown.
    pub diff_content: Vec<String>,
    /// Index of the first line shown.
    pub diff_scroll: usize,
    pub search_query: String,
    /// Whether the search query is being typed.
    pub searching: bool,
    pub new_stash_input: String,
    pub new_stash_untracked: bool,
    pub status_msg: Option<String>,
    pub current_branch: String,
}

/// The mathematical value of an `App`.
pub struct AppView {
    pub stashes: Seq<StashView>,
    pub selected: nat,
    pub mode: ModeView,
    pub diff_content: Seq<Seq<char>>,
    pub diff_scroll: nat,
    pub search_query: Seq<char>,
    pub searching: bool,
    pub new_stash_input: Seq<char>,
    pub new_stash_untracked: bool,
    pub status_msg: Option<Seq<char>>,
    pub current_branch: Seq<char>,
}

impl View for App {
    type V = AppView;

    open spec fn view(&self) -> AppView {
        AppView {
            stashes: stash_views(self.stashes@),
            selected: self.selected as nat,
            mode: self.mode@,
            diff_content: views_of(self.diff_content@),
            diff_scroll: self.diff_scroll as nat,
            search_query: self.search_query@,
            searching: self.searching,
            new_stash_input: self.new_stash_input@,
            new_stash_untracked: self.new_stash_untracked,
            status_msg: match self.status_msg {
                Some(s) => Some(s@),
                None => None,
            },
            current_branch: self.current_branch@,
        }
    }
}

/// `v` brought into the range from `lo` to `hi`.
pub open spec fn clamp(v: int, lo: int, hi: int) -> int {
    if v < lo {
        lo
    } else if v > hi {
        hi
    } else {
        v
    }
}

/// A stash answers a query when the lowercase query is part of its
/// lowercase short message or of its lowercase branch.
pub open spec fn matches(stash: StashView, query: Seq<char>) -> bool {
    ||| contains(lowercase_of(stash.short_msg), lowercase_of(query))
    ||| contains(lowercase_of(stash.branch), lowercase_of(query))
}

/// `matches` for a fixed query, as a predicate on stashes.
pub open spec fn matching(query: Seq<char>) -> spec_fn(StashView) -> bool {
    |stash: StashView| matches(stash, query)
}

/// The text of a branch lookup, which is empty where the lookup failed.
pub open spec fn branch_or_empty(branch: Result<String, GatewayError>) -> Seq<char> {
    match branch {
        Ok(b) => b@,
        Err(_) => Seq::empty(),
    }
}

/// The views of a sequence of borrowed stashes.
pub open spec fn ref_views(v: Seq<&Stash>) -> Seq<StashView> {
    v.map_values(|s: &Stash| s@)
}

impl AppView {
    /// The state at startup, before any key.
    pub open spec fn initial(stashes: Seq<StashView>, branch: Seq<char>) -> AppView {
        AppView {
            stashes,
            selected: 0,
            mode: ModeView::Normal,
            diff_content: Seq::empty(),
            diff_scroll: 0,
            search_query: Seq::empty(),
            searching: false,
            new_stash_input: Seq::empty(),
            new_stash_untracked: false,
            status_msg: None,
            current_branch: branch,
        }
    }

    /// The stashes that the list shows: all of them while the query is
    /// empty, else those that answer the query, in their order.
    pub open spec fn filtered(self) -> Seq<StashView> {
        if self.search_query.len() == 0 {
            self.stashes
        } else {
            self.stashes.filter(matching(self.search_query))
        }
    }

    /// The stash under the selection, if the selection lies in the filtered
    /// view.
    pub open spec fn selected_record(self) -> Option<StashView> {
        if self.selected < self.filtered().len() {
            Some(self.filtered()[self.selected as int])
        } else {
            None
        }
    }

    /// The state after the selection moved by `delta`, kept inside the
    /// filtered view; on an empty view nothing changes.
    pub open spec fn move_selection(self, delta: int) -> AppView {
        let n = self.filtered().len();
        if n == 0 {
            self
        } else {
            AppView { selected: clamp(self.selected + delta, 0, n - 1) as nat, ..self }
        }
    }

    /// The state after the content scrolled by `delta` lines, kept inside
    /// the buffer; with an empty buffer the offset is 0.
    pub open spec fn scroll_content(self, delta: int) -> AppView {
        let n = self.diff_content.len();
        if n == 0 {
            AppView { diff_scroll: 0, ..self }
        } else {
            AppView { diff_scroll: clamp(self.diff_scroll + delta, 0, n - 1) as nat, ..self }
        }
    }

    /// The state after a fresh collection and branch name arrived: the
    /// selection is brought back inside the collection, and is 0 where the
    /// collection is empty.
    pub open spec fn reloaded(self, stashes: Seq<StashView>, branch: Seq<char>) -> AppView {
        AppView {
            stashes,
            current_branch: branch,
            selected: if stashes.len() == 0 {
                0
            } else if self.selected >= stashes.len() {
                (stashes.len() - 1) as nat
            } else {
                self.selected
            },
            ..self
        }
    }

    /// The state after a text arrived for the selected stash: its lines fill
    /// the buffer and the offset is 0. Without a selected stash nothing
    /// changes.
    pub open spec fn with_content(self, text: Seq<char>) -> AppView {
        if self.selected_record() is Some {
            AppView { diff_content: lines_of(text), diff_scroll: 0, ..self }
        } else {
            self
        }
    }

    /// The selection lies inside the filtered view, unless that view is
    /// empty.
    pub open spec fn selection_in_view(self) -> bool {
        self.filtered().len() == 0 || self.selected < self.filtered().len()
    }

    /// The scroll offset lies inside the buffer, and is 0 where the buffer
    /// is empty.
    pub open spec fn scroll_in_bounds(self) -> bool {
        if self.diff_content.len() == 0 {
            self.diff_scroll == 0
        } else {
            self.diff_scroll < self.diff_content.len()
        }
    }
}

/// The positions below `n` of the stashes that answer a query, in ascending
/// order.
pub open spec fn shown_positions(stashes: Seq<StashView>, query: Seq<char>, n: int) -> Seq<int>
    decreases n,
{
    if n <= 0 {
        Seq::empty()
    } else {
        let before = shown_positions(stashes, query, n - 1);
        if matches(stashes[n - 1], query) {
            before.push(n - 1)
        } else {
            before
        }
    }
}

/// The state after scrolling down by one line, `times` times in a row.
pub open spec fn scrolled_down(s: AppView, times: nat) -> AppView
    decreases times,
{
    if times == 0 {
        s
    } else {
        scrolled_down(s, (times - 1) as nat).scroll_content(1)
    }
}

/// Every stash answers the empty query: the lowercase form of the empty
/// text is empty, and the empty text is part of every text.
pub proof fn lemma_empty_query_is_answered_by_all(stash: StashView, query: Seq<char>)
    requires
        query.len() == 0,
    ensures
        matches(stash, query),
{
    let text = lowercase_of(stash.short_msg);
    let none = lowercase_of(query);
    assert(text.subrange(0, 0) =~= none);
    assert(occurs_at(text, none, 0));
}

proof fn lemma_shown_positions(stashes: Seq<StashView>, query: Seq<char>, n: int)
    requires
        0 <= n <= stashes.len(),
    ensures
        ({
            let at = shown_positions(stashes, query, n);
            let shown = stashes.take(n).filter(matching(query));
            &&& shown.len() == at.len()
            &&& forall|k: int|
                0 <= k < at.len() ==> 0 <= #[trigger] at[k] < n && shown[k] == stashes[at[k]]
            &&& forall|k: int, l: int| 0 <= k < l < at.len() ==> at[k] < at[l]
            &&& forall|k: int| 0 <= k < at.len() ==> matches(stashes[#[trigger] at[k]], query)
            &&& forall|i: int| 0 <= i < n && matches(stashes[i], query) ==> at.contains(i)
        }),
    decreases n,
{
    let pred = matching(query);
    if n <= 0 {
        assert(stashes.take(0) =~= Seq::<StashView>::empty());
        reveal(Seq::filter);
        assert(stashes.take(0).filter(pred) =~= Seq::<StashView>::empty());
    } else {
        lemma_shown_positions(stashes, query, n - 1);
        let before = shown_positions(stashes, query, n - 1);
        let at = shown_positions(stashes, query, n);
        assert(stashes.take(n) =~= stashes.take(n - 1).push(stashes[n - 1]));
        stashes.take(n - 1).lemma_filter_push(stashes[n - 1], pred);
        assert(pred(stashes[n - 1]) == matches(stashes[n - 1], query));
        if matches(stashes[n - 1], query) {
            assert(at == before.push(n - 1));
            assert(at[at.len() - 1] == n - 1);
            assert forall|i: int| 0 <= i < n && matches(stashes[i], query) implies at.contains(
                i,
            ) by {
                if i < n - 1 {
                    assert(before.contains(i));
                    let k = choose|k: int| 0 <= k < before.len() && before[k] == i;
                    assert(at[k] == i);
                } else {
                    assert(at[at.len() - 1] == i);
                }
            }
        } else {
            assert(at == before);
        }
    }
}

/// For every query, the filtered view is the collection filtered by
/// `matches`: it holds exactly the stashes whose lowercase short message or
/// lowercase branch contains the lowercase query, in their original order.
/// It lists the stashes at the shown positions, which ascend, leave out no
/// stash that answers the query, and hold none that does not. With an empty
/// query that is the whole collection.
pub proof fn lemma_filtered_is_ordered_selection(s: AppView)
    ensures
        s.filtered() == s.stashes.filter(matching(s.search_query)),
        ({
            let at = shown_positions(s.stashes, s.search_query, s.stashes.len() as int);
            &&& s.filtered().len() == at.len()
            &&& forall|k: int|
                0 <= k < at.len() ==> 0 <= #[trigger] at[k] < s.stashes.len() && s.filtered()[k]
                    == s.stashes[at[k]]
            &&& forall|k: int, l: int| 0 <= k < l < at.len() ==> at[k] < at[l]
            &&& forall|k: int|
                0 <= k < at.len() ==> matches(s.stashes[#[trigger] at[k]], s.search_query)
            &&& forall|i: int|
                0 <= i < s.stashes.len() && matches(s.stashes[i], s.search_query) ==> at.contains(
                    i,
                )
        }),
        forall|k: int|
            0 <= k < s.filtered().len() ==> matches(#[trigger] s.filtered()[k], s.search_query),
        s.search_query.len() == 0 ==> s.filtered() == s.stashes,
{
    let pred = matching(s.search_query);
    if s.search_query.len() == 0 {
        assert forall|i: int| 0 <= i < s.stashes.len() implies pred(#[trigger] s.stashes[i]) by {
            lemma_empty_query_is_answered_by_all(s.stashes[i], s.search_query);
        }
        lemma_filter_keeps_all(s.stashes, pred);
    }
    lemma_shown_positions(s.stashes, s.search_query, s.stashes.len() as int);
    assert(s.stashes.take(s.stashes.len() as int) =~= s.stashes);
}

proof fn lemma_filter_keeps_all(stashes: Seq<StashView>, pred: spec_fn(StashView) -> bool)
    requires
        forall|i: int| 0 <= i < stashes.len() ==> pred(#[trigger] stashes[i]),
    ensures
        stashes.filter(pred) == stashes,
    decreases stashes.len(),
{
    if stashes.len() == 0 {
        reveal(Seq::filter);
    } else {
        let front = stashes.drop_last();
        assert forall|i: int| 0 <= i < front.len() implies pred(#[trigger] front[i]) by {
            assert(front[i] == stashes[i]);
        }
        lemma_filter_keeps_all(front, pred);
        front.lemma_filter_push(stashes.last(), pred);
        assert(front.push(stashes.last()) =~= stashes);
    }
}

/// A reload to a collection that is not empty leaves the selection inside
/// it, whatever the selection was before.
pub proof fn lemma_reload_keeps_selection_inside(
    s: AppView,
    stashes: Seq<StashView>,
    branch: Seq<char>,
)
    requires
        stashes.len() > 0,
    ensures
        s.reloaded(stashes, branch).selected < stashes.len(),
{
}

/// Moving the selection never takes it out of the filtered view, and on an
/// empty view it changes nothing.
pub proof fn lemma_move_stays_in_view(s: AppView, delta: int)
    ensures
        s.filtered().len() > 0 ==> s.move_selection(delta).selected < s.filtered().len(),
        s.filtered().len() == 0 ==> s.move_selection(delta) == s,
        s.move_selection(delta).filtered() == s.filtered(),
{
}

/// Scrolling down line by line from the top of a buffer that is not empty
/// moves one line at a time until the last line, and stays there: as many
/// steps as the buffer has lines end on the last line, and no number of
/// steps goes past it.
pub proof fn lemma_scrolling_down_stops_at_last_line(s: AppView, times: nat)
    requires
        s.diff_content.len() > 0,
        s.diff_scroll == 0,
    ensures
        scrolled_down(s, times).diff_content == s.diff_content,
        scrolled_down(s, times).diff_scroll <= s.diff_content.len() - 1,
        times < s.diff_content.len() ==> scrolled_down(s, times).diff_scroll == times,
        times >= s.diff_content.len() - 1 ==> scrolled_down(s, times).diff_scroll
            == s.diff_content.len() - 1,
    decreases times,
{
    if times > 0 {
        lemma_scrolling_down_stops_at_last_line(s, (times - 1) as nat);
    }
}

/// Scrolling leaves the offset inside the buffer, whatever it was before.
pub proof fn lemma_scroll_stays_in_buffer(s: AppView, delta: int)
    ensures
        s.scroll_content(delta).scroll_in_bounds(),
        s.scroll_in_bounds() ==> s.scroll_content(0) == s,
{
}

impl App {
    /// The state at startup, from what the tool answered to the listing and
    /// to the branch lookup. A failed listing is the result; a failed branch
    /// lookup leaves the branch name empty.
    pub fn new(listing: Result<Vec<Stash>, GatewayError>, branch: Result<String, GatewayError>) -> (r:
        Result<App, GatewayError>)
        ensures
            match listing {
                Ok(stashes) => r is Ok && r->Ok_0@ == AppView::initial(
                    stash_views(stashes@),
                    branch_or_empty(branch),
                ),
                Err(e) => r is Err && r->Err_0 == e,
            },
            r is Ok ==> r->Ok_0@.scroll_in_bounds(),
    {
        let stashes = match listing {
            Ok(stashes) => stashes,
            Err(e) => {
                return Err(e);
            },
        };
        let current_branch = match branch {
            Ok(b) => b,
            Err(_) => String::new(),
        };
        let app = App {
            stashes,
            selected: 0,
            mode: Mode::Normal,
            diff_content: Vec::new(),
            diff_scroll: 0,
            search_query: String::new(),
            searching: false,
            new_stash_input: String::new(),
            new_stash_untracked: false,
            status_msg: None,
            current_branch,
        };
        assert(app@.diff_content =~= Seq::<Seq<char>>::empty());
        Ok(app)
    }

    /// Takes over a fresh collection and branch name. A failed listing is
    /// the result and leaves the state as it was; a failed branch lookup
    /// leaves the branch name empty. After a listing that is not empty the
    /// selection lies inside it.
    pub fn reload(
        &mut self,
        listing: Result<Vec<Stash>, GatewayError>,
        branch: Result<String, GatewayError>,
    ) -> (r: Result<(), GatewayError>)
        ensures
            match listing {
                Ok(stashes) => r is Ok && final(self)@ == old(self)@.reloaded(
                    stash_views(stashes@),
                    branch_or_empty(branch),
                ),
                Err(e) => r is Err && r->Err_0 == e && *final(self) == *old(self),
            },
            listing is Ok && listing->Ok_0@.len() > 0 ==> final(self).selected
                < final(self).stashes@.len(),
            old(self)@.scroll_in_bounds() ==> final(self)@.scroll_in_bounds(),
    {
        let stashes = match listing {
            Ok(stashes) => stashes,
            Err(e) => {
                return Err(e);
            },
        };
        self.stashes = stashes;
        self.current_branch = match branch {
            Ok(b) => b,
            Err(_) => String::new(),
        };
        let n = self.stashes.len();
        if n == 0 {
            self.selected = 0;
        } else if self.selected >= n {
            self.selected = n - 1;
        }
        Ok(())
    }

    /// The stashes that the list shows, in their order: exactly those whose
    /// lowercase short message or lowercase branch contains the lowercase
    /// query, which are all of them while the query is empty. The result
    /// borrows them from the collection, at the shown positions.
    pub fn filtered_stashes(&self) -> (r: Vec<&Stash>)
        ensures
            ref_views(r@) == self@.filtered(),
            ref_views(r@) == self@.stashes.filter(matching(self@.search_query)),
            forall|k: int| 0 <= k < r@.len() ==> matches((#[trigger] r@[k])@, self@.search_query),
            r@.len() == shown_positions(
                self@.stashes,
                self@.search_query,
                self.stashes@.len() as int,
            ).len(),
            forall|k: int|
                0 <= k < r@.len() ==> *r@[k] == self.stashes@[#[trigger] shown_positions(
                    self@.stashes,
                    self@.search_query,
                    self.stashes@.len() as int,
                )[k]],
    {
        let mut out: Vec<&Stash> = Vec::new();
        let n = self.stashes.len();
        let no_query = self.search_query.as_str().is_empty();
        let q = if no_query {
            Vec::new()
        } else {
            chars_of(self.search_query.as_str().to_lowercase().as_str())
        };
        let ghost all = self@.stashes;
        let ghost query = self@.search_query;
        let mut i: usize = 0;
        proof {
            lemma_shown_positions(all, query, 0);
            assert(ref_views(out@) =~= Seq::<StashView>::empty());
        }
        while i < n
            invariant
                i <= n == self.stashes.len(),
                all == stash_views(self.stashes@),
                query == self.search_query@,
                no_query == (query.len() == 0),
                !no_query ==> q@ == lowercase_of(query),
                ref_views(out@) == all.take(i as int).filter(matching(query)),
                forall|k: int| 0 <= k < out@.len() ==> matches((#[trigger] out@[k])@, query),
                out@.len() == shown_positions(all, query, i as int).len(),
                forall|k: int|
                    0 <= k < out@.len() ==> *out@[k] == self.stashes@[#[trigger] shown_positions(
                        all,
                        query,
                        i as int,
                    )[k]],
            decreases n - i,
        {
            let ghost before = ref_views(out@);
            let stash = &self.stashes[i];
            let hit = no_query || contains_exec(
                &chars_of(stash.short_msg.as_str().to_lowercase().as_str()),
                &q,
            ) || contains_exec(&chars_of(stash.branch.as_str().to_lowercase().as_str()), &q);
            proof {
                assert(all[i as int] == stash@);
                if no_query {
                    lemma_empty_query_is_answered_by_all(stash@, query);
                }
                assert(hit == matches(stash@, query));
                assert(all.take(i + 1) =~= all.take(i as int).push(all[i as int]));
                all.take(i as int).lemma_filter_push(all[i as int], matching(query));
                lemma_shown_positions(all, query, i as int);
            }
            if hit {
                out.push(stash);
                assert(ref_views(out@) =~= before.push(stash@));
            }
            i += 1;
        }
        proof {
            assert(all.take(n as int) =~= all);
            lemma_filtered_is_ordered_selection(self@);
        }
        out
    }

    /// The stash under the selection, if the selection lies in the filtered
    /// view.
    pub fn selected_stash(&self) -> (r: Option<&Stash>)
        ensures
            match r {
                Some(s) => self@.selected_record() == Some(s@),
                None => self@.selected_record() is None,
            },
    {
        let filtered = self.filtered_stashes();
        if self.selected < filtered.len() {
            let s: &Stash = filtered[self.selected];
            assert(ref_views(filtered@)[self.selected as int] == s@);
            Some(s)
        } else {
            None
        }
    }

    fn load_content(&mut self, raw: Result<String, GatewayError>) -> (r: Result<(), GatewayError>)
        ensures
            match raw {
                Ok(text) => r is Ok && final(self)@ == old(self)@.with_content(text@),
                Err(e) => if old(self)@.selected_record() is Some {
                    r is Err && r->Err_0 == e && *final(self) == *old(self)
                } else {
                    r is Ok && *final(self) == *old(self)
                },
            },
            old(self)@.scroll_in_bounds() ==> final(self)@.scroll_in_bounds(),
    {
        if self.selected_stash().is_none() {
            return Ok(());
        }
        match raw {
            Ok(text) => {
                self.diff_content = split_lines(text.as_str());
                self.diff_scroll = 0;
                Ok(())
            },
            Err(e) => Err(e),
        }
    }

    /// Fills the content buffer with the lines of the diff that the tool
    /// gave for the selected stash, and scrolls to the top. Without a
    /// selected stash nothing changes, whatever the tool gave; with one, a
    /// failure is the result and leaves the state as it was.
    pub fn load_diff(&mut self, raw: Result<String, GatewayError>) -> (r: Result<(), GatewayError>)
        ensures
            match raw {
                Ok(text) => r is Ok && final(self)@ == old(self)@.with_content(text@),
                Err(e) => if old(self)@.selected_record() is Some {
                    r is Err && r->Err_0 == e && *final(self) == *old(self)
                } else {
                    r is Ok && *final(self) == *old(self)
                },
            },
            old(self)@.scroll_in_bounds() ==> final(self)@.scroll_in_bounds(),
    {
        self.load_content(raw)
    }

    /// Fills the content buffer with the lines of the file list that the
    /// tool gave for the selected stash, and scrolls to the top. Without a
    /// selected stash nothing changes, whatever the tool gave; with one, a
    /// failure is the result and leaves the state as it was.
    pub fn load_files(&mut self, raw: Result<String, GatewayError>) -> (r: Result<(), GatewayError>)
        ensures
            match raw {
                Ok(text) => r is Ok && final(self)@ == old(self)@.with_content(text@),
                Err(e) => if old(self)@.selected_record() is Some {
                    r is Err && r->Err_0 == e && *final(self) == *old(self)
                } else {
                    r is Ok && *final(self) == *old(self)
                },
            },
            old(self)@.scroll_in_bounds() ==> final(self)@.scroll_in_bounds(),
    {
        self.load_content(raw)
    }

    /// Moves the selection one stash up. It never leaves the filtered view,
    /// and on an empty view nothing changes.
    pub fn move_up(&mut self)
        ensures
            final(self)@ == old(self)@.move_selection(-1),
            old(self)@.filtered().len() > 0 ==> final(self).selected < old(self)@.filtered().len(),
            old(self)@.filtered().len() == 0 ==> *final(self) == *old(self),
    {
        let n = self.filtered_stashes().len();
        if n > 0 {
            if self.selected == 0 {
            } else if self.selected > n {
                self.selected = n - 1;
            } else {
                self.selected = self.selected - 1;
            }
        }
    }

    /// Moves the selection one stash down. It never leaves the filtered
    /// view, and on an empty view nothing changes.
    pub fn move_down(&mut self)
        ensures
            final(self)@ == old(self)@.move_selection(1),
            old(self)@.filtered().len() > 0 ==> final(self).selected < old(self)@.filtered().len(),
            old(self)@.filtered().len() == 0 ==> *final(self) == *old(self),
    {
        let n = self.filtered_stashes().len();
        if n > 0 {
            if self.selected >= n - 1 {
                self.selected = n - 1;
            } else {
                self.selected = self.selected + 1;
            }
        }
    }

    /// Scrolls the content by `delta` lines, up for a negative `delta`, and
    /// stops at the first and at the last line. With an empty buffer the
    /// offset becomes 0.
    pub fn scroll_content(&mut self, delta: isize)
        ensures
            final(self)@ == old(self)@.scroll_content(delta as int),
            final(self)@.scroll_in_bounds(),
    {
        let n = self.diff_content.len();
        if n == 0 {
            self.diff_scroll = 0;
        } else if delta >= 0 {
            let room: usize = if self.diff_scroll >= n - 1 {
                0
            } else {
                n - 1 - self.diff_scroll
            };
            if self.diff_scroll >= n - 1 || delta as usize >= room {
                self.diff_scroll = n - 1;
            } else {
                self.diff_scroll = self.diff_scroll + delta as usize;
            }
        } else {
            let back: usize = if delta == isize::MIN {
                isize::MAX as usize + 1
            } else {
                (-delta) as usize
            };
            let target: usize = if back >= self.diff_scroll {
                0
            } else {
                self.diff_scroll - back
            };
            self.diff_scroll = if target > n - 1 {
                n - 1
            } else {
                target
            };
        }
    }

    /// Scrolls the content one line up, not past the first line.
    pub fn scroll_diff_up(&mut self)
        ensures
            final(self)@ == old(self)@.scroll_content(-1),
            final(self)@.scroll_in_bounds(),
    {
        self.scroll_content(-1)
    }

    /// Scrolls the content one line down, not past the last line.
    pub fn scroll_diff_down(&mut self)
        ensures
            final(self)@ == old(self)@.scroll_content(1),
            final(self)@.scroll_in_bounds(),
    {
        self.scroll_content(1)
    }
}

} // verus!
