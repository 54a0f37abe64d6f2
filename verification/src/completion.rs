//! Completion candidates and the scrolling-selection state machine over
//! them: a ranked candidate list, an idle/completing selection index with
//! -1 as the idle sentinel, and a display window that scrolls only at its
//! edges.

use vstd::prelude::*;

verus! {

/// One completion candidate: the text inserted on acceptance and a
/// description shown beside it.
#[derive(Debug, PartialEq, Eq)]
pub struct Suggestion {
    text: String,
    description: String,
}

impl Suggestion {
    /// The candidate text.
    pub closed spec fn spec_text(&self) -> Seq<char> {
        self.text@
    }

    /// The candidate description.
    pub closed spec fn spec_description(&self) -> Seq<char> {
        self.description@
    }

    pub fn new(text: String, description: String) -> (s: Suggestion)
        ensures
            s.spec_text() == text@,
            s.spec_description() == description@,
    {
        Suggestion { text, description }
    }

    /// A candidate with no description.
    pub fn with_title(text: String) -> (s: Suggestion)
        ensures
            s.spec_text() == text@,
            s.spec_description() == Seq::<char>::empty(),
    {
        Suggestion { text, description: String::new() }
    }

    pub fn text(&self) -> (r: &str)
        ensures
            r@ == self.spec_text(),
    {
        self.text.as_str()
    }

    pub fn description(&self) -> (r: &str)
        ensures
            r@ == self.spec_description(),
    {
        self.description.as_str()
    }
}

/// A source of completion candidates: the surrounding system implements
/// this, and it is called synchronously with the current input context.
/// Its result is taken as authoritative; nothing is promised of it.
pub trait Completer {
    fn complete(&self, input: &str) -> Vec<Suggestion>;
}

/// Selection and scroll state over a ranked candidate list: `selected` is
/// -1 while idle, otherwise the index of the highlighted candidate;
/// `vertical_scroll` is the first candidate of the display window, which
/// holds `max` candidates at most.
pub struct CompletionManager<C: Completer> {
    selected: i32,
    tmp: Vec<Suggestion>,
    max: usize,
    completer: C,
    vertical_scroll: isize,
}

impl<C: Completer> CompletionManager<C> {
    /// The selection index; -1 while idle.
    pub closed spec fn spec_selected(&self) -> int {
        self.selected as int
    }

    /// First candidate of the display window.
    pub closed spec fn spec_scroll(&self) -> int {
        self.vertical_scroll as int
    }

    /// Size of the display window.
    pub closed spec fn spec_window(&self) -> int {
        self.max as int
    }

    /// The current candidate list.
    pub closed spec fn spec_suggestions(&self) -> Seq<Suggestion> {
        self.tmp@
    }

    pub open spec fn candidate_count(&self) -> int {
        self.spec_suggestions().len() as int
    }

    /// The window size is positive, the selection sits at or above the
    /// idle sentinel, and every index fits an `i32`.
    pub open spec fn wf(&self) -> bool {
        &&& -1 <= self.spec_selected() < i32::MAX as int
        &&& 0 <= self.spec_scroll() <= i32::MAX as int
        &&& self.candidate_count() <= i32::MAX as int
        &&& 1 <= self.spec_window() <= i32::MAX as int
    }

    /// How many candidates the window can show at once: its size, capped
    /// by the number of candidates.
    pub open spec fn effective_window(&self) -> int {
        if self.spec_window() <= self.candidate_count() {
            self.spec_window()
        } else {
            self.candidate_count()
        }
    }

    /// The selection invariant: while idle the window sits at the top;
    /// while completing the selection is a real candidate and lies inside
    /// the scrolled window.
    pub open spec fn window_ok(&self) -> bool {
        if self.spec_selected() == -1 {
            self.spec_scroll() == 0
        } else {
            &&& 0 <= self.spec_selected() < self.candidate_count()
            &&& self.spec_scroll() <= self.spec_selected() < self.spec_scroll()
                + self.effective_window()
        }
    }

    /// An idle manager with no candidates and a window of `max` rows. The
    /// upper bound on `max` is the machine limit of the index arithmetic.
    pub fn new(completer: C, max: usize) -> (m: CompletionManager<C>)
        requires
            1 <= max <= i32::MAX as usize,
        ensures
            m.wf(),
            m.window_ok(),
            m.spec_selected() == -1,
            m.spec_scroll() == 0,
            m.spec_window() == max as int,
            m.candidate_count() == 0,
    {
        CompletionManager { completer, selected: -1, max, vertical_scroll: 0, tmp: Vec::new() }
    }

    /// The current candidate list.
    pub fn get_suggestions(&self) -> (r: &Vec<Suggestion>)
        ensures
            r@ == self.spec_suggestions(),
    {
        &self.tmp
    }

    /// Replaces the candidate list wholesale with what the completion
    /// source returns for `input`. The selection is left as it is; a later
    /// [`Self::update`] resets it if it ran out of range. The list is
    /// capped so that every index fits an `i32`.
    pub fn update_suggestions(&mut self, input: &str)
        requires
            old(self).wf(),
        ensures
            final(self).wf(),
            final(self).spec_selected() == old(self).spec_selected(),
            final(self).spec_scroll() == old(self).spec_scroll(),
            final(self).spec_window() == old(self).spec_window(),
    {
        let mut v = self.completer.complete(input);
        if v.len() > i32::MAX as usize {
            v.truncate(i32::MAX as usize);
        }
        self.tmp = v;
    }

    /// Restores the selection invariant after a mutation: a selection that
    /// ran past the end of the list resets to idle, and one that wrapped
    /// below the idle sentinel jumps to the last candidate, scrolling the
    /// window to the last page.
    pub fn update(&mut self)
        requires
            -2 <= old(self).spec_selected() <= i32::MAX as int,
            0 <= old(self).spec_scroll() <= i32::MAX as int,
            old(self).candidate_count() <= i32::MAX as int,
            1 <= old(self).spec_window() <= i32::MAX as int,
        ensures
            final(self).wf(),
            final(self).spec_window() == old(self).spec_window(),
            ({
                let sel = old(self).spec_selected();
                let n = old(self).candidate_count();
                if sel > -1 && sel >= n {
                    final(self).spec_selected() == -1 && final(self).spec_scroll() == 0
                } else if sel < -1 {
                    &&& final(self).spec_selected() == n - 1
                    &&& final(self).spec_scroll() == n - old(self).effective_window()
                    &&& final(self).spec_suggestions() == old(self).spec_suggestions()
                } else {
                    *final(self) == *old(self)
                }
            }),
            old(self).window_ok() ==> final(self).window_ok(),
    {
        let max = if self.max < self.tmp.len() {
            self.max
        } else {
            self.tmp.len()
        };
        if self.selected > -1 && self.selected as usize >= self.tmp.len() {
            self.reset();
        } else if self.selected < -1 {
            self.selected = self.tmp.len() as i32 - 1;
            self.vertical_scroll = (self.tmp.len() - max) as isize;
        }
    }

    /// Back to idle: no selection, window at the top, and the candidate
    /// list refreshed from the completion source with an empty context.
    pub fn reset(&mut self)
        requires
            old(self).candidate_count() <= i32::MAX as int,
            1 <= old(self).spec_window() <= i32::MAX as int,
        ensures
            final(self).wf(),
            final(self).window_ok(),
            final(self).spec_selected() == -1,
            final(self).spec_scroll() == 0,
            final(self).spec_window() == old(self).spec_window(),
    {
        self.selected = -1;
        self.vertical_scroll = 0;
        self.update_suggestions("");
    }

    /// Moves the selection one candidate up, scrolling only when it sat at
    /// the window's top edge; moving up from idle wraps to the last
    /// candidate, and moving up from the first candidate goes idle.
    pub fn previous(&mut self)
        requires
            old(self).wf(),
        ensures
            final(self).wf(),
            final(self).spec_window() == old(self).spec_window(),
            ({
                let sel = old(self).spec_selected();
                let scr = old(self).spec_scroll();
                let n = old(self).candidate_count();
                let scr1 = if scr == sel && sel > 0 {
                    scr - 1
                } else {
                    scr
                };
                if sel - 1 > -1 && sel - 1 >= n {
                    final(self).spec_selected() == -1 && final(self).spec_scroll() == 0
                } else if sel - 1 < -1 {
                    &&& final(self).spec_selected() == n - 1
                    &&& final(self).spec_scroll() == n - old(self).effective_window()
                    &&& final(self).spec_suggestions() == old(self).spec_suggestions()
                } else {
                    &&& final(self).spec_selected() == sel - 1
                    &&& final(self).spec_scroll() == scr1
                    &&& final(self).spec_suggestions() == old(self).spec_suggestions()
                }
            }),
            old(self).window_ok() ==> final(self).window_ok(),
    {
        if self.vertical_scroll == self.selected as isize && self.selected > 0 {
            self.vertical_scroll -= 1;
        }
        self.selected -= 1;
        self.update();
    }

    /// Moves the selection one candidate down, scrolling only when it sat
    /// at the window's bottom edge; moving past the last candidate resets
    /// to idle.
    pub fn next(&mut self)
        requires
            old(self).wf(),
        ensures
            final(self).wf(),
            final(self).spec_window() == old(self).spec_window(),
            ({
                let sel = old(self).spec_selected();
                let scr = old(self).spec_scroll();
                let n = old(self).candidate_count();
                let scr1 = if sel - scr == old(self).spec_window() - 1 {
                    scr + 1
                } else {
                    scr
                };
                if sel + 1 >= n {
                    final(self).spec_selected() == -1 && final(self).spec_scroll() == 0
                } else {
                    &&& final(self).spec_selected() == sel + 1
                    &&& final(self).spec_scroll() == scr1
                    &&& final(self).spec_suggestions() == old(self).spec_suggestions()
                }
            }),
            old(self).window_ok() ==> final(self).window_ok(),
    {
        if self.selected as isize - self.vertical_scroll == self.max as isize - 1 {
            self.vertical_scroll += 1;
        }
        self.selected += 1;
        self.update();
    }

    /// The selection index a renderer highlights; -1 while idle.
    pub fn selected_index(&self) -> (r: i32)
        ensures
            r as int == self.spec_selected(),
    {
        self.selected
    }

    /// First candidate of the display window.
    pub fn vertical_scroll(&self) -> (r: isize)
        ensures
            r as int == self.spec_scroll(),
    {
        self.vertical_scroll
    }

    /// Whether a candidate is currently selected.
    pub fn completing(&self) -> (b: bool)
        ensures
            b == (self.spec_selected() != -1),
    {
        self.selected != -1
    }

    /// The candidates inside the scrolled display window:
    /// `candidates[scroll .. scroll + effective window]`, clipped to the
    /// candidates that exist.
    pub fn visible_candidates(&self) -> (r: Vec<Suggestion>)
        requires
            self.wf(),
        ensures
            ({
                let n = self.candidate_count();
                let lo = if self.spec_scroll() <= n {
                    self.spec_scroll()
                } else {
                    n
                };
                let hi0 = self.spec_scroll() + self.effective_window();
                let hi = if hi0 <= n {
                    hi0
                } else {
                    n
                };
                r@ == self.spec_suggestions().subrange(lo, hi)
            }),
    {
        let n = self.tmp.len();
        let eff = if self.max < n {
            self.max
        } else {
            n
        };
        let scr = self.vertical_scroll as usize;
        let lo = if scr <= n {
            scr
        } else {
            n
        };
        let hi = if lo == n {
            n
        } else if n - lo <= eff {
            n
        } else {
            lo + eff
        };
        let mut out: Vec<Suggestion> = Vec::new();
        let mut i: usize = lo;
        while i < hi
            invariant
                lo <= i <= hi <= self.tmp@.len(),
                out@ == self.tmp@.subrange(lo as int, i as int),
            decreases hi - i,
        {
            let text = self.tmp[i].text.clone();
            let description = self.tmp[i].description.clone();
            out.push(Suggestion { text, description });
            proof {
                assert(out@ =~= self.tmp@.subrange(lo as int, i + 1));
            }
            i += 1;
        }
        out
    }
}

} // verus!
