//! The window that shows help.
use crate::text::lines;
use vstd::prelude::*;

verus! {

/// The window that shows help: whether it is open, what it shows, and how far it is
/// scrolled up from the end.
pub struct HelpModalState {
    active: bool,
    content: Vec<String>,
    scroll_offset: usize,
}

/// What a [`HelpModalState`] stands for.
pub struct HelpModalView {
    pub active: bool,
    pub content: Seq<Seq<char>>,
    pub scroll_offset: usize,
}

impl HelpModalView {
    /// The window, closed.
    pub open spec fn closed() -> Self {
        HelpModalView { active: false, content: Seq::empty(), scroll_offset: 0 }
    }

    /// The window after scrolling up by a number of lines.
    pub open spec fn up(self, by: usize) -> Self {
        let sum = self.scroll_offset + by;
        HelpModalView {
            scroll_offset: if sum > usize::MAX {
                usize::MAX
            } else {
                sum as usize
            },
            ..self
        }
    }

    /// The window after scrolling down by a number of lines.
    pub open spec fn down(self, by: usize) -> Self {
        let difference = self.scroll_offset - by;
        HelpModalView {
            scroll_offset: if difference < 0 {
                0
            } else {
                difference as usize
            },
            ..self
        }
    }

    /// Scrolling down takes back scrolling up by as many lines, unless the way up was cut
    /// off at the largest offset.
    pub proof fn down_undoes_up(self, by: usize)
        requires
            self.scroll_offset + by <= usize::MAX,
        ensures
            self.up(by).down(by) == self,
    {
    }

    /// Scrolling down far enough always leads to the end of the content.
    pub proof fn far_down_is_the_end(self)
        ensures
            self.down(usize::MAX).scroll_offset == 0,
    {
    }
}

impl View for HelpModalState {
    type V = HelpModalView;

    closed spec fn view(&self) -> HelpModalView {
        HelpModalView {
            active: self.active,
            content: lines(self.content@),
            scroll_offset: self.scroll_offset,
        }
    }
}

impl Default for HelpModalState {
    fn default() -> (r: Self)
        ensures
            r@ == HelpModalView::closed(),
    {
        Self::new()
    }
}

impl HelpModalState {
    /// The window, closed.
    pub fn new() -> (r: Self)
        ensures
            r@ == HelpModalView::closed(),
    {
        let r = HelpModalState { active: false, content: Vec::new(), scroll_offset: 0 };
        assert(r@.content =~= Seq::<Seq<char>>::empty());
        r
    }

    /// Opens the window on a text.
    pub fn activate(&mut self, content: Vec<String>)
        ensures
            final(self)@ == (HelpModalView {
                active: true,
                content: lines(content@),
                scroll_offset: 0,
            }),
    {
        self.active = true;
        self.content = content;
        self.scroll_offset = 0;
    }

    /// Closes the window.
    pub fn deactivate(&mut self)
        ensures
            final(self)@ == HelpModalView::closed(),
    {
        self.active = false;
        self.content.clear();
        self.scroll_offset = 0;
        assert(self@.content =~= Seq::<Seq<char>>::empty());
    }

    /// Whether the window is open.
    pub fn is_active(&self) -> (r: bool)
        ensures
            r == self@.active,
    {
        self.active
    }

    /// Scrolls up.
    pub fn scroll_up(&mut self, lines: usize)
        ensures
            final(self)@ == old(self)@.up(lines),
    {
        self.scroll_offset = self.scroll_offset.saturating_add(lines);
    }

    /// Scrolls down, to the end at most.
    pub fn scroll_down(&mut self, lines: usize)
        ensures
            final(self)@ == old(self)@.down(lines),
    {
        self.scroll_offset = self.scroll_offset.saturating_sub(lines);
    }

    /// What the window shows.
    pub fn get_content(&self) -> (r: &[String])
        ensures
            lines(r@) == self@.content,
    {
        self.content.as_slice()
    }

    /// How far the window is scrolled up from the end.
    pub fn get_scroll_offset(&self) -> (r: usize)
        ensures
            r == self@.scroll_offset,
    {
        self.scroll_offset
    }
}

} // verus!
