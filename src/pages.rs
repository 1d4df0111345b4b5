//! The screens of the tracker, the stack of visited screens, and how keys move it.
use vstd::prelude::*;

verus! {

/// One screen of the tracker.
#[derive(Clone, Copy, Debug, PartialEq, Eq, Structural)]
pub enum Page {
    /// The time entries and their total; the bottom of every stack.
    Time,
    /// The projects.
    Projects,
    /// The settings in force.
    Settings,
    /// The tasks of one project.
    ProjectDetail,
    /// The selected time entry, for editing.
    TimeEntryCreateOrEdit,
    /// A project being made or edited.
    ProjectCreateOrEdit,
    /// A task being made.
    TaskCreateOrEdit,
}

/// What a key does to the page stack.
#[derive(Clone, Copy, Debug, PartialEq, Eq, Structural)]
pub enum StackMove {
    /// The stack stays as it is.
    Stay,
    /// The page goes on top.
    Push(Page),
    /// The top page is left.
    Pop,
}

/// The move that `key` makes on `page`; the quit key and keys that a page
/// does not know leave the stack as it is.
pub open spec fn spec_page_move(page: Page, key: char) -> StackMove {
    match page {
        Page::Time => if key == 'c' || key == 'e' {
            StackMove::Push(Page::TimeEntryCreateOrEdit)
        } else if key == 'p' {
            StackMove::Push(Page::Projects)
        } else if key == 's' {
            StackMove::Push(Page::Settings)
        } else {
            StackMove::Stay
        },
        Page::Projects => if key == 'c' || key == 'e' {
            StackMove::Push(Page::ProjectCreateOrEdit)
        } else if key == 't' {
            StackMove::Push(Page::ProjectDetail)
        } else if key == 's' {
            StackMove::Push(Page::Settings)
        } else if key == 'b' {
            StackMove::Pop
        } else {
            StackMove::Stay
        },
        Page::ProjectDetail => if key == 'c' {
            StackMove::Push(Page::TaskCreateOrEdit)
        } else if key == 'b' {
            StackMove::Pop
        } else {
            StackMove::Stay
        },
        _ => if key == 'b' {
            StackMove::Pop
        } else {
            StackMove::Stay
        },
    }
}

/// The move that `key` makes on `page`.
#[verifier::when_used_as_spec(spec_page_move)]
pub fn page_move(page: Page, key: char) -> (r: StackMove)
    ensures
        r == spec_page_move(page, key),
{
    match page {
        Page::Time => if key == 'c' || key == 'e' {
            StackMove::Push(Page::TimeEntryCreateOrEdit)
        } else if key == 'p' {
            StackMove::Push(Page::Projects)
        } else if key == 's' {
            StackMove::Push(Page::Settings)
        } else {
            StackMove::Stay
        },
        Page::Projects => if key == 'c' || key == 'e' {
            StackMove::Push(Page::ProjectCreateOrEdit)
        } else if key == 't' {
            StackMove::Push(Page::ProjectDetail)
        } else if key == 's' {
            StackMove::Push(Page::Settings)
        } else if key == 'b' {
            StackMove::Pop
        } else {
            StackMove::Stay
        },
        Page::ProjectDetail => if key == 'c' {
            StackMove::Push(Page::TaskCreateOrEdit)
        } else if key == 'b' {
            StackMove::Pop
        } else {
            StackMove::Stay
        },
        _ => if key == 'b' {
            StackMove::Pop
        } else {
            StackMove::Stay
        },
    }
}

/// The stack after a move.
pub open spec fn apply_move(stack: Seq<Page>, m: StackMove) -> Seq<Page> {
    match m {
        StackMove::Stay => stack,
        StackMove::Push(p) => stack.push(p),
        StackMove::Pop => stack.drop_last(),
    }
}

/// The stack after a key pressed on its top page.
pub open spec fn key_step(stack: Seq<Page>, key: char) -> Seq<Page> {
    apply_move(stack, spec_page_move(stack.last(), key))
}

/// The stack after keys pressed one after another.
pub open spec fn key_steps(stack: Seq<Page>, keys: Seq<char>) -> Seq<Page>
    decreases keys.len(),
{
    if keys.len() == 0 {
        stack
    } else {
        key_step(key_steps(stack, keys.drop_last()), keys.last())
    }
}

/// The Time page lies at the bottom of the stack and nowhere else.
pub open spec fn floor_held(stack: Seq<Page>) -> bool {
    &&& stack.len() >= 1
    &&& stack[0] == Page::Time
    &&& forall|i: int| 1 <= i < stack.len() ==> #[trigger] stack[i] != Page::Time
}

/// No key pushes the Time page, and the Time page pops nothing.
pub proof fn lemma_key_step_keeps_floor(stack: Seq<Page>, key: char)
    requires
        floor_held(stack),
    ensures
        floor_held(key_step(stack, key)),
{
    let next = key_step(stack, key);
    match spec_page_move(stack.last(), key) {
        StackMove::Push(p) => {
            assert(p != Page::Time);
            assert forall|i: int| 1 <= i < next.len() implies #[trigger] next[i] != Page::Time by {
                if i < stack.len() {
                    assert(next[i] == stack[i]);
                }
            }
        },
        StackMove::Pop => {
            assert(stack.last() != Page::Time);
            assert(stack.len() >= 2);
            assert forall|i: int| 1 <= i < next.len() implies #[trigger] next[i] != Page::Time by {
                assert(next[i] == stack[i]);
            }
        },
        StackMove::Stay => {},
    }
}

/// Whatever keys are pressed from a stack with the Time page at its bottom,
/// the stack is never empty and the Time page stays at its bottom.
pub proof fn lemma_key_steps_keep_floor(stack: Seq<Page>, keys: Seq<char>)
    requires
        floor_held(stack),
    ensures
        floor_held(key_steps(stack, keys)),
        key_steps(stack, keys).len() >= 1,
        key_steps(stack, keys)[0] == Page::Time,
    decreases keys.len(),
{
    if keys.len() > 0 {
        lemma_key_steps_keep_floor(stack, keys.drop_last());
        lemma_key_step_keeps_floor(key_steps(stack, keys.drop_last()), keys.last());
    }
}

/// The stack of visited pages, the active one on top.
pub struct PageStack {
    pages: Vec<Page>,
}

impl View for PageStack {
    type V = Seq<Page>;

    closed spec fn view(&self) -> Seq<Page> {
        self.pages@
    }
}

impl PageStack {
    /// A stack holding the Time page alone.
    pub fn new() -> (r: PageStack)
        ensures
            r@ == seq![Page::Time],
            floor_held(r@),
    {
        let mut pages: Vec<Page> = Vec::new();
        pages.push(Page::Time);
        assert(pages@ =~= seq![Page::Time]);
        PageStack { pages }
    }

    /// The active page.
    pub fn top(&self) -> (r: Page)
        requires
            floor_held(self@),
        ensures
            r == self@.last(),
    {
        self.pages[self.pages.len() - 1]
    }

    /// The pages, bottom first.
    pub fn to_vec(&self) -> (r: Vec<Page>)
        ensures
            r@ == self@,
    {
        self.pages.clone()
    }

    /// Makes the move that `key` makes on the active page.
    pub fn step(&mut self, key: char)
        requires
            floor_held(old(self)@),
        ensures
            final(self)@ == key_step(old(self)@, key),
            floor_held(final(self)@),
    {
        proof { lemma_key_step_keeps_floor(self@, key); }
        let m = page_move(self.top(), key);
        match m {
            StackMove::Stay => {},
            StackMove::Push(p) => {
                self.pages.push(p);
            },
            StackMove::Pop => {
                self.pages.pop();
            },
        }
    }

    /// Leaves the active page where it is not the Time page.
    pub fn pop(&mut self)
        requires
            floor_held(old(self)@),
        ensures
            old(self)@.last() != Page::Time ==> final(self)@ == old(self)@.drop_last(),
            old(self)@.last() == Page::Time ==> final(self)@ == old(self)@,
            floor_held(final(self)@),
    {
        if self.top() != Page::Time {
            self.pages.pop();
            assert(floor_held(self@)) by {
                assert forall|i: int| 1 <= i < self@.len() implies #[trigger] self@[i]
                    != Page::Time by {
                    assert(self@[i] == old(self)@[i]);
                }
            }
        }
    }
}

/// The selection that a list of `len` rows shows: zero for an empty list,
/// else `selection` held to the last row.
pub open spec fn clamped(selection: nat, len: nat) -> nat {
    if len == 0 {
        0
    } else if selection < len {
        selection
    } else {
        (len - 1) as nat
    }
}

/// The selection that a list of `len` rows shows.
pub fn clamp_selection(selection: usize, len: usize) -> (r: usize)
    ensures
        r == clamped(selection as nat, len as nat),
        selection >= len ==> r == if len == 0 {
            0
        } else {
            len - 1
        },
        len > 0 ==> r < len,
{
    if len == 0 {
        0
    } else if selection < len {
        selection
    } else {
        len - 1
    }
}

} // verus!
