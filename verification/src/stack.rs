//! The stack of views of a session: the top one is shown; when the last
//! one is taken off, the session is over.

use vstd::prelude::*;

verus! {

/// Why nothing came off the stack.
#[derive(Debug, Clone, Copy, PartialEq, Eq, Structural)]
pub enum StackError {
    /// The request to lay out again could not be sent.
    ForceRelayoutError,
    /// The stack is empty: the session is over.
    StackEmpty,
}

impl StackError {
    /// The error in words.
    pub fn message(&self) -> (text: &'static str)
        ensures
            text@ == match self {
                StackError::ForceRelayoutError => "Error during force relayout"@,
                StackError::StackEmpty => "Stack empty, session over"@,
            },
    {
        match self {
            StackError::ForceRelayoutError => "Error during force relayout",
            StackError::StackEmpty => "Stack empty, session over",
        }
    }
}

/// What came off the stack.
pub struct Popped<T> {
    pub view: T,
    /// Whether the stack is empty now, so that the session has to end.
    pub last: bool,
}

/// A stack of views.
pub struct Stack<T> {
    views: Vec<T>,
    dirty: bool,
}

/// The mathematical state of a stack: the views, bottom first, and whether
/// the screen has to be laid out again.
pub struct StackView<T> {
    pub views: Seq<T>,
    pub dirty: bool,
}

impl<T> View for Stack<T> {
    type V = StackView<T>;

    closed spec fn view(&self) -> StackView<T> {
        StackView { views: self.views@, dirty: self.dirty }
    }
}

impl<T> Stack<T> {
    /// An empty stack that still has to be laid out.
    pub fn new() -> (stack: Self)
        ensures
            stack@ == (StackView { views: Seq::<T>::empty(), dirty: true }),
    {
        Stack { views: Vec::new(), dirty: true }
    }

    /// Puts a view on top.
    pub fn push(&mut self, view: T)
        ensures
            final(self)@ == (StackView { views: old(self)@.views.push(view), dirty: true }),
    {
        self.dirty = true;
        self.views.push(view);
    }

    /// Takes the top view off. On an empty stack there is none to take, and
    /// the session has to end.
    pub fn pop(&mut self) -> (popped: Result<Popped<T>, StackError>)
        ensures
            final(self)@.dirty,
            match popped {
                Ok(p) => {
                    &&& old(self)@.views.len() > 0
                    &&& p.view == old(self)@.views.last()
                    &&& final(self)@.views == old(self)@.views.drop_last()
                    &&& p.last == (old(self)@.views.len() == 1)
                },
                Err(e) => {
                    &&& e == StackError::StackEmpty
                    &&& old(self)@.views.len() == 0
                    &&& final(self)@.views == old(self)@.views
                },
            },
    {
        self.dirty = true;
        match self.views.pop() {
            Some(view) => {
                let last = self.views.len() == 0;
                Ok(Popped { view, last })
            },
            None => Err(StackError::StackEmpty),
        }
    }

    /// The number of views.
    pub fn len(&self) -> (count: usize)
        ensures
            count == self@.views.len(),
    {
        self.views.len()
    }

    /// The view that is shown.
    pub fn top(&self) -> (view: Option<&T>)
        ensures
            match view {
                Some(v) => self@.views.len() > 0 && *v == self@.views.last(),
                None => self@.views.len() == 0,
            },
    {
        if self.views.len() == 0 {
            None
        } else {
            Some(&self.views[self.views.len() - 1])
        }
    }

    /// The view at place `index`, counted from the bottom, to work on.
    pub fn get_mut(&mut self, index: usize) -> (view: Option<&mut T>)
        ensures
            old(self)@.dirty == final(self)@.dirty,
            match view {
                Some(v) => {
                    &&& index < old(self)@.views.len()
                    &&& *v == old(self)@.views[index as int]
                    &&& final(self)@.views == old(self)@.views.update(index as int, *final(v))
                },
                None => index >= old(self)@.views.len() && final(self)@ == old(self)@,
            },
    {
        if index < self.views.len() {
            Some(&mut self.views[index])
        } else {
            None
        }
    }

    /// Whether the screen has to be laid out again: after every change of
    /// the stack, and whenever the view on top asks for it.
    pub fn needs_relayout(&self, top_needs_relayout: bool) -> (needed: bool)
        ensures
            needed == (self@.dirty || (self@.views.len() > 0 && top_needs_relayout)),
    {
        self.dirty || (self.views.len() > 0 && top_needs_relayout)
    }
}

} // verus!
