//! The lifecycle of UI screens, not their looks.
//!
//! Which screens are open is a stack: only the top one is active. Every
//! operation that changes the top reports it, as the screen that closed and
//! the screen that opened; what to spawn or despawn for them is the game's
//! choice.
use vstd::prelude::*;

verus! {

/// What a stack operation did to the top screen.
#[derive(PartialEq, Eq, Debug)]
pub struct GutzUiTopChange<T> {
    /// The screen that stopped being the top one, if any.
    pub closed: Option<T>,
    /// The screen that became the top one, if any.
    pub opened: Option<T>,
}

/// The open screens, bottom first.
pub struct GutzUiStack<T> {
    screens: Vec<T>,
}

/// The top of a stack of screens.
pub open spec fn top_of<T>(s: Seq<T>) -> Option<T> {
    if s.len() == 0 {
        None
    } else {
        Some(s.last())
    }
}

impl<T: Copy> View for GutzUiStack<T> {
    type V = Seq<T>;

    closed spec fn view(&self) -> Seq<T> {
        self.screens@
    }
}

impl<T: Copy> GutzUiStack<T> {
    pub fn new() -> (r: Self)
        ensures
            r@ == Seq::<T>::empty(),
    {
        GutzUiStack { screens: Vec::new() }
    }

    /// The active screen.
    pub fn top(&self) -> (r: Option<T>)
        ensures
            r == top_of(self@),
    {
        if self.screens.len() == 0 {
            None
        } else {
            Some(self.screens[self.screens.len() - 1])
        }
    }

    pub fn is_empty(&self) -> (r: bool)
        ensures
            r == (self@.len() == 0),
    {
        self.screens.len() == 0
    }

    /// Opens `screen` on top of the others.
    pub fn push(&mut self, screen: T) -> (r: GutzUiTopChange<T>)
        ensures
            final(self)@ == old(self)@.push(screen),
            r.closed == top_of(old(self)@),
            r.opened == Some(screen),
    {
        let closed = self.top();
        self.screens.push(screen);
        GutzUiTopChange { closed, opened: Some(screen) }
    }

    /// Closes the top screen, making the one below it active.
    pub fn pop(&mut self) -> (r: GutzUiTopChange<T>)
        ensures
            old(self)@.len() == 0 ==> final(self)@ == old(self)@ && r.closed is None
                && r.opened is None,
            old(self)@.len() > 0 ==> final(self)@ == old(self)@.drop_last() && r.closed == top_of(
                old(self)@,
            ) && r.opened == top_of(old(self)@.drop_last()),
    {
        match self.screens.pop() {
            None => GutzUiTopChange { closed: None, opened: None },
            Some(closed) => {
                let opened = self.top();
                GutzUiTopChange { closed: Some(closed), opened }
            },
        }
    }

    /// Closes every screen.
    pub fn clear(&mut self) -> (r: GutzUiTopChange<T>)
        ensures
            final(self)@ == Seq::<T>::empty(),
            r.closed == top_of(old(self)@),
            r.opened is None,
    {
        let closed = self.top();
        self.screens.clear();
        GutzUiTopChange { closed, opened: None }
    }
}

/// Opening a screen and closing it again gives back the stack and the
/// active screen there were before, and the two reports mirror each other.
pub proof fn law_push_then_pop_restores<T>(s: Seq<T>, screen: T)
    ensures
        s.push(screen).drop_last() == s,
        top_of(s.push(screen)) == Some(screen),
        top_of(s.push(screen).drop_last()) == top_of(s),
{
    assert(s.push(screen).drop_last() =~= s);
}

} // verus!
