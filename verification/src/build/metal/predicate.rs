//! A predicate on partial selections that remembers what it was asked.
use vstd::prelude::*;

verus! {

/// A selection that a predicate is asked about, and whether every axis of it has a value.
pub type Question = (Seq<Option<usize>>, bool);

/// A predicate on selections of which some axes may have no value yet. It can only be called by asking
/// it, so that what was asked is known.
pub struct Predicate<F> {
    could_satisfy: F,
    asked: Ghost<Seq<Question>>,
}

impl<F: Fn(&[Option<usize>], bool) -> bool> Predicate<F> {
    /// What answers.
    pub closed spec fn function(self) -> F {
        self.could_satisfy
    }

    /// What was asked, in order.
    pub closed spec fn asked(self) -> Seq<Question> {
        self.asked@
    }

    /// A predicate that was asked nothing yet.
    pub fn new(could_satisfy: F) -> (predicate: Predicate<F>)
        ensures
            predicate.function() == could_satisfy,
            predicate.asked() == Seq::<Question>::empty(),
    {
        Predicate { could_satisfy, asked: Ghost(Seq::empty()) }
    }

    /// Asks about a selection.
    pub fn ask(&mut self, selection: &[Option<usize>], complete: bool) -> (answer: bool)
        requires
            call_requires(old(self).function(), (selection, complete)),
        ensures
            call_ensures(old(self).function(), (selection, complete), answer),
            final(self).function() == old(self).function(),
            final(self).asked() == old(self).asked().push((selection@, complete)),
    {
        self.asked = Ghost(self.asked@.push((selection@, complete)));
        (self.could_satisfy)(selection, complete)
    }
}

/// What was asked is remembered behind what was asked before, and the answer is that of what answers.
pub proof fn law_questions_are_remembered<F: Fn(&[Option<usize>], bool) -> bool>(
    predicate: &mut Predicate<F>,
    selection: &[Option<usize>],
    complete: bool,
    answer: bool,
)
    requires
        call_ensures(Predicate::<F>::ask, (predicate, selection, complete), answer),
    ensures
        call_ensures(old(predicate).function(), (selection, complete), answer),
        final(predicate).function() == old(predicate).function(),
        final(predicate).asked().len() == old(predicate).asked().len() + 1,
        final(predicate).asked().last() == (selection@, complete),
        final(predicate).asked().drop_last() == old(predicate).asked(),
{
    assert(final(predicate).asked().drop_last() =~= old(predicate).asked());
}

} // verus!
