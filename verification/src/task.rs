//! The place in which a background task leaves its result.
use vstd::prelude::*;

verus! {

/// A result that is waited for, and who waits for it.
pub struct TaskSlot<T, W> {
    pub result: Option<T>,
    pub waker: Option<W>,
}

impl<T, W> TaskSlot<T, W> {
    pub open spec fn polled(self, after: TaskSlot<T, W>, r: Option<T>, waker: W) -> bool {
        &&& r == self.result
        &&& after.result is None
        &&& after.waker == if self.result is Some {
            self.waker
        } else {
            Some(waker)
        }
    }

    pub open spec fn completed(self, after: TaskSlot<T, W>, r: Option<W>, result: T) -> bool {
        &&& r == self.waker
        &&& after.result == Some(result)
        &&& after.waker is None
    }

    /// A slot whose task still runs.
    pub fn pending() -> (r: Self)
        ensures
            r.result is None,
            r.waker is None,
    {
        TaskSlot { result: None, waker: None }
    }

    /// A slot whose result is there from the start.
    pub fn ready(result: T) -> (r: Self)
        ensures
            r.result == Some(result),
            r.waker is None,
    {
        TaskSlot { result: Some(result), waker: None }
    }

    /// Takes the result. Without one, the waker is kept in place of an earlier one.
    pub fn poll(&mut self, waker: W) -> (r: Option<T>)
        ensures
            old(self).polled(*final(self), r, waker),
    {
        match self.result.take() {
            Some(t) => Some(t),
            None => {
                self.waker = Some(waker);
                None
            },
        }
    }

    /// Leaves the result, and says who is to be woken.
    pub fn complete(&mut self, result: T) -> (r: Option<W>)
        ensures
            old(self).completed(*final(self), r, result),
    {
        self.result = Some(result);
        self.waker.take()
    }
}

/// Who found no result is woken when it comes, and then finds it: no result is missed. The slots
/// are those before the question, behind it, behind the completion and behind the next question.
pub proof fn law_no_result_is_missed<T, W>(
    first: TaskSlot<T, W>,
    asked: TaskSlot<T, W>,
    completed: TaskSlot<T, W>,
    woken: Option<W>,
    found: Option<T>,
    waker: W,
    result: T,
)
    requires
        first.result is None,
        asked.result is None,
        asked.waker == if first.result is Some {
            first.waker
        } else {
            Some(waker)
        },
        woken == asked.waker,
        completed.result == Some(result),
        found == completed.result,
    ensures
        woken == Some(waker),
        found == Some(result),
{
}

/// Who asks before the result is there is woken by the completion and then finds the result, once.
/// Who asks afterwards finds it at once, and nobody is woken.
pub proof fn law_result_is_found_once<T, W>(
    first: TaskSlot<T, W>,
    asked: TaskSlot<T, W>,
    done: TaskSlot<T, W>,
    found: TaskSlot<T, W>,
    again: TaskSlot<T, W>,
    waker: W,
    result: T,
    nothing: Option<T>,
    woken: Option<W>,
    got: Option<T>,
    twice: Option<T>,
)
    requires
        first.result is None,
        first.polled(asked, nothing, waker),
        asked.completed(done, woken, result),
        done.polled(found, got, waker),
        found.polled(again, twice, waker),
    ensures
        nothing is None,
        woken == Some(waker),
        got == Some(result),
        twice is None,
{
}

} // verus!
