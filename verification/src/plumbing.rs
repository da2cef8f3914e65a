//! The envelope that carries work between the stages of the pipeline.

use vstd::prelude::*;

verus! {

/// What a worker finds in its queue: a unit of work, or the order to stop.
pub enum Message<T> {
    /// The next unit of work.
    Next(T),
    /// No more work will come: the worker that takes this stops.
    Terminate,
}

impl<T> Message<T> {
    /// The unit of work to do, or `None` when the worker has to stop.
    pub fn payload(self) -> (job: Option<T>)
        ensures
            job == (match self {
                Message::Next(t) => Some(t),
                Message::Terminate => None::<T>,
            }),
    {
        match self {
            Message::Next(t) => Some(t),
            Message::Terminate => None,
        }
    }
}

/// The messages that shut a pool of `workers` workers down: one order to
/// stop for each of them, so that every worker takes exactly one.
pub fn terminations<T>(workers: usize) -> (orders: Vec<Message<T>>)
    ensures
        orders.len() == workers,
        forall|i: int| 0 <= i < orders.len() ==> orders[i] is Terminate,
{
    let mut orders: Vec<Message<T>> = Vec::new();
    let mut i: usize = 0;
    while i < workers
        invariant
            i <= workers,
            orders.len() == i,
            forall|j: int| 0 <= j < orders.len() ==> orders[j] is Terminate,
        decreases workers - i,
    {
        orders.push(Message::Terminate);
        i = i + 1;
    }
    orders
}

} // verus!
