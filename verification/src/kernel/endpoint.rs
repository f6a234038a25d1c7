//! Endpoints: where tasks meet to pass messages. One task at most waits to receive;
//! others wait to send, or for a reply.

use vstd::prelude::*;

use crate::kernel::queue::{
    queue, queue_contains, queue_push, queue_swap_out, queue_swap_remove,
};
use crate::kernel::types::{EndpointId, TaskId, MAX_TASKS};
use crate::seqs::{
    equal_to, first_such, lemma_first_such_is, lemma_first_such_none, swap_out, swap_remove,
};

verus! {

#[derive(Clone, Copy)]
pub struct Endpoint {
    pub id: EndpointId,
    /// The task whose death closes the endpoint.
    pub owner: Option<TaskId>,
    /// Nothing passes through a closed endpoint.
    pub is_closed: bool,
    /// The task that waits to receive.
    pub recv_waiter: Option<usize>,
    /// The tasks that wait to send.
    pub send_queue: [usize; MAX_TASKS],
    pub sq_len: usize,
    /// The tasks that wait for a reply; each knows from whom.
    pub reply_queue: [usize; MAX_TASKS],
    pub rq_len: usize,
}

/// The contents of an endpoint.
#[verifier::ext_equal]
pub struct EndpointView {
    pub id: EndpointId,
    pub owner: Option<TaskId>,
    pub is_closed: bool,
    pub recv_waiter: Option<usize>,
    pub send_queue: Seq<usize>,
    pub reply_queue: Seq<usize>,
}

impl EndpointView {
    pub open spec fn wf(self) -> bool {
        &&& self.send_queue.len() <= MAX_TASKS
        &&& self.reply_queue.len() <= MAX_TASKS
    }

    /// An open endpoint that nobody owns and nobody waits at.
    pub open spec fn new(id: EndpointId) -> EndpointView {
        EndpointView {
            id,
            owner: None,
            is_closed: false,
            recv_waiter: None,
            send_queue: Seq::empty(),
            reply_queue: Seq::empty(),
        }
    }

    /// The endpoint after a task has queued up to send; a full queue takes nobody.
    pub open spec fn enqueue_sender(self, idx: usize) -> EndpointView {
        if self.send_queue.len() >= MAX_TASKS || self.send_queue.contains(idx) {
            self
        } else {
            EndpointView { send_queue: self.send_queue.push(idx), ..self }
        }
    }

    /// The endpoint after a task has queued up for a reply; a full queue takes nobody.
    pub open spec fn enqueue_reply_waiter(self, idx: usize) -> EndpointView {
        if self.reply_queue.len() >= MAX_TASKS || self.reply_queue.contains(idx) {
            self
        } else {
            EndpointView { reply_queue: self.reply_queue.push(idx), ..self }
        }
    }

    /// The endpoint without a task: it waits there for nothing any more.
    pub open spec fn without_task(self, idx: usize) -> EndpointView {
        EndpointView {
            recv_waiter: if self.recv_waiter == Some(idx) {
                None
            } else {
                self.recv_waiter
            },
            send_queue: swap_out(self.send_queue, idx),
            reply_queue: swap_out(self.reply_queue, idx),
            ..self
        }
    }

    /// The endpoint, closed, with nobody waiting.
    pub open spec fn closed(self) -> EndpointView {
        EndpointView {
            is_closed: true,
            recv_waiter: None,
            send_queue: Seq::empty(),
            reply_queue: Seq::empty(),
            ..self
        }
    }
}

impl View for Endpoint {
    type V = EndpointView;

    open spec fn view(&self) -> EndpointView {
        EndpointView {
            id: self.id,
            owner: self.owner,
            is_closed: self.is_closed,
            recv_waiter: self.recv_waiter,
            send_queue: queue(self.send_queue, self.sq_len),
            reply_queue: queue(self.reply_queue, self.rq_len),
        }
    }
}

impl Endpoint {
    pub open spec fn wf(&self) -> bool {
        self.sq_len <= MAX_TASKS && self.rq_len <= MAX_TASKS
    }

    pub fn new(id: EndpointId) -> (e: Self)
        ensures
            e.wf(),
            e@ == EndpointView::new(id),
    {
        let e = Endpoint {
            id,
            owner: None,
            is_closed: false,
            recv_waiter: None,
            send_queue: [0;MAX_TASKS],
            sq_len: 0,
            reply_queue: [0;MAX_TASKS],
            rq_len: 0,
        };
        assert(e@ =~= EndpointView::new(id));
        e
    }

    /// Queues a task up to send. A task that is in the queue already stays there once.
    /// Tells whether there was room.
    pub fn try_enqueue_sender(&mut self, idx: usize) -> (ok: bool)
        requires
            old(self).wf(),
        ensures
            final(self).wf(),
            ok == (old(self)@.send_queue.len() < MAX_TASKS),
            final(self)@ == old(self)@.enqueue_sender(idx),
    {
        if self.sq_len >= MAX_TASKS {
            return false;
        }
        if queue_contains(&self.send_queue, self.sq_len, idx) {
            return true;
        }
        queue_push(&mut self.send_queue, &mut self.sq_len, idx);
        assert(self@ =~= old(self)@.enqueue_sender(idx));
        true
    }

    /// Takes the last task out of the queue of senders.
    pub fn dequeue_sender(&mut self) -> (r: Option<usize>)
        requires
            old(self).wf(),
        ensures
            final(self).wf(),
            match r {
                Some(idx) => {
                    &&& old(self)@.send_queue.len() > 0
                    &&& idx == old(self)@.send_queue.last()
                    &&& final(self)@ == (EndpointView {
                        send_queue: old(self)@.send_queue.drop_last(),
                        ..old(self)@
                    })
                },
                None => old(self)@.send_queue.len() == 0 && final(self)@ == old(self)@,
            },
    {
        if self.sq_len == 0 {
            return None;
        }
        let last: usize = self.sq_len - 1;
        let idx: usize = self.send_queue[last];
        self.sq_len = last;
        assert(self@.send_queue =~= old(self)@.send_queue.drop_last());
        Some(idx)
    }

    /// Queues a task up for a reply. A task that is in the queue already stays there once.
    /// Tells whether there was room.
    pub fn try_enqueue_reply_waiter(&mut self, idx: usize) -> (ok: bool)
        requires
            old(self).wf(),
        ensures
            final(self).wf(),
            ok == (old(self)@.reply_queue.len() < MAX_TASKS),
            final(self)@ == old(self)@.enqueue_reply_waiter(idx),
    {
        if self.rq_len >= MAX_TASKS {
            return false;
        }
        if queue_contains(&self.reply_queue, self.rq_len, idx) {
            return true;
        }
        queue_push(&mut self.reply_queue, &mut self.rq_len, idx);
        assert(self@ =~= old(self)@.enqueue_reply_waiter(idx));
        true
    }

    /// Takes the task at `pos` out of the queue for replies.
    pub fn remove_reply_waiter_at(&mut self, pos: usize) -> (r: Option<usize>)
        requires
            old(self).wf(),
        ensures
            final(self).wf(),
            match r {
                Some(idx) => {
                    &&& pos < old(self)@.reply_queue.len()
                    &&& idx == old(self)@.reply_queue[pos as int]
                    &&& final(self)@ == (EndpointView {
                        reply_queue: swap_remove(old(self)@.reply_queue, pos as int),
                        ..old(self)@
                    })
                },
                None => pos >= old(self)@.reply_queue.len() && final(self)@ == old(self)@,
            },
    {
        if pos >= self.rq_len {
            return None;
        }
        Some(queue_swap_remove(&mut self.reply_queue, &mut self.rq_len, pos))
    }

    /// Takes a task out of the queue of senders, once. Tells whether it was there.
    pub fn remove_sender_idx(&mut self, idx: usize) -> (removed: bool)
        requires
            old(self).wf(),
        ensures
            final(self).wf(),
            match first_such(old(self)@.send_queue, equal_to(idx)) {
                Some(pos) => removed && final(self)@ == (EndpointView {
                    send_queue: swap_remove(old(self)@.send_queue, pos),
                    ..old(self)@
                }),
                None => !removed && final(self)@ == old(self)@,
            },
    {
        let ghost p = equal_to(idx);
        let ghost s = self@.send_queue;
        let mut pos: usize = 0;
        while pos < self.sq_len
            invariant
                self.wf(),
                *self == *old(self),
                s == self@.send_queue,
                p == equal_to(idx),
                pos <= self.sq_len,
                forall|j: int| 0 <= j < pos ==> !p(#[trigger] s[j]),
            decreases self.sq_len - pos,
        {
            if self.send_queue[pos] == idx {
                proof {
                    lemma_first_such_is(s, p, pos as int);
                }
                queue_swap_remove(&mut self.send_queue, &mut self.sq_len, pos);
                return true;
            }
            pos += 1;
        }
        proof {
            lemma_first_such_none(s, p);
        }
        false
    }

    /// Forgets a task that waits here.
    pub fn remove_task(&mut self, idx: usize)
        requires
            old(self).wf(),
        ensures
            final(self).wf(),
            final(self)@ == old(self)@.without_task(idx),
    {
        if let Some(w) = self.recv_waiter {
            if w == idx {
                self.recv_waiter = None;
            }
        }
        queue_swap_out(&mut self.send_queue, &mut self.sq_len, idx);
        queue_swap_out(&mut self.reply_queue, &mut self.rq_len, idx);
    }

    /// Closes the endpoint and forgets who waits here.
    pub fn close(&mut self)
        requires
            old(self).wf(),
        ensures
            final(self).wf(),
            final(self)@ == old(self)@.closed(),
    {
        self.is_closed = true;
        self.recv_waiter = None;
        self.sq_len = 0;
        self.rq_len = 0;
        assert(self@ =~= old(self)@.closed());
    }
}

} // verus!
