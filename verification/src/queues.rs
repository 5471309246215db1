//! The queue topology: the durable queues that must exist before any
//! producer or consumer attaches, and the bootstrap that checks them.

use vstd::prelude::*;
use vstd::string::StringExecFns;

verus! {

/// The number of well-known queues.
pub const QUEUE_COUNT: usize = 10;

/// The names of the well-known queues, in the order in which they are
/// checked.
pub open spec fn queue_names() -> Seq<Seq<char>> {
    seq![
        "calc_queue"@,
        "waring_handler"@,
        "waring_notice"@,
        "transmit_handler"@,
        "waring_delay_handler"@,
        "pre_handler"@,
        "pre_tcp_handler"@,
        "pre_http_handler"@,
        "pre_ws_handler"@,
        "pre_coap_handler"@,
    ]
}

/// The name of the `i`-th well-known queue.
pub fn queue_name(i: usize) -> (name: &'static str)
    requires
        i < QUEUE_COUNT,
    ensures
        name@ == queue_names()[i as int],
{
    if i == 0 {
        "calc_queue"
    } else if i == 1 {
        "waring_handler"
    } else if i == 2 {
        "waring_notice"
    } else if i == 3 {
        "transmit_handler"
    } else if i == 4 {
        "waring_delay_handler"
    } else if i == 5 {
        "pre_handler"
    } else if i == 6 {
        "pre_tcp_handler"
    } else if i == 7 {
        "pre_http_handler"
    } else if i == 8 {
        "pre_ws_handler"
    } else {
        "pre_coap_handler"
    }
}

/// A request to declare a queue.
#[derive(Debug, Clone, PartialEq, Eq)]
pub struct QueueDeclare {
    pub queue: String,
    /// Only ask whether the queue exists; never create it.
    pub passive: bool,
    pub durable: bool,
    pub exclusive: bool,
    pub auto_delete: bool,
    pub nowait: bool,
}

/// The request that checks whether `queue_name` exists: a passive declare,
/// which creates nothing, with every other option off.
pub fn passive_declare(queue_name: &str) -> (request: QueueDeclare)
    ensures
        request.queue@ == queue_name@,
        request.passive,
        !request.durable,
        !request.exclusive,
        !request.auto_delete,
        !request.nowait,
{
    QueueDeclare {
        queue: String::from_str(queue_name),
        passive: true,
        durable: false,
        exclusive: false,
        auto_delete: false,
        nowait: false,
    }
}

/// Whether the queue of a passive declare exists, from the broker's reply:
/// it exists exactly if the declare succeeded.
pub fn ensure_queue_exists<T, E>(reply: &Result<T, E>) -> (exists: bool)
    ensures
        exists == (*reply is Ok),
{
    reply.is_ok()
}

/// The progress of the bootstrap: which of the well-known queues have been
/// checked, in order, and what was found.
#[derive(Debug)]
pub struct Bootstrap {
    found: Vec<bool>,
}

impl Bootstrap {
    /// What was found for the queues checked so far, in the order of
    /// `queue_names`.
    pub closed spec fn found(&self) -> Seq<bool> {
        self.found@
    }

    #[verifier::type_invariant]
    spec fn within_names(&self) -> bool {
        self.found@.len() <= QUEUE_COUNT
    }

    /// Whether every well-known queue has been checked.
    pub open spec fn is_complete(&self) -> bool {
        self.found().len() == QUEUE_COUNT
    }

    /// Whether `queue` was checked and exists.
    pub open spec fn has_queue(&self, queue: Seq<char>) -> bool {
        exists|i: int|
            0 <= i < self.found().len() && i < QUEUE_COUNT && #[trigger] queue_names()[i] == queue
                && self.found()[i]
    }

    /// Whether a consumer may attach to `queue`: the bootstrap is over and
    /// found the queue.
    pub open spec fn admits(&self, queue: Seq<char>) -> bool {
        self.is_complete() && self.has_queue(queue)
    }

    /// A bootstrap that has checked nothing yet.
    pub fn new() -> (bootstrap: Self)
        ensures
            bootstrap.found() == Seq::<bool>::empty(),
    {
        Bootstrap { found: Vec::new() }
    }

    /// The request for the next queue to check, or `None` when all have
    /// been checked.
    pub fn next_check(&self) -> (request: Option<QueueDeclare>)
        ensures
            self.found().len() <= QUEUE_COUNT,
            request is None <==> self.is_complete(),
            request matches Some(r) ==> {
                &&& r.queue@ == queue_names()[self.found().len() as int]
                &&& r.passive
                &&& !r.durable
                &&& !r.exclusive
                &&& !r.auto_delete
                &&& !r.nowait
            },
    {
        proof {
            use_type_invariant(self);
        }
        let n = self.found.len();
        if n < QUEUE_COUNT {
            Some(passive_declare(queue_name(n)))
        } else {
            None
        }
    }

    /// Records what the check of the next queue found. Once all queues have
    /// been checked, nothing more is recorded.
    pub fn record(&mut self, exists: bool)
        ensures
            final(self).found() == (if old(self).is_complete() {
                old(self).found()
            } else {
                old(self).found().push(exists)
            }),
    {
        proof {
            use_type_invariant(&*self);
        }
        if self.found.len() < QUEUE_COUNT {
            let mut found: Vec<bool> = Vec::new();
            std::mem::swap(&mut found, &mut self.found);
            found.push(exists);
            self.found = found;
        }
    }

    /// Whether every well-known queue has been checked.
    pub fn complete(&self) -> (done: bool)
        ensures
            done == self.is_complete(),
    {
        self.found.len() == QUEUE_COUNT
    }

    /// Whether a consumer may attach to `queue`.
    pub fn may_consume(&self, queue: &str) -> (admitted: bool)
        ensures
            admitted == self.admits(queue@),
    {
        proof {
            use_type_invariant(self);
        }
        if self.found.len() != QUEUE_COUNT {
            return false;
        }
        let mut i: usize = 0;
        while i < QUEUE_COUNT
            invariant
                i <= QUEUE_COUNT,
                self.found().len() == QUEUE_COUNT,
                forall|k: int| 0 <= k < i ==> !(#[trigger] queue_names()[k] == queue@ && self.found()[k]),
            decreases QUEUE_COUNT - i,
        {
            if self.found[i] && *queue_name(i) == *queue {
                return true;
            }
            i += 1;
        }
        false
    }
}

/// No consumer is admitted while a well-known queue is still unchecked.
pub proof fn lemma_no_consumer_before_the_last_check(bootstrap: Bootstrap, queue: Seq<char>)
    requires
        bootstrap.found().len() < QUEUE_COUNT,
    ensures
        !bootstrap.admits(queue),
{
}

} // verus!
