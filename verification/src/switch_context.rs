use vstd::prelude::*;
use std::collections::VecDeque;

verus! {

/// Saved execution context of a task: the address of the top of its stack
/// (the process stack pointer) and the callee-saved registers R4 - R11.
#[derive(Clone, Copy, Debug)]
pub struct Process {
    pub stack_ptr: usize,
    pub states: [usize; 8],
}

/// One word of a task's initial stack frame: `(offset, value)` means that the
/// word at `stack_ptr + offset` (counted in words) holds `value`.
pub type StackWrite = (usize, usize);

/// Initial value of the program status register of a task: only the Thumb
/// state bit is set.
pub const INITIAL_XPSR: usize = 0x0100_0000;

/// The writes that set up the initial exception frame of a task on its stack,
/// in the order they are made: R0 - R3 are cleared, LR is 1, PC is the task's
/// entry point with the Thumb bit set, and xPSR has only the Thumb state bit.
/// The word at offset 4 (R12) is left as it is.
pub open spec fn spec_initial_frame(callback: usize) -> Seq<StackWrite> {
    seq![(0usize, 0usize), (1usize, 0usize), (2usize, 0usize), (3usize, 0usize),
        (5usize, 1usize), (6usize, callback | 1usize), (7usize, INITIAL_XPSR)]
}

/// Whatever the entry point, the frame clears R0 - R3, sets LR to 1, makes
/// PC the entry point with bit 0 set (so it is odd and otherwise the entry
/// point), and gives xPSR exactly the Thumb state bit (bit 24).
pub proof fn lemma_initial_frame(callback: usize)
    ensures
        spec_initial_frame(callback) == seq![(0usize, 0usize), (1usize, 0usize), (2usize, 0usize),
            (3usize, 0usize), (5usize, 1usize), (6usize, callback | 1usize), (7usize, 0x0100_0000usize)],
        (callback | 1usize) % 2 == 1,
        (callback | 1usize) / 2 == callback / 2,
        spec_initial_frame(callback)[6].1 == 1usize << 24usize,
{
    assert((callback | 1usize) % 2 == 1) by (bit_vector);
    assert((callback | 1usize) / 2 == callback / 2) by (bit_vector);
    assert(0x0100_0000usize == 1usize << 24usize) by (bit_vector);
}

/// Computes the initial stack frame of a task whose entry point is at address
/// `callback`. The processor loads these eight words into R0 - R3, R12, LR, PC
/// and xPSR the first time it switches to the task; the caller writes them at
/// the task's stack pointer, which stays where it was.
pub fn push_function_call(callback: usize) -> (writes: Vec<StackWrite>)
    ensures
        writes@ == spec_initial_frame(callback),
        writes@ == seq![(0usize, 0usize), (1usize, 0usize), (2usize, 0usize), (3usize, 0usize),
            (5usize, 1usize), (6usize, callback | 1usize), (7usize, 0x0100_0000usize)],
        writes@[5].1 % 2 == 1,
{
    proof {
        lemma_initial_frame(callback);
    }
    let mut writes: Vec<StackWrite> = Vec::new();
    writes.push((0, 0));
    writes.push((1, 0));
    writes.push((2, 0));
    writes.push((3, 0));
    writes.push((5, 0 | 0x1));
    writes.push((6, callback | 1));
    writes.push((7, INITIAL_XPSR));
    assert((0usize | 0x1usize) == 1usize) by (bit_vector);
    writes
}

impl Process {
    /// A task whose stack starts at `stack_ptr` (where its initial frame was
    /// written by the caller) and whose saved registers R4 - R11 are all zero.
    pub fn new(stack_ptr: usize) -> (p: Self)
        ensures
            p.stack_ptr == stack_ptr,
            p.states@ == seq![0usize; 8],
    {
        Process { stack_ptr, states: [0usize; 8] }
    }

    /// Records the context that a time slice of the task handed back: the new
    /// top of its stack and the values of R4 - R11 when it was switched out.
    pub fn run(&mut self, stack_ptr: usize, states: [usize; 8])
        ensures
            final(self).stack_ptr == stack_ptr,
            final(self).states == states,
    {
        self.stack_ptr = stack_ptr;
        self.states = states;
    }
}

/// The queue of tasks of the round-robin scheduler; the front is the next task
/// to run.
pub struct Processes {
    process: VecDeque<Process>,
}

impl View for Processes {
    type V = Seq<Process>;

    closed spec fn view(&self) -> Seq<Process> {
        self.process@
    }
}

impl Processes {
    /// An empty queue with room for `capacity` tasks.
    pub fn with_capacity(capacity: usize) -> (ps: Self)
        ensures
            ps@ == Seq::<Process>::empty(),
    {
        let v: VecDeque<Process> = VecDeque::with_capacity(capacity);
        Self { process: v }
    }

    /// Number of queued tasks.
    pub fn len(&self) -> (n: usize)
        ensures
            n == self@.len(),
    {
        self.process.len()
    }

    /// Puts `p` at the front of the queue.
    pub fn push_front(&mut self, p: Process)
        ensures
            final(self)@ == seq![p] + old(self)@,
    {
        self.process.push_front(p);
    }

    /// Puts `p` at the back of the queue.
    pub fn push_back(&mut self, p: Process)
        ensures
            final(self)@ == old(self)@.push(p),
    {
        self.process.push_back(p);
    }

    /// Takes the task at the front of the queue.
    pub fn pop_front(&mut self) -> (p: Process)
        requires
            old(self)@.len() > 0,
        ensures
            p == old(self)@[0],
            final(self)@ == old(self)@.drop_first(),
    {
        let r = self.process.pop_front();
        r.unwrap()
    }

    /// Takes the task at the back of the queue.
    pub fn pop_back(&mut self) -> (p: Process)
        requires
            old(self)@.len() > 0,
        ensures
            p == old(self)@.last(),
            final(self)@ == old(self)@.drop_last(),
    {
        let r = self.process.pop_back();
        r.unwrap()
    }

    /// The task that runs next.
    pub fn front(&self) -> (p: &Process)
        requires
            self@.len() > 0,
        ensures
            *p == self@[0],
    {
        &self.process[0]
    }

    /// One turn of the round-robin loop: the task at the front ran for a time
    /// slice and handed back the context `(stack_ptr, states)`; it leaves the
    /// front and waits at the back of the queue with that context.
    pub fn run(&mut self, stack_ptr: usize, states: [usize; 8])
        requires
            old(self)@.len() > 0,
        ensures
            final(self)@ == spec_turn(old(self)@, Process { stack_ptr, states }),
    {
        let mut p = self.pop_front();
        p.run(stack_ptr, states);
        self.push_back(p);
    }
}

/// The queue after one turn in which the front task came back as `ran`.
pub open spec fn spec_turn(queue: Seq<Process>, ran: Process) -> Seq<Process> {
    queue.drop_first().push(ran)
}

/// The queue after one turn for each task in `ran`, in order: `ran[i]` is
/// the context that the task run in turn `i` handed back.
pub open spec fn spec_turns(queue: Seq<Process>, ran: Seq<Process>) -> Seq<Process>
    decreases ran.len(),
{
    if ran.len() == 0 {
        queue
    } else {
        spec_turn(spec_turns(queue, ran.drop_last()), ran.last())
    }
}

/// Round-robin order: within as many turns as there are tasks, the tasks run
/// in queue order, one each. After `k` turns the `k` tasks that ran wait at
/// the back in the order they ran, behind the tasks that have not run yet;
/// the number of tasks never changes, and the next task to run is the one
/// that stood `k`-th in the queue.
pub proof fn lemma_round_robin(queue: Seq<Process>, ran: Seq<Process>)
    requires
        ran.len() <= queue.len(),
    ensures
        spec_turns(queue, ran) == queue.skip(ran.len() as int) + ran,
        spec_turns(queue, ran).len() == queue.len(),
        ran.len() < queue.len() ==> spec_turns(queue, ran)[0] == queue[ran.len() as int],
    decreases ran.len(),
{
    if ran.len() == 0 {
        assert(queue.skip(0) + ran =~= queue);
    } else {
        let k = ran.len() as int;
        lemma_round_robin(queue, ran.drop_last());
        let before = spec_turns(queue, ran.drop_last());
        assert(before == queue.skip(k - 1) + ran.drop_last());
        assert(before.drop_first() =~= queue.skip(k) + ran.drop_last());
        assert(before.drop_first().push(ran.last()) =~= queue.skip(k) + ran);
    }
    if ran.len() < queue.len() {
        assert((queue.skip(ran.len() as int) + ran)[0] == queue[ran.len() as int]);
    }
}

/// A full round, one turn per task, brings every task back to its place in
/// the queue, each with the context that its own time slice handed back.
pub proof fn lemma_full_round(queue: Seq<Process>, ran: Seq<Process>)
    requires
        ran.len() == queue.len(),
    ensures
        spec_turns(queue, ran) == ran,
{
    lemma_round_robin(queue, ran);
    assert(queue.skip(ran.len() as int) + ran =~= ran);
}

/// `pop_back` undoes `push_back`: it gives back the task just queued and
/// leaves the queue as it was.
pub proof fn lemma_pop_back_undoes_push_back(queue: Seq<Process>, p: Process)
    ensures
        queue.push(p).last() == p,
        queue.push(p).drop_last() == queue,
{
    assert(queue.push(p).drop_last() =~= queue);
}

/// `pop_front` undoes `push_front`: it gives back the task just queued and
/// leaves the queue as it was.
pub proof fn lemma_pop_front_undoes_push_front(queue: Seq<Process>, p: Process)
    ensures
        (seq![p] + queue)[0] == p,
        (seq![p] + queue).drop_first() == queue,
{
    assert((seq![p] + queue).drop_first() =~= queue);
}

} // verus!
