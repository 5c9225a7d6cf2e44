//! Fixed-capacity ring FIFO, used as the console's transmit buffer.

use vstd::prelude::*;

verus! {

/// Position `x` folded back into a ring of `size` slots, for `x` below
/// `2 * size`.
pub open spec fn wrap(x: int, size: int) -> int {
    if x < size {
        x
    } else {
        x - size
    }
}

/// What a push does to the contents `q` of a queue of capacity `cap`: the
/// new contents, and whether the element was taken.
pub open spec fn push_model<T>(q: Seq<T>, cap: nat, x: T) -> (Seq<T>, bool) {
    if q.len() < cap {
        (q.push(x), true)
    } else {
        (q, false)
    }
}

/// What a pop does to the contents `q`: the new contents and the element
/// handed out, if there was one.
pub open spec fn pop_model<T>(q: Seq<T>) -> (Seq<T>, Option<T>) {
    if q.len() > 0 {
        (q.drop_first(), Some(q[0]))
    } else {
        (q, None)
    }
}

/// How many elements of a slice of length `len` fit into `free` slots.
pub open spec fn accepted(len: int, free: int) -> int {
    if len <= free {
        len
    } else {
        free
    }
}

/// A queue of at most `SIZE` elements held in a ring of `SIZE` slots.
///
/// The abstract value of a queue is the sequence of its live elements,
/// oldest first.
#[derive(Debug)]
pub struct FIFO<T: Copy, const SIZE: usize> {
    /// Backing storage.
    data: [T; SIZE],
    /// Slot of the oldest live element.
    read_head: usize,
    /// Slot that the next pushed element goes to.
    write_head: usize,
    /// Number of live elements.
    count: usize,
}

impl<T: Copy, const SIZE: usize> FIFO<T, SIZE> {
    /// The heads stay inside the ring and lie `count` slots apart.
    pub closed spec fn wf(&self) -> bool {
        &&& self.count <= SIZE
        &&& SIZE == 0 ==> self.read_head == 0 && self.write_head == 0
        &&& SIZE > 0 ==> self.read_head < SIZE && self.write_head == wrap(
            self.read_head + self.count,
            SIZE as int,
        )
    }

    /// The live elements, oldest first.
    pub closed spec fn view(&self) -> Seq<T> {
        Seq::new(
            self.count as nat,
            |i: int| self.data@[wrap(self.read_head + i, SIZE as int)],
        )
    }

    /// An empty queue whose slots all hold `default`.
    pub fn new_with(default: T) -> (fifo: Self)
        ensures
            fifo.wf(),
            fifo@ == Seq::<T>::empty(),
    {
        Self { data: [default;SIZE], read_head: 0, write_head: 0, count: 0 }
    }

    /// Number of elements available to read.
    pub fn len(&self) -> (n: usize)
        requires
            self.wf(),
        ensures
            n == self@.len(),
            n <= SIZE,
    {
        self.count
    }

    /// Number of free slots.
    pub fn free_space(&self) -> (n: usize)
        requires
            self.wf(),
        ensures
            n == SIZE - self@.len(),
    {
        SIZE - self.len()
    }

    /// Whether nothing is queued.
    pub fn is_empty(&self) -> (empty: bool)
        requires
            self.wf(),
        ensures
            empty <==> self@.len() == 0,
    {
        self.count == 0
    }

    /// Whether every slot is taken.
    pub fn is_full(&self) -> (full: bool)
        requires
            self.wf(),
        ensures
            full <==> self@.len() == SIZE,
    {
        self.count == SIZE
    }

    /// Appends `data` unless the queue is full; says whether it did.
    pub fn push_back(&mut self, data: T) -> (pushed: bool)
        requires
            old(self).wf(),
        ensures
            final(self).wf(),
            pushed <==> old(self)@.len() < SIZE,
            (final(self)@, pushed) == push_model(old(self)@, SIZE as nat, data),
    {
        if self.is_full() {
            return false;
        }
        let slot: usize = self.write_head;
        self.data[slot] = data;
        proof {
            if slot + 1 < SIZE {
                vstd::arithmetic::div_mod::lemma_small_mod((slot + 1) as nat, SIZE as nat);
            } else {
                vstd::arithmetic::div_mod::lemma_mod_self_0(SIZE as int);
            }
        }
        self.write_head = (slot + 1) % SIZE;
        self.count += 1;
        assert(self@ =~= old(self)@.push(data));
        true
    }

    /// Appends the elements of `data` in order for as long as there is
    /// room. Returns `Ok` with the length of `data` when all of them were
    /// taken, else `Err` with the number that were.
    pub fn append(&mut self, data: &[T]) -> (result: Result<usize, usize>)
        requires
            old(self).wf(),
        ensures
            final(self).wf(),
            final(self)@ == old(self)@ + data@.take(
                accepted(data@.len() as int, SIZE - old(self)@.len()),
            ),
            data@.len() <= SIZE - old(self)@.len() ==> (result matches Ok(n) && n == data@.len()),
            data@.len() > SIZE - old(self)@.len() ==> (result matches Err(n) && n == SIZE - old(
                self,
            )@.len()),
    {
        let mut appended: usize = 0;
        while appended < data.len()
            invariant
                self.wf(),
                appended <= data@.len(),
                appended <= SIZE - old(self)@.len(),
                self@ == old(self)@ + data@.take(appended as int),
            decreases data@.len() - appended,
        {
            if !self.push_back(data[appended]) {
                assert(data@.take(appended as int).len() == appended);
                return Err(appended);
            }
            assert(data@.take(appended as int).push(data@[appended as int]) =~= data@.take(
                appended + 1,
            ));
            assert(self@ =~= old(self)@ + data@.take(appended + 1));
            appended += 1;
        }
        Ok(appended)
    }

    /// Removes the oldest element and returns it, if there is one.
    pub fn pop_front(&mut self) -> (popped: Option<T>)
        requires
            old(self).wf(),
        ensures
            final(self).wf(),
            popped is Some <==> old(self)@.len() > 0,
            (final(self)@, popped) == pop_model(old(self)@),
    {
        if self.is_empty() {
            return None;
        }
        let slot: usize = self.read_head;
        let data = self.data[slot];
        proof {
            if slot + 1 < SIZE {
                vstd::arithmetic::div_mod::lemma_small_mod((slot + 1) as nat, SIZE as nat);
            } else {
                vstd::arithmetic::div_mod::lemma_mod_self_0(SIZE as int);
            }
        }
        self.read_head = (slot + 1) % SIZE;
        self.count -= 1;
        assert(self@ =~= old(self)@.drop_first());
        Some(data)
    }
}

/// One request made of a queue.
pub enum FifoOp<T> {
    /// Offer an element.
    Push(T),
    /// Ask for the oldest element.
    Pop,
}

/// Where a queue stands after a series of requests: its contents, the
/// elements it took in and the elements it handed out, each in order.
pub struct FifoRun<T> {
    pub queue: Seq<T>,
    pub pushed: Seq<T>,
    pub popped: Seq<T>,
}

/// The requests `ops` made one after the other of an empty queue of
/// capacity `cap`.
pub open spec fn run<T>(ops: Seq<FifoOp<T>>, cap: nat) -> FifoRun<T>
    decreases ops.len(),
{
    if ops.len() == 0 {
        FifoRun { queue: Seq::empty(), pushed: Seq::empty(), popped: Seq::empty() }
    } else {
        let before = run(ops.drop_last(), cap);
        match ops.last() {
            FifoOp::Push(x) => {
                let (queue, taken) = push_model(before.queue, cap, x);
                FifoRun {
                    queue,
                    pushed: if taken {
                        before.pushed.push(x)
                    } else {
                        before.pushed
                    },
                    popped: before.popped,
                }
            },
            FifoOp::Pop => {
                let (queue, out) = pop_model(before.queue);
                FifoRun {
                    queue,
                    pushed: before.pushed,
                    popped: match out {
                        Some(x) => before.popped.push(x),
                        None => before.popped,
                    },
                }
            },
        }
    }
}

/// First in, first out: after any series of pushes and pops the elements
/// handed out, followed by those still queued, are exactly the elements
/// taken in, in the order in which they were taken. Nothing is lost,
/// repeated or reordered, and the queue never holds more than its capacity.
/// Once the queue has been drained, what came out is what went in.
pub proof fn lemma_fifo_order<T>(ops: Seq<FifoOp<T>>, cap: nat)
    ensures
        run(ops, cap).pushed == run(ops, cap).popped + run(ops, cap).queue,
        run(ops, cap).queue.len() <= cap,
        run(ops, cap).queue.len() == 0 ==> run(ops, cap).popped == run(ops, cap).pushed,
    decreases ops.len(),
{
    if ops.len() > 0 {
        lemma_fifo_order(ops.drop_last(), cap);
        let before = run(ops.drop_last(), cap);
        let after = run(ops, cap);
        assert(after.pushed =~= after.popped + after.queue);
    }
    assert(run(ops, cap).pushed =~= run(ops, cap).popped + run(ops, cap).queue);
    if run(ops, cap).queue.len() == 0 {
        assert(run(ops, cap).popped =~= run(ops, cap).pushed);
    }
}

} // verus!
