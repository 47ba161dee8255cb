//! Identities of operations, requests and tasks.
use crate::ordered_map::MapKey;
use crate::text::{decimal, decimal_text};
use vstd::prelude::*;

verus! {

/// A source of identities. Every draw hands out the next number; after the
/// greatest one it starts again at zero.
#[derive(Debug)]
pub struct IdCounter {
    next: u64,
}

impl View for IdCounter {
    type V = u64;

    closed spec fn view(&self) -> u64 {
        self.next
    }
}

/// The number that a counter stands at after it handed out `number`.
pub open spec fn number_after(number: u64) -> u64 {
    if number == u64::MAX {
        0
    } else {
        (number + 1) as u64
    }
}

/// The number that a counter hands out after `draws` draws from `first`.
pub open spec fn nth_number(first: u64, draws: nat) -> u64
    decreases draws,
{
    if draws == 0 {
        first
    } else {
        number_after(nth_number(first, (draws - 1) as nat))
    }
}

impl IdCounter {
    /// A counter whose first number is one.
    pub fn new() -> (counter: Self)
        ensures
            counter@ == 1,
    {
        IdCounter { next: 1 }
    }

    /// The task identity that is drawn next.
    pub fn peek(&self) -> (id: TaskId)
        ensures
            id@ == self@,
    {
        TaskId(self.next)
    }

    /// Hands out the next number.
    pub fn draw(&mut self) -> (number: u64)
        ensures
            number == old(self)@,
            final(self)@ == number_after(old(self)@),
    {
        let number = self.next;
        self.next = number.wrapping_add(1);
        number
    }
}

/// Law: the numbers of one counter do not repeat within 2^64 draws.
pub proof fn law_numbers_do_not_repeat(first: u64, earlier: nat, later: nat)
    requires
        earlier < later,
        later - earlier <= u64::MAX,
    ensures
        nth_number(first, earlier) != nth_number(first, later),
{
    lemma_nth_number(first, earlier);
    lemma_nth_number(first, later);
    let size = u64::MAX + 1;
    assert((first + later) % size != (first + earlier) % size) by {
        if (first + later) % size == (first + earlier) % size {
            vstd::arithmetic::div_mod::lemma_fundamental_div_mod(first + later, size);
            vstd::arithmetic::div_mod::lemma_fundamental_div_mod(first + earlier, size);
            let quotients = (first + later) / size - (first + earlier) / size;
            assert(later - earlier == size * quotients) by (nonlinear_arith)
                requires
                    first + later == size * ((first + later) / size) + (first + later) % size,
                    first + earlier == size * ((first + earlier) / size) + (first + earlier) % size,
                    (first + later) % size == (first + earlier) % size,
                    quotients == (first + later) / size - (first + earlier) / size,
            ;
            assert(false) by (nonlinear_arith)
                requires
                    0 < later - earlier < size,
                    later - earlier == size * quotients,
            ;
        }
    }
}

proof fn lemma_nth_number(first: u64, draws: nat)
    ensures
        nth_number(first, draws) == (first + draws) % (u64::MAX + 1),
    decreases draws,
{
    let size = u64::MAX + 1;
    if draws == 0 {
        vstd::arithmetic::div_mod::lemma_small_mod(first as nat, size as nat);
    } else {
        lemma_nth_number(first, (draws - 1) as nat);
        let previous = first + draws - 1;
        vstd::arithmetic::div_mod::lemma_add_mod_noop(previous, 1, size);
        if previous % size == u64::MAX {
            vstd::arithmetic::div_mod::lemma_mod_self_0(size);
        } else {
            vstd::arithmetic::div_mod::lemma_small_mod((previous % size + 1) as nat, size as nat);
        }
    }
}

/// Identity of one operation across services.
#[derive(Debug, Clone, Copy, PartialEq, Eq, Structural, Hash, PartialOrd, Ord)]
pub struct OperationId(u64);

/// Identity of one accepted request.
#[derive(Debug, Clone, Copy, PartialEq, Eq, Structural, Hash, PartialOrd, Ord)]
pub struct RequestId(u64);

/// Identity of one observed task.
#[derive(Debug, Clone, Copy, PartialEq, Eq, Structural, Hash, PartialOrd, Ord)]
pub struct TaskId(u64);

impl View for OperationId {
    type V = u64;

    closed spec fn view(&self) -> u64 {
        self.0
    }
}

impl View for RequestId {
    type V = u64;

    closed spec fn view(&self) -> u64 {
        self.0
    }
}

impl View for TaskId {
    type V = u64;

    closed spec fn view(&self) -> u64 {
        self.0
    }
}

impl OperationId {
    /// Draws the next identity.
    pub fn next(counter: &mut IdCounter) -> (id: Self)
        ensures
            id@ == old(counter)@,
            final(counter)@ == number_after(old(counter)@),
    {
        OperationId(counter.draw())
    }

    /// The number of the identity.
    pub fn get(self) -> (number: u64)
        ensures
            number == self@,
    {
        self.0
    }

    /// Writes the number in decimal notation.
    pub fn to_string(&self) -> (text: String)
        ensures
            text@ == decimal_text(self@ as nat),
    {
        decimal(self.0)
    }
}

impl RequestId {
    /// Draws the next identity.
    pub fn next(counter: &mut IdCounter) -> (id: Self)
        ensures
            id@ == old(counter)@,
            final(counter)@ == number_after(old(counter)@),
    {
        RequestId(counter.draw())
    }

    /// The number of the identity.
    pub fn get(self) -> (number: u64)
        ensures
            number == self@,
    {
        self.0
    }

    /// Writes the number in decimal notation.
    pub fn to_string(&self) -> (text: String)
        ensures
            text@ == decimal_text(self@ as nat),
    {
        decimal(self.0)
    }
}

impl TaskId {
    /// Draws the next identity.
    pub fn next(counter: &mut IdCounter) -> (id: Self)
        ensures
            id@ == old(counter)@,
            final(counter)@ == number_after(old(counter)@),
    {
        TaskId(counter.draw())
    }

    /// The number of the identity.
    pub fn get(self) -> (number: u64)
        ensures
            number == self@,
    {
        self.0
    }

    /// Writes the number in decimal notation.
    pub fn to_string(&self) -> (text: String)
        ensures
            text@ == decimal_text(self@ as nat),
    {
        decimal(self.0)
    }

    /// Two identities with the same number are the same.
    pub broadcast proof fn lemma_same_number(a: TaskId, b: TaskId)
        ensures
            #[trigger] a@ == #[trigger] b@ ==> a == b,
    {
    }
}

impl MapKey for TaskId {
    open spec fn before(a: u64, b: u64) -> bool {
        a < b
    }

    proof fn order_laws(a: u64, b: u64, c: u64) {
    }

    fn precedes(&self, other: &Self) -> (result: bool) {
        self.0 < other.0
    }

    fn duplicate(&self) -> (copy: Self) {
        *self
    }
}

impl MapKey for RequestId {
    open spec fn before(a: u64, b: u64) -> bool {
        a < b
    }

    proof fn order_laws(a: u64, b: u64, c: u64) {
    }

    fn precedes(&self, other: &Self) -> (result: bool) {
        self.0 < other.0
    }

    fn duplicate(&self) -> (copy: Self) {
        *self
    }
}

/// Law: a counter hands out its numbers one after another, and begins again with
/// zero after the greatest.
pub proof fn law_numbers_follow_each_other(number: u64, counter: &mut IdCounter, drawn: u64)
    requires
        call_ensures(IdCounter::draw, (counter,), drawn),
    ensures
        drawn == old(counter)@,
        drawn < u64::MAX ==> final(counter)@ == drawn + 1,
        drawn == u64::MAX ==> final(counter)@ == 0,
        number < u64::MAX ==> number_after(number) == number + 1,
        number == u64::MAX ==> number_after(number) == 0,
{
}

/// Law: a counter begins with one, and looking at the next number does not draw
/// it.
pub proof fn law_counter_begins_with_one(
    counter: IdCounter,
    looked: IdCounter,
    id: TaskId,
    operation: &mut IdCounter,
    operation_id: OperationId,
    request: &mut IdCounter,
    request_id: RequestId,
    task: &mut IdCounter,
    task_id: TaskId,
)
    requires
        call_ensures(IdCounter::new, (), counter),
        call_ensures(IdCounter::peek, (&looked,), id),
        call_ensures(OperationId::next, (operation,), operation_id),
        call_ensures(RequestId::next, (request,), request_id),
        call_ensures(TaskId::next, (task,), task_id),
    ensures
        counter@ == 1,
        id@ == looked@,
        operation_id@ == old(operation)@,
        request_id@ == old(request)@,
        task_id@ == old(task)@,
        old(operation)@ < u64::MAX ==> final(operation)@ == old(operation)@ + 1,
        old(request)@ < u64::MAX ==> final(request)@ == old(request)@ + 1,
        old(task)@ < u64::MAX ==> final(task)@ == old(task)@ + 1,
{
}

} // verus!
