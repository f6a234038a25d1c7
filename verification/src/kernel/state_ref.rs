//! Where the trap handlers find the kernel's state: its address is registered while it
//! lives.

use vstd::prelude::*;

verus! {

/// The registered address, 0 for none.
#[derive(Clone, Copy, Debug, PartialEq, Eq)]
pub struct KernelStateRef {
    addr: u64,
}

impl View for KernelStateRef {
    type V = Option<u64>;

    /// The registered address, if there is one.
    closed spec fn view(&self) -> Option<u64> {
        if self.addr == 0 {
            None
        } else {
            Some(self.addr)
        }
    }
}

impl KernelStateRef {
    pub fn new() -> (r: KernelStateRef)
        ensures
            r@ == None::<u64>,
    {
        KernelStateRef { addr: 0 }
    }

    /// The registered address, if there is one.
    pub fn get(&self) -> (addr: Option<u64>)
        ensures
            addr == self@,
    {
        if self.addr == 0 {
            None
        } else {
            Some(self.addr)
        }
    }
}

/// What is done to the registry.
pub enum RegistryStep {
    Register { addr: u64 },
    Unregister,
}

/// What is registered after a step, whatever was before.
pub open spec fn after_step(step: RegistryStep) -> Option<u64> {
    match step {
        RegistryStep::Register { addr } => if addr == 0 {
            None
        } else {
            Some(addr)
        },
        RegistryStep::Unregister => None,
    }
}

/// What is registered after several steps, where `before` was.
pub open spec fn after_steps(before: Option<u64>, steps: Seq<RegistryStep>) -> Option<u64>
    decreases steps.len(),
{
    if steps.len() == 0 {
        before
    } else {
        after_steps(after_step(steps[0]), steps.skip(1))
    }
}

/// Registers the kernel's state by its address.
pub fn register_kernel_state(r: &mut KernelStateRef, addr: u64)
    ensures
        final(r)@ == after_step(RegistryStep::Register { addr }),
{
    r.addr = addr;
}

/// No state is registered any more.
pub fn unregister_kernel_state(r: &mut KernelStateRef)
    ensures
        final(r)@ == after_step(RegistryStep::Unregister),
{
    r.addr = 0;
}

/// What `f` gave back, called on the registered address; nothing where none is registered,
/// and then `f` is not called.
pub open spec fn ran_on<R, F: FnOnce(u64) -> R>(
    registered: Option<u64>,
    f: F,
    result: Option<R>,
) -> bool {
    match registered {
        Some(addr) => result is Some && call_ensures(f, (addr,), result->0),
        None => result is None,
    }
}

/// Runs something on the registered state, if there is one.
pub fn with_kernel_state<R, F: FnOnce(u64) -> R>(r: &KernelStateRef, f: F) -> (result: Option<R>)
    requires
        r@ matches Some(addr) ==> call_requires(f, (addr,)),
    ensures
        ran_on(r@, f, result),
{
    match r.get() {
        Some(addr) => Some(f(addr)),
        None => None,
    }
}

proof fn lemma_last_step(before: Option<u64>, steps: Seq<RegistryStep>)
    requires
        steps.len() > 0,
    ensures
        after_steps(before, steps) == after_step(steps.last()),
    decreases steps.len(),
{
    reveal_with_fuel(after_steps, 2);
    let now = after_step(steps[0]);
    if steps.len() > 1 {
        lemma_last_step(now, steps.skip(1));
        assert(steps.skip(1).last() == steps.last());
    }
}

/// However often a state was registered before: once it is unregistered nothing runs on a
/// state until the next registration, and after a registration what runs is called on that
/// state.
pub proof fn law_runs_on_the_last_registered<R, F: FnOnce(u64) -> R>(
    before: Option<u64>,
    steps: Seq<RegistryStep>,
    since: int,
    f: F,
    result: Option<R>,
)
    requires
        0 <= since < steps.len(),
        forall|i: int| since < i < steps.len() ==> (#[trigger] steps[i]) is Unregister,
        ran_on(after_steps(before, steps), f, result),
    ensures
        steps[since] is Unregister || since + 1 < steps.len() ==> result is None,
        steps[since] matches RegistryStep::Register { addr } ==> addr != 0 && since + 1
            == steps.len() ==> result is Some && call_ensures(f, (addr,), result->0),
{
    lemma_last_step(before, steps);
    if since < steps.len() - 1 {
        assert(steps[steps.len() - 1] is Unregister);
    }
}

/// The word that a trap gives back: what the kernel answered, or 0 where no state was
/// registered.
pub fn trap_answer(answer: Option<u64>) -> (ret: u64)
    ensures
        ret == (match answer {
            Some(v) => v,
            None => 0,
        }),
{
    match answer {
        Some(v) => v,
        None => 0,
    }
}

} // verus!
