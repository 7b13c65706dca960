use vstd::prelude::*;

verus! {

/// The stack of main spans entered on one thread, innermost last.
///
/// `S` is the span handle (a `tracing::Span` in the instrumented runtime).
pub struct MainSpanStack<S> {
    spans: Vec<S>,
}

/// Token returned when a main span is entered; handing it back to
/// [`leave_main_span`] leaves the span.
pub struct MainSpanGuard {
    depth: usize,
}

impl<S> View for MainSpanStack<S> {
    type V = Seq<S>;

    closed spec fn view(&self) -> Seq<S> {
        self.spans@
    }
}

impl MainSpanGuard {
    /// Number of spans on the stack right after the guarded span was entered.
    pub closed spec fn spec_depth(&self) -> nat {
        self.depth as nat
    }

    pub fn depth(&self) -> (d: usize)
        ensures
            d == self.spec_depth(),
    {
        self.depth
    }
}

/// Stack after entering `span`: it becomes the innermost main span.
pub open spec fn entered<S>(stack: Seq<S>, span: S) -> Seq<S> {
    stack.push(span)
}

/// Stack after leaving the innermost main span; leaving with nothing entered
/// changes nothing.
pub open spec fn left<S>(stack: Seq<S>) -> Seq<S> {
    if stack.len() > 0 {
        stack.drop_last()
    } else {
        stack
    }
}

/// The innermost main span, if any.
pub open spec fn innermost<S>(stack: Seq<S>) -> Option<S> {
    if stack.len() > 0 {
        Some(stack.last())
    } else {
        None
    }
}

impl<S> MainSpanStack<S> {
    /// An empty stack: no main span entered.
    pub fn new() -> (s: Self)
        ensures
            s@ == Seq::<S>::empty(),
    {
        MainSpanStack { spans: Vec::new() }
    }

    pub fn len(&self) -> (n: usize)
        ensures
            n == self@.len(),
    {
        self.spans.len()
    }
}

/// Makes `span` the current main span until the returned guard is handed to
/// [`leave_main_span`].
pub fn enter_main_span<S>(stack: &mut MainSpanStack<S>, span: S) -> (g: MainSpanGuard)
    ensures
        final(stack)@ == entered(old(stack)@, span),
        g.spec_depth() == final(stack)@.len(),
{
    stack.spans.push(span);
    MainSpanGuard { depth: stack.spans.len() }
}

/// Leaves the innermost main span (the guard's own span when guards are
/// handed back in the reverse order of entering).
pub fn leave_main_span<S>(stack: &mut MainSpanStack<S>, guard: MainSpanGuard)
    ensures
        final(stack)@ == left(old(stack)@),
        0 < guard.spec_depth() == old(stack)@.len() ==> final(stack)@ == old(stack)@.take(
            guard.spec_depth() - 1,
        ),
{
    let _ = guard;
    let _ = stack.spans.pop();
    assert(old(stack)@.len() > 0 ==> old(stack)@.drop_last() =~= old(stack)@.take(old(stack)@.len() - 1));
}

/// A clone of the innermost main span, or `None` outside every main span.
pub fn current_main_span<S: Clone>(stack: &MainSpanStack<S>) -> (r: Option<S>)
    ensures
        r is Some <==> innermost(stack@) is Some,
        r matches Some(s) ==> cloned::<S>(innermost(stack@)->0, s),
{
    let n = stack.spans.len();
    if n == 0 {
        None
    } else {
        Some(stack.spans[n - 1].clone())
    }
}

/// One step on the main-span stack.
pub enum StackOp<S> {
    Enter(S),
    Leave,
}

/// The stack after performing `op`.
pub open spec fn step<S>(stack: Seq<S>, op: StackOp<S>) -> Seq<S> {
    match op {
        StackOp::Enter(span) => entered(stack, span),
        StackOp::Leave => left(stack),
    }
}

/// The stack after performing `ops` in order.
pub open spec fn run<S>(stack: Seq<S>, ops: Seq<StackOp<S>>) -> Seq<S>
    decreases ops.len(),
{
    if ops.len() == 0 {
        stack
    } else {
        step(run(stack, ops.drop_last()), ops.last())
    }
}

/// Entries minus leaves performed by `ops`.
pub open spec fn net_depth<S>(ops: Seq<StackOp<S>>) -> int
    decreases ops.len(),
{
    if ops.len() == 0 {
        0
    } else {
        net_depth(ops.drop_last()) + match ops.last() {
            StackOp::Enter(_) => 1int,
            StackOp::Leave => -1int,
        }
    }
}

/// No prefix of `ops` leaves more spans than it entered.
pub open spec fn well_nested<S>(ops: Seq<StackOp<S>>) -> bool {
    forall|k: int| 0 <= k <= ops.len() ==> net_depth(#[trigger] ops.take(k)) >= 0
}

/// Leaving a main span right after entering it restores the stack, and with
/// it the current main span.
pub proof fn lemma_leave_undoes_enter<S>(stack: Seq<S>, span: S)
    ensures
        left(entered(stack, span)) == stack,
        innermost(left(entered(stack, span))) == innermost(stack),
{
    assert(entered(stack, span).drop_last() =~= stack);
}

/// The span just entered is the current main span.
pub proof fn lemma_entered_is_current<S>(stack: Seq<S>, span: S)
    ensures
        innermost(entered(stack, span)) == Some(span),
{
}

/// Main-span context is scoped: a well-nested run of enters and leaves never
/// disturbs the spans that were on the stack before it, and leaves
/// `net_depth(ops)` spans of its own on top of them.
pub proof fn lemma_well_nested_run_keeps_outer<S>(stack: Seq<S>, ops: Seq<StackOp<S>>)
    requires
        well_nested(ops),
    ensures
        run(stack, ops).len() == stack.len() + net_depth(ops),
        run(stack, ops).subrange(0, stack.len() as int) == stack,
    decreases ops.len(),
{
    if ops.len() == 0 {
        assert(stack.subrange(0, stack.len() as int) =~= stack);
    } else {
        let prefix = ops.drop_last();
        assert forall|k: int| 0 <= k <= prefix.len() implies net_depth(#[trigger] prefix.take(k)) >= 0 by {
            assert(prefix.take(k) =~= ops.take(k));
        }
        lemma_well_nested_run_keeps_outer(stack, prefix);
        assert(ops.take(ops.len() as int) =~= ops);
        let before = run(stack, prefix);
        match ops.last() {
            StackOp::Enter(span) => {
                assert(entered(before, span).subrange(0, stack.len() as int) =~= before.subrange(
                    0,
                    stack.len() as int,
                ));
            },
            StackOp::Leave => {
                assert(before.drop_last().subrange(0, stack.len() as int) =~= before.subrange(
                    0,
                    stack.len() as int,
                ));
            },
        }
    }
}

/// A well-nested run that leaves every span it entered restores the stack.
pub proof fn lemma_balanced_run_restores<S>(stack: Seq<S>, ops: Seq<StackOp<S>>)
    requires
        well_nested(ops),
        net_depth(ops) == 0,
    ensures
        run(stack, ops) == stack,
{
    lemma_well_nested_run_keeps_outer(stack, ops);
    assert(run(stack, ops) =~= run(stack, ops).subrange(0, stack.len() as int));
}

} // verus!
