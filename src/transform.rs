use vstd::prelude::*;

verus! {

/// One transform step: a pure function over a batch of records, supplied by
/// the user of the library.
pub trait Processor {
    /// What this step makes of a batch. A step that does not state it is
    /// taken to leave the batch as it is.
    open spec fn transformed(&self, batch: Seq<String>) -> Seq<String> {
        batch
    }

    fn process(&self, batch: Vec<String>) -> (r: Vec<String>)
        ensures
            r@ == self.transformed(batch@),
    ;
}

/// The batch that `steps`, applied in order (the first step first), make of
/// `batch`.
pub open spec fn run_steps<P: Processor>(steps: Seq<P>, batch: Seq<String>) -> Seq<String>
    decreases steps.len(),
{
    if steps.len() == 0 {
        batch
    } else {
        run_steps(steps.drop_first(), steps[0].transformed(batch))
    }
}

/// An ordered chain of transform steps.
pub struct Transform<P: Processor> {
    processors: Vec<P>,
}

impl<P: Processor> Transform<P> {
    pub closed spec fn steps(&self) -> Seq<P> {
        self.processors@
    }

    /// A chain with no steps, which leaves every batch as it is.
    pub fn new() -> (r: Transform<P>)
        ensures
            r.steps() == Seq::<P>::empty(),
    {
        Transform { processors: Vec::new() }
    }

    /// Appends a step at the end of the chain.
    pub fn add_processor(&mut self, processor: P)
        ensures
            final(self).steps() == old(self).steps().push(processor),
    {
        self.processors.push(processor);
    }

    /// Runs a batch through every step, in order, each step taking what the
    /// one before it returned.
    pub fn execute(&self, input: Vec<String>) -> (r: Vec<String>)
        ensures
            r@ == run_steps(self.steps(), input@),
    {
        let ghost whole = run_steps(self.processors@, input@);
        let mut batch = input;
        let mut i: usize = 0;
        assert(self.processors@.subrange(0, self.processors@.len() as int) =~= self.processors@);
        while i < self.processors.len()
            invariant
                i <= self.processors@.len(),
                run_steps(self.processors@.subrange(i as int, self.processors@.len() as int), batch@)
                    == whole,
            decreases self.processors@.len() - i,
        {
            let ghost rest = self.processors@.subrange(i as int, self.processors@.len() as int);
            assert(rest.drop_first() =~= self.processors@.subrange(
                i + 1,
                self.processors@.len() as int,
            ));
            assert(rest[0] == self.processors@[i as int]);
            batch = self.processors[i].process(batch);
            i = i + 1;
        }
        assert(self.processors@.subrange(i as int, self.processors@.len() as int) =~= Seq::<
            P,
        >::empty());
        batch
    }
}

} // verus!
