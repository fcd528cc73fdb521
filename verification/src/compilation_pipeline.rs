//! Ordered compiler stages whose security-sensitive suffix is explicit.
//!
//! The terminal hardening marker is part of the pipeline contract, so that a
//! hardening pass cannot silently be inserted before a later compiler stage.
use vstd::prelude::*;

verus! {

#[derive(Debug, Clone, Copy, PartialEq, Eq, Structural)]
pub enum CompilationPass {
    Reachability,
    WasmEmission,
    Hardening,
}

impl CompilationPass {
    pub open spec fn hardens(self) -> bool {
        self == CompilationPass::Hardening
    }

    fn is_hardening(self) -> (result: bool)
        ensures
            result == self.hardens(),
    {
        match self {
            CompilationPass::Hardening => true,
            _ => false,
        }
    }
}

/// Every hardening pass is in the final contiguous suffix.
pub open spec fn hardening_is_last(passes: Seq<CompilationPass>) -> bool {
    forall|i: int, j: int| 0 <= i < j < passes.len() && (
        #[trigger] passes[i]
    ).hardens() ==> (#[trigger] passes[j]).hardens()
}

/// The sequence recorded by the compiler entry point.
#[derive(Debug)]
pub struct CompilationPipeline {
    passes: Vec<CompilationPass>,
}

impl CompilationPipeline {
    /// The stages run so far.
    pub closed spec fn recorded(&self) -> Seq<CompilationPass> {
        self.passes@
    }

    /// Whether the pipeline still accepts this stage.
    pub open spec fn accepts(&self, pass: CompilationPass) -> bool {
        self.recorded().len() > 0 && self.recorded().last().hardens() ==> pass.hardens()
    }

    #[verifier::type_invariant]
    spec fn ordered(&self) -> bool {
        hardening_is_last(self.passes@)
    }

    pub fn new() -> (pipeline: Self)
        ensures
            pipeline.recorded() == Seq::<CompilationPass>::empty(),
    {
        CompilationPipeline { passes: Vec::new() }
    }

    /// Whether a stage may follow those already run: only hardening follows
    /// hardening.
    pub fn admits(&self, pass: CompilationPass) -> (result: bool)
        ensures
            result == self.accepts(pass),
    {
        let count: usize = self.passes.len();
        if count == 0 {
            true
        } else {
            !self.passes[count - 1].is_hardening() || pass.is_hardening()
        }
    }

    /// Run one compiler stage and record it in the same sequence that the
    /// hardening-order invariant speaks of. A non-hardening stage after hardening
    /// is not accepted.
    pub fn run<T, F: FnOnce() -> T>(&mut self, pass: CompilationPass, stage: F) -> (result: T)
        requires
            old(self).accepts(pass),
            stage.requires(()),
        ensures
            final(self).recorded() == old(self).recorded().push(pass),
            stage.ensures((), result),
    {
        proof {
            use_type_invariant(&*self);
        }
        let mut passes: Vec<CompilationPass> = Vec::new();
        std::mem::swap(&mut passes, &mut self.passes);
        let ghost before = passes@;
        passes.push(pass);
        assert(hardening_is_last(passes@)) by {
            assert forall|i: int, j: int| 0 <= i < j < passes@.len() && (#[trigger] passes@[i]).hardens() implies (
            #[trigger] passes@[j]).hardens() by {
                if j < before.len() {
                    assert(before[i].hardens() && before[j].hardens());
                } else if i < before.len() - 1 {
                    assert(before[i].hardens() && before[before.len() - 1].hardens());
                }
            }
        }
        self.passes = passes;
        stage()
    }

    pub fn passes(&self) -> (passes: &[CompilationPass])
        ensures
            passes@ == self.recorded(),
            hardening_is_last(passes@),
    {
        proof {
            use_type_invariant(&*self);
        }
        self.passes.as_slice()
    }
}

/// Return whether every hardening pass is in the final contiguous suffix.
pub fn hardening_passes_are_last(passes: &[CompilationPass]) -> (result: bool)
    ensures
        result == hardening_is_last(passes@),
{
    let mut hardening_seen = false;
    let ghost mut first: int = 0;
    let mut i: usize = 0;
    while i < passes.len()
        invariant
            i <= passes@.len(),
            hardening_seen ==> 0 <= first < i && passes@[first].hardens(),
            !hardening_seen ==> forall|k: int| 0 <= k < i ==> !(#[trigger] passes@[k]).hardens(),
            forall|k: int, j: int|
                0 <= k < j < i && (#[trigger] passes@[k]).hardens() ==> (#[trigger] passes@[j]).hardens(),
        decreases passes@.len() - i,
    {
        if passes[i].is_hardening() {
            if !hardening_seen {
                proof {
                    first = i as int;
                }
            }
            hardening_seen = true;
        } else if hardening_seen {
            assert(passes@[first].hardens() && !passes@[i as int].hardens());
            return false;
        }
        i += 1;
    }
    true
}

/// A pipeline that accepts only what [`CompilationPipeline::run`] accepts keeps
/// its hardening passes last.
pub proof fn law_accepted_stages_keep_hardening_last(passes: Seq<CompilationPass>, pass: CompilationPass)
    requires
        hardening_is_last(passes),
        passes.len() > 0 && passes.last().hardens() ==> pass.hardens(),
    ensures
        hardening_is_last(passes.push(pass)),
{
    let after = passes.push(pass);
    assert forall|i: int, j: int| 0 <= i < j < after.len() && (#[trigger] after[i]).hardens() implies (
    #[trigger] after[j]).hardens() by {
        if j < passes.len() {
            assert(passes[i].hardens() && passes[j].hardens());
        } else if i < passes.len() - 1 {
            assert(passes[i].hardens() && passes[passes.len() - 1].hardens());
        }
    }
}

} // verus!
