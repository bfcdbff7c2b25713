//! A staged run: a one-shot setup step, then a step that yields a list of
//! results, optionally followed by further stages.
use vstd::prelude::*;

verus! {

/// A chain of stages. Each stage holds the description of its setup step and
/// of its main step; what a description means is up to the caller of
/// [`Pipeline::execute`], which is handed a function for each kind of step.
pub struct Pipeline<S, P> {
    prereqs: S,
    parallel_steps: P,
    next_pipeline: Option<Box<Pipeline<S, P>>>,
}

impl<S, P> Pipeline<S, P> {
    /// The stages in the order in which they run.
    pub closed spec fn stages(self) -> Seq<(S, P)>
        decreases self,
    {
        match self.next_pipeline {
            Some(next) => seq![(self.prereqs, self.parallel_steps)] + (*next).stages(),
            None => seq![(self.prereqs, self.parallel_steps)],
        }
    }

    /// A single stage.
    pub fn new(prereqs: S, parallel_steps: P) -> (r: Self)
        ensures
            r.stages() == seq![(prereqs, parallel_steps)],
    {
        Pipeline { prereqs, parallel_steps, next_pipeline: None }
    }

    /// This pipeline's first stage followed by the stages of `next`; any
    /// stages that followed the first one here are dropped.
    pub fn then(self, next: Pipeline<S, P>) -> (r: Self)
        ensures
            r.stages() == seq![self.stages()[0]] + next.stages(),
    {
        Pipeline {
            prereqs: self.prereqs,
            parallel_steps: self.parallel_steps,
            next_pipeline: Some(Box::new(next)),
        }
    }
}

/// Stage `st` ran through: its setup step returned `Ok`, and its main step
/// returned `Ok` with some list of results.
pub open spec fn stage_succeeded<S, P, R, E, F, G>(setup: F, step: G, st: (S, P)) -> bool where
    F: Fn(&S) -> Result<(), E>,
    G: Fn(&P) -> Result<Vec<R>, E>,
 {
    &&& setup.ensures((&st.0,), Ok(()))
    &&& exists|w: Vec<R>| step.ensures((&st.1,), Ok(w))
}

/// Stage `st` stopped with error `e`, from its setup step or, after a
/// setup step that returned `Ok`, from its main step.
pub open spec fn stage_failed<S, P, R, E, F, G>(setup: F, step: G, st: (S, P), e: E) -> bool where
    F: Fn(&S) -> Result<(), E>,
    G: Fn(&P) -> Result<Vec<R>, E>,
 {
    ||| setup.ensures((&st.0,), Err(e))
    ||| setup.ensures((&st.0,), Ok(())) && step.ensures((&st.1,), Err::<Vec<R>, E>(e))
}

/// A run of `stages` stopped with error `e`: some stage failed with it after
/// all the stages before it had run through.
pub open spec fn run_failed<S, P, R, E, F, G>(setup: F, step: G, stages: Seq<(S, P)>, e: E) -> bool where
    F: Fn(&S) -> Result<(), E>,
    G: Fn(&P) -> Result<Vec<R>, E>,
 {
    exists|i: int|
        0 <= i < stages.len() && stage_failed(setup, step, #[trigger] stages[i], e) && forall|j: int|
            0 <= j < i ==> stage_succeeded(setup, step, #[trigger] stages[j])
}

impl<S, P> Pipeline<S, P> {
    proof fn lemma_stages(self)
        ensures
            self.stages().len() >= 1,
            self.stages()[0] == (self.prereqs, self.parallel_steps),
            self.next_pipeline is None ==> self.stages().len() == 1,
            self.next_pipeline matches Some(next) ==> (*next).stages() == self.stages().skip(1),
    {
        match self.next_pipeline {
            Some(next) => {
                assert((seq![(self.prereqs, self.parallel_steps)] + (*next).stages()).skip(1)
                    =~= (*next).stages());
            },
            None => {},
        }
    }

    /// Runs the stages in order: for each, `setup` on its setup step, then
    /// `step` on its main step. The first error stops the run and is
    /// returned; otherwise the results of the first stage's main step are.
    pub fn execute<R, E, F, G>(self, setup: F, step: G) -> (r: Result<Vec<R>, E>) where
        F: Fn(&S) -> Result<(), E>,
        G: Fn(&P) -> Result<Vec<R>, E>,

        requires
            forall|i: int|
                0 <= i < self.stages().len() ==> setup.requires((&#[trigger] self.stages()[i].0,))
                    && step.requires((&self.stages()[i].1,)),
        ensures
            match r {
                Ok(v) => {
                    &&& step.ensures((&self.stages()[0].1,), Ok(v))
                    &&& setup.ensures((&self.stages()[0].0,), Ok(()))
                    &&& forall|i: int|
                        0 <= i < self.stages().len() ==> stage_succeeded(
                            setup,
                            step,
                            #[trigger] self.stages()[i],
                        )
                },
                Err(e) => run_failed(setup, step, self.stages(), e),
            },
    {
        let ghost st = self.stages();
        proof {
            self.lemma_stages();
            assert(st.skip(0) =~= st);
        }
        let mut cur = self;
        let ghost mut k: int = 0;
        let mut first: Option<Vec<R>> = None;
        loop
            invariant
                0 <= k < st.len(),
                st == self.stages(),
                cur.stages() == st.skip(k),
                forall|i: int|
                    0 <= i < st.len() ==> setup.requires((&#[trigger] st[i].0,)) && step.requires(
                        (&st[i].1,),
                    ),
                forall|j: int| 0 <= j < k ==> stage_succeeded(setup, step, #[trigger] st[j]),
                k == 0 <==> first is None,
                first matches Some(v) ==> step.ensures((&st[0].1,), Ok(v)) && setup.ensures(
                    (&st[0].0,),
                    Ok(()),
                ),
            decreases st.len() - k,
        {
            proof {
                cur.lemma_stages();
                assert(st[k] == cur.stages()[0]);
            }
            let Pipeline { prereqs, parallel_steps, next_pipeline } = cur;
            match setup(&prereqs) {
                Ok(unit) => {},
                Err(e) => {
                    assert(stage_failed(setup, step, st[k], e));
                    return Err(e);
                },
            }
            let results = match step(&parallel_steps) {
                Ok(v) => v,
                Err(e) => {
                    assert(stage_failed(setup, step, st[k], e));
                    return Err(e);
                },
            };
            assert(stage_succeeded(setup, step, st[k]));
            if first.is_none() {
                first = Some(results);
            }
            match next_pipeline {
                Some(next) => {
                    proof {
                        assert(st.skip(k).skip(1) =~= st.skip(k + 1));
                        k = k + 1;
                    }
                    cur = *next;
                },
                None => {
                    return Ok(first.unwrap());
                },
            }
        }
    }
}

} // verus!
