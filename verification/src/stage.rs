//! Stages and pipeline descriptions.

use vstd::prelude::*;
use vstd::slice::slice_subrange;

verus! {

/// Why a textual pipeline description was rejected.
#[derive(Debug, Clone, Copy, PartialEq, Eq, Structural)]
pub enum TokenizeError {
    /// The description held no text at all.
    EmptyPipeline,
    /// One pipe-delimited segment held no token.
    EmptyStage,
}

/// The view of a vector of strings: each string as its sequence of characters.
pub open spec fn texts(v: Seq<String>) -> Seq<Seq<char>> {
    Seq::new(v.len(), |i: int| v[i]@)
}

/// One executable invocation: the program name followed by its arguments.
///
/// A stage always holds at least one token.
#[derive(Debug, PartialEq, Eq)]
pub struct Stage {
    tokens: Vec<String>,
}

impl View for Stage {
    type V = Seq<Seq<char>>;

    closed spec fn view(&self) -> Seq<Seq<char>> {
        texts(self.tokens@)
    }
}

impl Stage {
    #[verifier::type_invariant]
    closed spec fn nonempty(&self) -> bool {
        self.tokens@.len() >= 1
    }

    /// Builds a stage from its tokens; there is no stage without a program name.
    pub fn new(tokens: Vec<String>) -> (r: Result<Stage, TokenizeError>)
        ensures
            tokens@.len() == 0 <==> r is Err,
            r is Err ==> r == Err::<Stage, TokenizeError>(TokenizeError::EmptyStage),
            r matches Ok(stage) ==> stage@ == texts(tokens@),
    {
        if tokens.len() == 0 {
            Err(TokenizeError::EmptyStage)
        } else {
            Ok(Stage { tokens })
        }
    }

    /// The tokens of the stage, program name first.
    pub fn tokens(&self) -> (r: &Vec<String>)
        ensures
            texts(r@) == self@,
            r@.len() >= 1,
    {
        proof {
            use_type_invariant(self);
        }
        &self.tokens
    }

    /// The name of the executable: the first token.
    pub fn program(&self) -> (r: &String)
        ensures
            self@.len() >= 1,
            r@ == self@[0],
    {
        proof {
            use_type_invariant(self);
        }
        &self.tokens[0]
    }

    /// The arguments of the executable: the tokens after the first, in order.
    pub fn args(&self) -> (r: &[String])
        ensures
            self@.len() >= 1,
            texts(r@) == self@.skip(1),
    {
        proof {
            use_type_invariant(self);
        }
        let all = self.tokens.as_slice();
        let rest = slice_subrange(all, 1, all.len());
        assert(texts(rest@) =~= self@.skip(1));
        rest
    }
}

/// The view of a vector of stages: each stage as its sequence of tokens.
pub open spec fn stage_views(v: Seq<Stage>) -> Seq<Seq<Seq<char>>> {
    Seq::new(v.len(), |i: int| v[i]@)
}

/// The ordered stages of one benchmarked command chain, `a | b | c`.
///
/// A pipeline always holds at least one stage.
#[derive(Debug, PartialEq, Eq)]
pub struct PipelineSpec {
    stages: Vec<Stage>,
}

impl View for PipelineSpec {
    type V = Seq<Seq<Seq<char>>>;

    closed spec fn view(&self) -> Seq<Seq<Seq<char>>> {
        stage_views(self.stages@)
    }
}

impl PipelineSpec {
    #[verifier::type_invariant]
    closed spec fn nonempty(&self) -> bool {
        self.stages@.len() >= 1
    }

    /// Builds a pipeline from its stages; there is no pipeline without a stage.
    pub fn new(stages: Vec<Stage>) -> (r: Result<PipelineSpec, TokenizeError>)
        ensures
            stages@.len() == 0 <==> r is Err,
            r is Err ==> r == Err::<PipelineSpec, TokenizeError>(TokenizeError::EmptyPipeline),
            r matches Ok(spec) ==> spec@ == stage_views(stages@),
    {
        if stages.len() == 0 {
            Err(TokenizeError::EmptyPipeline)
        } else {
            Ok(PipelineSpec { stages })
        }
    }

    /// The number of stages, which is at least one.
    pub fn len(&self) -> (n: usize)
        ensures
            n == self@.len(),
            n >= 1,
    {
        proof {
            use_type_invariant(self);
        }
        self.stages.len()
    }

    /// The stage at position `index`, counted from the head of the chain.
    pub fn stage(&self, index: usize) -> (r: Option<&Stage>)
        ensures
            index < self@.len() <==> r is Some,
            r matches Some(stage) ==> stage@ == self@[index as int] && stage@.len() >= 1,
    {
        if index < self.stages.len() {
            let stage = &self.stages[index];
            proof {
                use_type_invariant(stage);
            }
            Some(stage)
        } else {
            None
        }
    }
}

} // verus!
