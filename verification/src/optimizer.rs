use crate::ast::ProgramExpr;
use vstd::prelude::*;

verus! {

/// The optimisation stage of the pipeline.  No rewrite is implemented: the
/// tree passes through unchanged.
#[derive(Debug)]
pub struct AstOptimizer {
    pub ast_entry: Box<ProgramExpr>,
}

impl AstOptimizer {
    pub fn new(ast_entry: Box<ProgramExpr>) -> (r: Self)
        ensures
            r.ast_entry == ast_entry,
    {
        AstOptimizer { ast_entry }
    }

    /// Hands the tree back exactly as it came in.
    pub fn optimize(self) -> (r: Box<ProgramExpr>)
        ensures
            r == self.ast_entry,
    {
        self.ast_entry
    }
}

} // verus!
