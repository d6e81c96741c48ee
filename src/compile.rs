use vstd::prelude::*;

use crate::ast::Block;
use crate::packer::{image_fits, rite_image, RitePacker};
use crate::lunarir::LunarIR;
use crate::transformer::{lowering_runs, step_result, transform, tree_well_formed, Lowering, TransformError};
use crate::walker::{initial_walk, lower_chunk, seq_same_ir, WalkError, Walker};

verus! {

/// Why a tree could not be compiled, by stage.
#[derive(Debug)]
pub enum CompileError {
    Walk(WalkError),
    Transform(TransformError),
    Pack(String),
}

/// What compiling the intermediate sequence `ir` gave: the image of the
/// scopes of the lowering machine's full run over `ir`; or, when the machine
/// refuses an instruction, its error; or, when those scopes do not fit the
/// binary format, a packing error.
pub open spec fn compiled(ir: Seq<LunarIR>, r: Result<Vec<u8>, CompileError>) -> bool {
    match r {
        Ok(bytes) => exists|run: Seq<Lowering>|
            {
                &&& #[trigger] lowering_runs(ir, run)
                &&& tree_well_formed(run.last().reps@)
                &&& image_fits(run.last().reps@)
                &&& rite_image(run.last().reps@) == bytes@
            },
        Err(CompileError::Walk(_)) => false,
        Err(CompileError::Transform(e)) => {
            &&& !exists|run: Seq<Lowering>| #[trigger] lowering_runs(ir, run)
            &&& exists|i: int, run: Seq<Lowering>|
                0 <= i < ir.len() && #[trigger] lowering_runs(ir.subrange(0, i), run)
                    && step_result(run.last(), ir[i]) == Err::<(), TransformError>(e)
        },
        Err(CompileError::Pack(_)) => exists|run: Seq<Lowering>|
            #[trigger] lowering_runs(ir, run) && !image_fits(run.last().reps@),
    }
}

/// Compiles a tree: walks it, lowers the sequence into scopes, packs them.
/// A tree the walker refuses gives its walk error; otherwise the outcome is
/// what `compiled` says of the walker's sequence for `root`.
pub fn compile(root: &Block) -> (r: Result<Vec<u8>, CompileError>)
    ensures
        match lower_chunk(root.0, initial_walk()) {
            Err(e) => r is Err && r->Err_0 == CompileError::Walk(e),
            Ok((ms, _)) => exists|ir: Seq<LunarIR>| seq_same_ir(ir, ms) && #[trigger] compiled(ir, r),
        },
{
    let mut walker = Walker::new();
    match walker.walk(root) {
        Ok(_) => {},
        Err(e) => {
            return Err(CompileError::Walk(e));
        },
    }
    let reps = match transform(walker.msg_stack.as_slice()) {
        Ok(reps) => reps,
        Err(e) => {
            let r = Err(CompileError::Transform(e));
            proof {
                if let Ok((ms, _)) = lower_chunk(root.0, initial_walk()) {
                    assert(Seq::<LunarIR>::empty() + ms =~= ms);
                    assert(compiled(walker.msg_stack@, r));
                }
            }
            return r;
        },
    };
    let mut packer = RitePacker::new();
    match packer.pack(reps.as_slice()) {
        Ok(_) => {},
        Err(e) => {
            let r = Err(CompileError::Pack(e));
            proof {
                if let Ok((ms, _)) = lower_chunk(root.0, initial_walk()) {
                    assert(Seq::<LunarIR>::empty() + ms =~= ms);
                    assert(compiled(walker.msg_stack@, r));
                }
            }
            return r;
        },
    }
    proof {
        assert(packer.buf@ =~= rite_image(reps@));
        if let Ok((ms, _)) = lower_chunk(root.0, initial_walk()) {
            assert(Seq::<LunarIR>::empty() + ms =~= ms);
        }
    }
    let r = Ok(packer.buf);
    proof {
        if let Ok((ms, _)) = lower_chunk(root.0, initial_walk()) {
            assert(compiled(walker.msg_stack@, r));
        }
    }
    r
}

} // verus!
