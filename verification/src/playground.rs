//! The playground bundle: an engine run with no configured rules, for
//! experimenting against a real snapshot.  It reports nothing.

use vstd::prelude::*;
use crate::context::NexLintContext;
use crate::engine::LintEngineConfig;
use crate::engine::engine_run_spec;
use crate::engine::lemma_empty_bundle;
use crate::errors::SystemError;
use crate::message::LintResults;

verus! {

/// Options of the `playground` command.
#[derive(Clone, Copy, Debug, PartialEq, Eq, Structural)]
pub struct Args {
    /// Dummy flag that does nothing.
    pub dummy: bool,
}

/// Runs an empty rule bundle against the snapshot; the result never holds a
/// message or a skip record.
pub fn run(ctx: &NexLintContext, args: Args) -> (r: Result<LintResults, SystemError>)
    requires
        ctx.wf(),
    ensures
        match r {
            Ok(res) => res@.messages.len() == 0 && res@.skipped.len() == 0,
            Err(_) => false,
        },
{
    let engine = LintEngineConfig::new().build();
    let results = engine.run(ctx);
    proof {
        lemma_empty_bundle(ctx, &engine.config);
        assert(results@ == engine_run_spec(ctx, &engine.config));
    }
    Ok(results)
}

} // verus!
