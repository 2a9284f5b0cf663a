//! A plugin instance: one sandbox bound to one request context, driven
//! through its phases by the router.
//!
//! The lifecycle is a straight line: created, started, and then through
//! the optional request, request-decision, response-decision and feedback
//! phases, in order.  Only `start` is mandatory; an optional phase whose
//! entry point the guest does not export is simply skipped, so a phase
//! may be entered from any earlier started state.  A guest failure
//! poisons the instance, and a poisoned instance never advances again.
//! The guest itself runs outside this crate; the runtime reports whether
//! the entry point trapped, and the machine here decides what that means.

use vstd::prelude::*;
use vstd::string::*;
use crate::context::RequestContext;
use crate::decision::Decision;
use crate::interfaces::{DecisionComponents, OutcomeInterface, ResponseInterface};
use crate::plugin::Plugin;
use crate::tags::{copy_strings, string_views};

verus! {

/// Where an instance stands in its lifecycle.
#[derive(Clone, Copy, Debug, PartialEq, Eq, Structural)]
pub enum Phase {
    /// Instantiated; the guest has not run.
    Created,
    /// The mandatory entry point has run.
    Started,
    /// The request phase has run.
    Requested,
    /// The request-decision phase has run.
    RequestDecided,
    /// The response-decision phase has run.
    ResponseDecided,
    /// The feedback phase has run; the instance is done.
    Finalized,
}

/// The position of a phase along the lifecycle.
pub open spec fn phase_index(p: Phase) -> int {
    match p {
        Phase::Created => 0,
        Phase::Started => 1,
        Phase::Requested => 2,
        Phase::RequestDecided => 3,
        Phase::ResponseDecided => 4,
        Phase::Finalized => 5,
    }
}

/// Why a guest invocation did not complete.
#[derive(Clone, Copy, Debug, PartialEq, Eq, Structural)]
pub enum PluginExecutionError {
    /// The guest does not export the entry point that was invoked.
    NotImplemented,
    /// The guest trapped, ran out of fuel, or was aborted by a host call.
    GuestTrap,
    /// The instance is poisoned or past the phase, and may not run this
    /// entry point.
    InvalidPhase,
}

/// Which entry points the guest module exports.
#[derive(Clone, Copy, Debug, PartialEq, Eq, Structural)]
pub struct GuestExports {
    /// The mandatory initialization entry point.
    pub start: bool,
    /// The request phase entry point.
    pub request: bool,
    /// The request-decision phase entry point.
    pub request_decision: bool,
    /// The response-decision phase entry point.
    pub response_decision: bool,
    /// The feedback phase entry point.
    pub decision_feedback: bool,
}

/// One live sandbox bound to one request.
#[derive(Debug)]
pub struct PluginInstance {
    /// The plugin this instance runs.
    pub plugin: Plugin,
    /// The entry points the guest module exports.
    pub exports: GuestExports,
    /// Where the instance stands in its lifecycle.
    pub phase: Phase,
    /// Whether a guest failure has poisoned the instance.
    pub poisoned: bool,
    /// The per-request state the instance's host calls act on.
    pub context: RequestContext,
}

/// The instance's identity and context are as they were; only the
/// lifecycle fields may have moved.
pub open spec fn frame_except_lifecycle(pre: PluginInstance, post: PluginInstance) -> bool {
    &&& post.plugin == pre.plugin
    &&& post.exports == pre.exports
    &&& post.context == pre.context
}

/// Everything but the router-written slots is as it was.
pub open spec fn frame_except_slots(pre: PluginInstance, post: PluginInstance) -> bool {
    &&& post.plugin == pre.plugin
    &&& post.exports == pre.exports
    &&& post.phase == pre.phase
    &&& post.poisoned == pre.poisoned
    &&& crate::context::frame_except_host_mutable(pre.context, post.context)
}

/// What one lifecycle transition means: from a started, unpoisoned state
/// strictly before the target, a missing entry point or a trap poisons
/// the instance, and a completed run advances it to the target.  Any
/// other state refuses the transition and changes nothing.
pub open spec fn transition_step(
    pre: PluginInstance,
    post: PluginInstance,
    eligible: bool,
    exported: bool,
    trapped: bool,
    target: Phase,
    r: Result<(), PluginExecutionError>,
) -> bool {
    &&& frame_except_lifecycle(pre, post)
    &&& (!eligible ==> r == Result::<(), PluginExecutionError>::Err(
        PluginExecutionError::InvalidPhase,
    ) && post == pre)
    &&& (eligible && !exported ==> r == Result::<(), PluginExecutionError>::Err(
        PluginExecutionError::NotImplemented,
    ) && post.poisoned && post.phase == pre.phase)
    &&& (eligible && exported && trapped ==> r == Result::<(), PluginExecutionError>::Err(
        PluginExecutionError::GuestTrap,
    ) && post.poisoned && post.phase == pre.phase)
    &&& (eligible && exported && !trapped ==> r is Ok && post.phase == target && post.poisoned
        == pre.poisoned)
}

/// A poisoned instance never advances: any transition committed on it is
/// refused and leaves it exactly as it was.
pub proof fn lemma_poisoned_never_advances(
    pre: PluginInstance,
    post: PluginInstance,
    exported: bool,
    trapped: bool,
    target: Phase,
    r: Result<(), PluginExecutionError>,
)
    requires
        pre.poisoned,
        transition_step(
            pre,
            post,
            pre.may_run(target) || (!pre.poisoned && pre.phase == Phase::Created),
            exported,
            trapped,
            target,
            r,
        ),
    ensures
        post == pre,
        r == Result::<(), PluginExecutionError>::Err(PluginExecutionError::InvalidPhase),
{
}

impl PluginInstance {
    /// The instance is well formed when its context is.
    pub open spec fn wf(self) -> bool {
        self.context.wf()
    }

    /// An instance may run an optional phase entry point when it is not
    /// poisoned, has started, and has not yet reached that phase.
    pub open spec fn may_run(self, target: Phase) -> bool {
        !self.poisoned && 1 <= phase_index(self.phase) < phase_index(target)
    }

    /// Binds a plugin, the entry points its module exports, and a fresh
    /// request context into an instance at the start of its lifecycle.
    pub fn new(plugin: Plugin, exports: GuestExports, request_context: RequestContext) -> (r:
        PluginInstance)
        requires
            request_context.wf(),
        ensures
            r.wf(),
            r.phase == Phase::Created,
            !r.poisoned,
            r.plugin == plugin,
            r.exports == exports,
            r.context == request_context,
    {
        PluginInstance { plugin, exports, phase: Phase::Created, poisoned: false, context: request_context }
    }

    /// The plugin's configured decision weight, for the evidence algebra.
    pub fn weight(&self) -> (r: u64)
        ensures
            r == self.plugin.weight,
    {
        self.plugin.weight
    }

    /// The plugin's reference name.
    pub fn plugin_reference(&self) -> (r: String)
        ensures
            r@ == self.plugin.reference@,
    {
        String::from_str(self.plugin.reference.as_str())
    }

    /// Records the interior service's response for the guest to read from
    /// the response phase on.
    pub fn record_response(&mut self, response: ResponseInterface)
        requires
            old(self).wf(),
        ensures
            final(self).wf(),
            frame_except_slots(*old(self), *final(self)),
            final(self).context.host_mutable.response == Some(response),
            final(self).context.host_mutable.combined_decision == old(
                self,
            ).context.host_mutable.combined_decision,
            final(self).context.host_mutable.combined_tags == old(
                self,
            ).context.host_mutable.combined_tags,
            final(self).context.host_mutable.outcome == old(self).context.host_mutable.outcome,
    {
        self.context.host_mutable.response = Some(response);
    }

    /// Records the combined decision, its tags, and the outcome derived
    /// from it, for the guest to read from the feedback phase on.
    pub fn record_combined_decision(
        &mut self,
        decision_components: DecisionComponents,
        outcome: OutcomeInterface,
    )
        requires
            old(self).wf(),
        ensures
            final(self).wf(),
            frame_except_slots(*old(self), *final(self)),
            final(self).context.host_mutable.combined_decision == Some(
                decision_components.decision,
            ),
            final(self).context.host_mutable.combined_tags == Some(decision_components.tags),
            final(self).context.host_mutable.outcome == Some(outcome),
            final(self).context.host_mutable.response == old(self).context.host_mutable.response,
    {
        self.context.host_mutable.combined_decision = Some(decision_components.decision);
        self.context.host_mutable.combined_tags = Some(decision_components.tags);
        self.context.host_mutable.outcome = Some(outcome);
    }

    /// Answers whether the guest exports the request phase entry point.
    pub fn has_request_handler(&self) -> (r: bool)
        ensures
            r == self.exports.request,
    {
        self.exports.request
    }

    /// Answers whether the guest exports the request-decision entry point.
    pub fn has_request_decision_handler(&self) -> (r: bool)
        ensures
            r == self.exports.request_decision,
    {
        self.exports.request_decision
    }

    /// Answers whether the guest exports the response-decision entry
    /// point.
    pub fn has_response_decision_handler(&self) -> (r: bool)
        ensures
            r == self.exports.response_decision,
    {
        self.exports.response_decision
    }

    /// Answers whether the guest exports the feedback entry point.
    pub fn has_decision_feedback_handler(&self) -> (r: bool)
        ensures
            r == self.exports.decision_feedback,
    {
        self.exports.decision_feedback
    }

    /// Commits the mandatory initialization run.  The runtime reports
    /// whether the guest trapped; a fresh, unpoisoned instance whose run
    /// completed moves to the started phase.
    pub fn start(&mut self, trapped: bool) -> (r: Result<(), PluginExecutionError>)
        requires
            old(self).wf(),
        ensures
            final(self).wf(),
            transition_step(
                *old(self),
                *final(self),
                !old(self).poisoned && old(self).phase == Phase::Created,
                old(self).exports.start,
                trapped,
                Phase::Started,
                r,
            ),
    {
        if self.poisoned || !matches!(self.phase, Phase::Created) {
            return Err(PluginExecutionError::InvalidPhase);
        }
        if !self.exports.start {
            self.poisoned = true;
            return Err(PluginExecutionError::NotImplemented);
        }
        if trapped {
            self.poisoned = true;
            return Err(PluginExecutionError::GuestTrap);
        }
        self.phase = Phase::Started;
        Ok(())
    }

    /// Commits a run of the request phase entry point.
    pub fn handle_request(&mut self, trapped: bool) -> (r: Result<(), PluginExecutionError>)
        requires
            old(self).wf(),
        ensures
            final(self).wf(),
            transition_step(
                *old(self),
                *final(self),
                old(self).may_run(Phase::Requested),
                old(self).exports.request,
                trapped,
                Phase::Requested,
                r,
            ),
    {
        let eligible = !self.poisoned && matches!(self.phase, Phase::Started);
        self.advance(eligible, self.exports.request, trapped, Phase::Requested)
    }

    /// Commits a run of the request-decision phase entry point.
    pub fn handle_request_decision(&mut self, trapped: bool) -> (r: Result<
        (),
        PluginExecutionError,
    >)
        requires
            old(self).wf(),
        ensures
            final(self).wf(),
            transition_step(
                *old(self),
                *final(self),
                old(self).may_run(Phase::RequestDecided),
                old(self).exports.request_decision,
                trapped,
                Phase::RequestDecided,
                r,
            ),
    {
        let eligible = !self.poisoned && (matches!(self.phase, Phase::Started) || matches!(
            self.phase,
            Phase::Requested,
        ));
        self.advance(eligible, self.exports.request_decision, trapped, Phase::RequestDecided)
    }

    /// Commits a run of the response-decision phase entry point.
    pub fn handle_response_decision(&mut self, trapped: bool) -> (r: Result<
        (),
        PluginExecutionError,
    >)
        requires
            old(self).wf(),
        ensures
            final(self).wf(),
            transition_step(
                *old(self),
                *final(self),
                old(self).may_run(Phase::ResponseDecided),
                old(self).exports.response_decision,
                trapped,
                Phase::ResponseDecided,
                r,
            ),
    {
        let eligible = !self.poisoned && (matches!(self.phase, Phase::Started) || matches!(
            self.phase,
            Phase::Requested,
        ) || matches!(self.phase, Phase::RequestDecided));
        self.advance(eligible, self.exports.response_decision, trapped, Phase::ResponseDecided)
    }

    /// Commits a run of the feedback phase entry point.
    pub fn handle_decision_feedback(&mut self, trapped: bool) -> (r: Result<
        (),
        PluginExecutionError,
    >)
        requires
            old(self).wf(),
        ensures
            final(self).wf(),
            transition_step(
                *old(self),
                *final(self),
                old(self).may_run(Phase::Finalized),
                old(self).exports.decision_feedback,
                trapped,
                Phase::Finalized,
                r,
            ),
    {
        let eligible = !self.poisoned && !matches!(self.phase, Phase::Created) && !matches!(
            self.phase,
            Phase::Finalized,
        );
        self.advance(eligible, self.exports.decision_feedback, trapped, Phase::Finalized)
    }

    /// The shared transition: refuse, poison, or advance.
    fn advance(&mut self, eligible: bool, exported: bool, trapped: bool, target: Phase) -> (r:
        Result<(), PluginExecutionError>)
        requires
            old(self).wf(),
        ensures
            final(self).wf(),
            transition_step(*old(self), *final(self), eligible, exported, trapped, target, r),
    {
        if !eligible {
            return Err(PluginExecutionError::InvalidPhase);
        }
        if !exported {
            self.poisoned = true;
            return Err(PluginExecutionError::NotImplemented);
        }
        if trapped {
            self.poisoned = true;
            return Err(PluginExecutionError::GuestTrap);
        }
        self.phase = target;
        Ok(())
    }

    /// Snapshots the instance's decision components: the accumulators and
    /// tags its guest has set so far, which is the committed-to-nothing
    /// distribution and no tags for a guest that never set them.
    pub fn decision(&self) -> (r: DecisionComponents)
        ensures
            r.decision == self.context.decision,
            string_views(r.tags@) == string_views(self.context.tags@),
    {
        DecisionComponents {
            decision: self.context.decision,
            tags: copy_strings(&self.context.tags),
        }
    }
}

} // verus!
