//! Listing the caller's instances: their IDs, or their summaries with the
//! power state of each domain.
use vstd::prelude::*;

use crate::instances::{
    failure_entry, failure_severity, info, operation_error, ErrorKind, InstanceError,
};
use crate::logging::{
    appends, failure_message, lemma_appends_one, lemma_appends_push, request_message, Logger,
    OperationLog, Severity,
};
use crate::text::{append_u64_text, nat_text};

verus! {

/// Where a listing stands.
#[derive(Clone, Copy, Debug)]
pub enum ListStage {
    /// Waiting for the stored instances.
    ReadingRecords,
    /// Waiting for the power states (summaries only).
    ReadingStates,
    Finished,
}

/// The message that ends a listing of `count` IDs or summaries.
pub open spec fn completed_message(count: nat, summaries: bool) -> Seq<char> {
    "Completed: returning "@ + nat_text(count) + if summaries {
        " instance summaries"@
    } else {
        " instance IDs"@
    }
}

/// The warning logged when the power state of instance `id` could not be read.
pub open spec fn state_warning(id: Seq<char>, error: Seq<char>) -> Seq<char> {
    "Could not read power state for "@ + id + ": "@ + error
}

/// The step at which the stored instances are read.
pub open spec fn records_step(summaries: bool) -> Seq<char> {
    if summaries {
        "Reading instance summaries from database"@
    } else {
        "Reading instance IDs from database"@
    }
}

/// The state of one listing.
pub struct ListWorkflow {
    stage: ListStage,
    summaries: bool,
    log: OperationLog,
}

impl ListWorkflow {
    /// Where the listing stands.
    pub closed spec fn stage(&self) -> ListStage {
        self.stage
    }

    /// Whether summaries (rather than IDs) are listed.
    pub closed spec fn summaries(&self) -> bool {
        self.summaries
    }

    /// The step that failure messages name.
    pub closed spec fn step(&self) -> Seq<char> {
        self.log.current_step()
    }

    /// Starts a listing: the request is logged and the stored instances are read.
    pub fn start(logger: &mut Logger, summaries: bool) -> (r: ListWorkflow)
        ensures
            r.stage() == ListStage::ReadingRecords,
            r.summaries() == summaries,
            r.step() == records_step(summaries),
            appends(
                old(logger)@,
                final(logger)@,
                seq![info(request_message("list"@, None)), info(records_step(summaries))],
            ),
    {
        let ghost l0 = logger@;
        let mut log = OperationLog::new(logger, "list", None);
        let ghost l1 = logger@;
        proof {
            lemma_appends_one(l0, l1, Severity::Info, request_message("list"@, None));
        }
        let step = if summaries {
            "Reading instance summaries from database"
        } else {
            "Reading instance IDs from database"
        };
        log.step(logger, step);
        proof {
            lemma_appends_push(l0, l1, logger@, seq![info(request_message("list"@, None))], Severity::Info, step@);
            assert(seq![info(request_message("list"@, None))].push(info(step@)) =~= seq![
                info(request_message("list"@, None)),
                info(records_step(summaries)),
            ]);
        }
        ListWorkflow { stage: ListStage::ReadingRecords, summaries, log }
    }

    /// Ends the listing with an internal error, logged as the failure of the
    /// current step.
    fn fail(&mut self, logger: &mut Logger, message: &str) -> (r: InstanceError)
        ensures
            final(self).stage() == ListStage::Finished,
            final(self).summaries() == old(self).summaries(),
            r.kind == ErrorKind::Internal,
            r.message@ == message@,
            appends(
                old(logger)@,
                final(logger)@,
                seq![failure_entry(old(self).step(), ErrorKind::Internal, message@)],
            ),
    {
        let ghost l0 = logger@;
        let error = operation_error(&self.log, logger, ErrorKind::Internal, message);
        proof {
            lemma_appends_one(
                l0,
                logger@,
                failure_severity(ErrorKind::Internal),
                failure_message(self.step(), message@),
            );
        }
        self.stage = ListStage::Finished;
        error
    }

    /// Logs the completion of a listing of `count` entries.
    fn complete(&mut self, logger: &mut Logger, count: usize)
        ensures
            final(self).stage() == ListStage::Finished,
            final(self).summaries() == old(self).summaries(),
            appends(
                old(logger)@,
                final(logger)@,
                seq![info(completed_message(count as nat, old(self).summaries()))],
            ),
    {
        let ghost l0 = logger@;
        let mut message = String::from_str("Completed: returning ");
        append_u64_text(&mut message, count as u64);
        if self.summaries {
            message.append(" instance summaries");
        } else {
            message.append(" instance IDs");
        }
        self.log.info(logger, message.as_str());
        proof {
            lemma_appends_one(l0, logger@, Severity::Info, message@);
        }
        self.stage = ListStage::Finished;
    }

    /// The stored instances were read: `count` of them, or the reason they
    /// could not be. IDs are then returned; for summaries the power states
    /// are read next.
    pub fn records_read(&mut self, logger: &mut Logger, outcome: Result<usize, String>) -> (r: Result<
        (),
        InstanceError,
    >)
        requires
            old(self).stage() == ListStage::ReadingRecords,
        ensures
            final(self).summaries() == old(self).summaries(),
            match outcome {
                Err(e) => {
                    &&& final(self).stage() == ListStage::Finished
                    &&& r matches Err(error) && error.kind == ErrorKind::Internal && error.message@
                        == e@
                    &&& appends(
                        old(logger)@,
                        final(logger)@,
                        seq![failure_entry(old(self).step(), ErrorKind::Internal, e@)],
                    )
                },
                Ok(count) => {
                    &&& r is Ok
                    &&& if old(self).summaries() {
                        &&& final(self).stage() == ListStage::ReadingStates
                        &&& final(self).step() == "Reading instance power states"@
                        &&& appends(
                            old(logger)@,
                            final(logger)@,
                            seq![info("Reading instance power states"@)],
                        )
                    } else {
                        &&& final(self).stage() == ListStage::Finished
                        &&& appends(
                            old(logger)@,
                            final(logger)@,
                            seq![info(completed_message(count as nat, false))],
                        )
                    }
                },
            },
    {
        match outcome {
            Err(e) => Err(self.fail(logger, e.as_str())),
            Ok(count) => {
                if self.summaries {
                    let ghost l0 = logger@;
                    self.log.step(logger, "Reading instance power states");
                    proof {
                        lemma_appends_one(l0, logger@, Severity::Info, "Reading instance power states"@);
                    }
                    self.stage = ListStage::ReadingStates;
                } else {
                    self.complete(logger, count);
                }
                Ok(())
            },
        }
    }

    /// The power state shown for instance `id`: the state read, or
    /// `unavailable` with a warning when it could not be read.
    pub fn power_state(&self, logger: &mut Logger, id: &str, read: Result<String, String>) -> (r:
        String)
        ensures
            match read {
                Ok(state) => r@ == state@ && final(logger)@ == old(logger)@,
                Err(e) => r@ == "unavailable"@ && appends(
                    old(logger)@,
                    final(logger)@,
                    seq![(Severity::Warning, state_warning(id@, e@))],
                ),
            },
    {
        match read {
            Ok(state) => state,
            Err(e) => {
                let ghost l0 = logger@;
                let mut message = String::from_str("Could not read power state for ");
                message.append(id);
                message.append(": ");
                message.append(e.as_str());
                self.log.message(logger, Severity::Warning, message.as_str());
                proof {
                    lemma_appends_one(l0, logger@, Severity::Warning, message@);
                }
                String::from_str("unavailable")
            },
        }
    }

    /// The power states were read for `count` summaries, or the task that read
    /// them failed.
    pub fn states_read(&mut self, logger: &mut Logger, outcome: Result<usize, String>) -> (r: Result<
        (),
        InstanceError,
    >)
        requires
            old(self).stage() == ListStage::ReadingStates,
        ensures
            final(self).stage() == ListStage::Finished,
            match outcome {
                Err(e) => {
                    &&& r matches Err(error) && error.kind == ErrorKind::Internal && error.message@
                        == e@
                    &&& appends(
                        old(logger)@,
                        final(logger)@,
                        seq![failure_entry(old(self).step(), ErrorKind::Internal, e@)],
                    )
                },
                Ok(count) => {
                    &&& r is Ok
                    &&& appends(
                        old(logger)@,
                        final(logger)@,
                        seq![info(completed_message(count as nat, old(self).summaries()))],
                    )
                },
            },
    {
        match outcome {
            Err(e) => Err(self.fail(logger, e.as_str())),
            Ok(count) => {
                self.complete(logger, count);
                Ok(())
            },
        }
    }
}

} // verus!
