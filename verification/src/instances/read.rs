//! Reading one instance, or its live statistics: the decisions between the
//! outside steps.
use vstd::prelude::*;

use crate::auth::permissions::{
    check_access, grants, no_such_instance, role_forbids, role_named, role_permissions,
    Permission, Role,
};
use crate::instances::{
    failure_entry, failure_severity, info, operation_error, ErrorKind, InstanceError,
};
use crate::logging::{
    appends, failure_message, lemma_appends_one, lemma_appends_push,
    request_message, Logger, OperationLog, Severity,
};
use crate::model::{Instance, InstanceView};

verus! {

/// What is read.
#[derive(Clone, Copy, Debug)]
pub enum ReadKind {
    /// The stored instance with the caller's role and permissions.
    Instance,
    /// The live statistics of the domain.
    Status,
}

/// Where a read stands.
#[derive(Clone, Copy, Debug)]
pub enum ReadStage {
    LookingUp,
    CheckingAccess,
    ReadingStatus,
    Finished,
}

/// The outcome of the last action.
pub enum ReadEvent {
    /// The stored instance with the requested ID, if any, or why the database
    /// could not be read.
    Record(Result<Option<Instance>, String>),
    /// The caller's stored role on the instance, or why it could not be read.
    Access(Result<Option<String>, String>),
    /// The statistics were read, or why they could not be.
    Done(Result<(), String>),
}

/// What the caller does next.
pub enum ReadAction {
    /// Read the stored instance with this ID.
    LookUp { id: String },
    /// Read the caller's role on the instance.
    CheckAccess { id: String },
    /// Read the live statistics of the domain with this UUID.
    ReadStatus { id: String },
    /// The read is over: the instance as the caller sees it, or the error. For
    /// a status read the caller answers with the statistics it read.
    Finish(Result<InstanceView, InstanceError>),
}

/// The event that a read at `stage` waits for.
pub open spec fn awaits(stage: ReadStage, event: ReadEvent) -> bool {
    match stage {
        ReadStage::LookingUp => event is Record,
        ReadStage::CheckingAccess => event is Access,
        ReadStage::ReadingStatus => event is Done,
        ReadStage::Finished => false,
    }
}

/// The name a read is logged under.
pub open spec fn read_name(kind: ReadKind) -> Seq<char> {
    match kind {
        ReadKind::Instance => "get"@,
        ReadKind::Status => "status"@,
    }
}

/// The action ends the read with an error of `kind` and `message`.
pub open spec fn fails_with(action: ReadAction, kind: ErrorKind, message: Seq<char>) -> bool {
    action matches ReadAction::Finish(Err(e)) && e.kind == kind && e.message@ == message
}

/// The error that an access check answers with `role_name` for viewing, if any.
pub open spec fn view_refused(role_name: Option<String>) -> Option<(ErrorKind, Seq<char>)> {
    match role_name {
        Some(name) => match role_named(name@) {
            Some(role) => if grants(role_permissions(role), Permission::View) {
                None
            } else {
                Some((ErrorKind::Forbidden, role_forbids()))
            },
            None => Some((ErrorKind::NotFound, no_such_instance())),
        },
        None => Some((ErrorKind::NotFound, no_such_instance())),
    }
}

/// The state of one read.
pub struct ReadWorkflow {
    stage: ReadStage,
    kind: ReadKind,
    log: OperationLog,
    id: String,
    record: Option<Instance>,
    role: Option<Role>,
}

impl ReadWorkflow {
    /// The outcome the read waits for.
    pub closed spec fn stage(&self) -> ReadStage {
        self.stage
    }

    /// What is read.
    pub closed spec fn kind(&self) -> ReadKind {
        self.kind
    }

    /// The step that failure messages name.
    pub closed spec fn step(&self) -> Seq<char> {
        self.log.current_step()
    }

    /// The requested instance ID.
    pub closed spec fn instance_id(&self) -> Seq<char> {
        self.id@
    }

    /// The stored instance, once read.
    pub closed spec fn record(&self) -> Option<Instance> {
        self.record
    }

    /// The caller's role, once checked.
    pub closed spec fn role(&self) -> Option<Role> {
        self.role
    }

    /// The instance is known once its access is checked, and the role once
    /// the statistics are read.
    pub closed spec fn well_formed(&self) -> bool {
        &&& (self.stage is CheckingAccess || self.stage is ReadingStatus) ==> self.record is Some
        &&& self.stage is ReadingStatus ==> self.role is Some
    }

    /// Starts reading the instance with UUID `id`: the request is logged and
    /// the instance is looked up.
    pub fn start(logger: &mut Logger, kind: ReadKind, id: &str) -> (r: (ReadWorkflow, ReadAction))
        ensures
            r.0.well_formed(),
            r.0.stage() == ReadStage::LookingUp,
            r.0.kind() == kind,
            r.0.step() == "Looking up instance in database"@,
            r.0.instance_id() == id@,
            r.1 matches ReadAction::LookUp { id: i } && i@ == id@,
            appends(
                old(logger)@,
                final(logger)@,
                seq![
                    info(request_message(read_name(kind), Some(id@))),
                    info("Looking up instance in database"@),
                ],
            ),
    {
        let ghost l0 = logger@;
        let name = match kind {
            ReadKind::Instance => "get",
            ReadKind::Status => "status",
        };
        let mut log = OperationLog::new(logger, name, Some(id));
        let ghost l1 = logger@;
        proof {
            lemma_appends_one(l0, l1, Severity::Info, request_message(name@, Some(id@)));
        }
        log.step(logger, "Looking up instance in database");
        proof {
            lemma_appends_push(
                l0,
                l1,
                logger@,
                seq![info(request_message(name@, Some(id@)))],
                Severity::Info,
                "Looking up instance in database"@,
            );
            assert(seq![info(request_message(name@, Some(id@)))].push(
                info("Looking up instance in database"@),
            ) =~= seq![
                info(request_message(name@, Some(id@))),
                info("Looking up instance in database"@),
            ]);
        }
        let workflow = ReadWorkflow {
            stage: ReadStage::LookingUp,
            kind,
            log,
            id: String::from_str(id),
            record: None,
            role: None,
        };
        (workflow, ReadAction::LookUp { id: String::from_str(id) })
    }

    /// Ends the read with an error, logged as the failure of the current step.
    fn fail(&mut self, logger: &mut Logger, kind: ErrorKind, message: &str) -> (r: ReadAction)
        ensures
            final(self).stage() == ReadStage::Finished,
            final(self).kind() == old(self).kind(),
            final(self).instance_id() == old(self).instance_id(),
            fails_with(r, kind, message@),
            appends(
                old(logger)@,
                final(logger)@,
                seq![failure_entry(old(self).step(), kind, message@)],
            ),
    {
        let ghost l0 = logger@;
        let error = operation_error(&self.log, logger, kind, message);
        proof {
            lemma_appends_one(
                l0,
                logger@,
                failure_severity(kind),
                failure_message(self.step(), message@),
            );
        }
        self.stage = ReadStage::Finished;
        ReadAction::Finish(Err(error))
    }

    /// Decides what follows `event`, the outcome of the last action. Failures
    /// of a status read's access check are answered without being logged.
    pub fn advance(&mut self, logger: &mut Logger, event: ReadEvent) -> (r: ReadAction)
        requires
            old(self).well_formed(),
            awaits(old(self).stage(), event),
        ensures
            final(self).well_formed(),
            final(self).kind() == old(self).kind(),
            final(self).instance_id() == old(self).instance_id(),
            ({
                let o = *old(self);
                let f = *final(self);
                let before = old(logger)@;
                let after = final(logger)@;
                let logged_failure = |kind: ErrorKind, message: Seq<char>|
                    {
                        &&& f.stage() == ReadStage::Finished
                        &&& fails_with(r, kind, message)
                        &&& appends(before, after, seq![failure_entry(o.step(), kind, message)])
                    };
                let silent_failure = |kind: ErrorKind, message: Seq<char>|
                    {
                        &&& f.stage() == ReadStage::Finished
                        &&& fails_with(r, kind, message)
                        &&& after == before
                    };
                let instance_kind = o.kind() is Instance;
                match event {
                    ReadEvent::Record(Err(e)) => logged_failure(ErrorKind::Internal, e@),
                    ReadEvent::Record(Ok(None)) => logged_failure(
                        ErrorKind::NotFound,
                        "No such instance"@,
                    ),
                    ReadEvent::Record(Ok(Some(instance))) => {
                        &&& f.stage() == ReadStage::CheckingAccess
                        &&& f.record() == Some(instance)
                        &&& r matches ReadAction::CheckAccess { id } && id@ == o.instance_id()
                        &&& if instance_kind {
                            &&& f.step() == "Checking instance access"@
                            &&& appends(before, after, seq![info("Checking instance access"@)])
                        } else {
                            &&& f.step() == o.step()
                            &&& after == before
                        }
                    },
                    ReadEvent::Access(Err(_)) => if instance_kind {
                        logged_failure(ErrorKind::Internal, "Could not check instance access"@)
                    } else {
                        silent_failure(ErrorKind::Internal, "Could not check instance access"@)
                    },
                    ReadEvent::Access(Ok(role_name)) => match view_refused(role_name) {
                        Some((kind, message)) => if instance_kind {
                            logged_failure(kind, message)
                        } else {
                            silent_failure(kind, message)
                        },
                        None => {
                            let role = role_named(role_name->0@)->0;
                            if instance_kind {
                                &&& f.stage() == ReadStage::Finished
                                &&& appends(
                                    before,
                                    after,
                                    seq![info("Completed: returning instance data"@)],
                                )
                                &&& r matches ReadAction::Finish(Ok(view)) && {
                                    &&& Some(view.instance) == o.record()
                                    &&& view.role == role
                                    &&& view.permissions == role_permissions(role)
                                }
                            } else {
                                &&& f.stage() == ReadStage::ReadingStatus
                                &&& f.step() == "Reading live instance statistics"@
                                &&& f.record() == o.record()
                                &&& f.role() == Some(role)
                                &&& appends(
                                    before,
                                    after,
                                    seq![info("Reading live instance statistics"@)],
                                )
                                &&& r matches ReadAction::ReadStatus { id } && id@
                                    == o.instance_id()
                            }
                        },
                    },
                    ReadEvent::Done(Err(e)) => logged_failure(ErrorKind::Internal, e@),
                    ReadEvent::Done(Ok(())) => {
                        &&& f.stage() == ReadStage::Finished
                        &&& appends(
                            before,
                            after,
                            seq![info("Completed: returning live instance statistics"@)],
                        )
                        &&& r matches ReadAction::Finish(Ok(view)) && {
                            &&& Some(view.instance) == o.record()
                            &&& Some(view.role) == o.role()
                            &&& view.permissions == role_permissions(view.role)
                        }
                    },
                }
            }),
    {
        let ghost l0 = logger@;
        match event {
            ReadEvent::Record(Err(e)) => self.fail(logger, ErrorKind::Internal, e.as_str()),
            ReadEvent::Record(Ok(None)) => self.fail(logger, ErrorKind::NotFound, "No such instance"),
            ReadEvent::Record(Ok(Some(instance))) => {
                self.record = Some(instance);
                self.stage = ReadStage::CheckingAccess;
                if matches!(self.kind, ReadKind::Instance) {
                    self.log.step(logger, "Checking instance access");
                    proof {
                        lemma_appends_one(l0, logger@, Severity::Info, "Checking instance access"@);
                    }
                }
                ReadAction::CheckAccess { id: self.id.clone() }
            },
            ReadEvent::Access(Err(_)) => {
                if matches!(self.kind, ReadKind::Instance) {
                    self.fail(logger, ErrorKind::Internal, "Could not check instance access")
                } else {
                    self.stage = ReadStage::Finished;
                    ReadAction::Finish(
                        Err(
                            InstanceError {
                                kind: ErrorKind::Internal,
                                message: String::from_str("Could not check instance access"),
                            },
                        ),
                    )
                }
            },
            ReadEvent::Access(Ok(role_name)) => {
                let checked = match &role_name {
                    Some(name) => check_access(Some(name.as_str()), Permission::View),
                    None => check_access(None, Permission::View),
                };
                match checked {
                    Err(e) => {
                        if matches!(self.kind, ReadKind::Instance) {
                            self.fail(logger, e.kind, e.message.as_str())
                        } else {
                            self.stage = ReadStage::Finished;
                            ReadAction::Finish(Err(e))
                        }
                    },
                    Ok(role) => {
                        if matches!(self.kind, ReadKind::Instance) {
                            self.log.info(logger, "Completed: returning instance data");
                            proof {
                                lemma_appends_one(
                                    l0,
                                    logger@,
                                    Severity::Info,
                                    "Completed: returning instance data"@,
                                );
                            }
                            self.stage = ReadStage::Finished;
                            let instance = self.record.take().unwrap();
                            ReadAction::Finish(
                                Ok(InstanceView { instance, role, permissions: role.permissions() }),
                            )
                        } else {
                            self.log.step(logger, "Reading live instance statistics");
                            proof {
                                lemma_appends_one(
                                    l0,
                                    logger@,
                                    Severity::Info,
                                    "Reading live instance statistics"@,
                                );
                            }
                            self.role = Some(role);
                            self.stage = ReadStage::ReadingStatus;
                            ReadAction::ReadStatus { id: self.id.clone() }
                        }
                    },
                }
            },
            ReadEvent::Done(Err(e)) => self.fail(logger, ErrorKind::Internal, e.as_str()),
            ReadEvent::Done(Ok(())) => {
                self.log.info(logger, "Completed: returning live instance statistics");
                proof {
                    lemma_appends_one(
                        l0,
                        logger@,
                        Severity::Info,
                        "Completed: returning live instance statistics"@,
                    );
                }
                self.stage = ReadStage::Finished;
                let instance = self.record.take().unwrap();
                let role = self.role.unwrap();
                ReadAction::Finish(
                    Ok(InstanceView { instance, role, permissions: role.permissions() }),
                )
            },
        }
    }
}

} // verus!
