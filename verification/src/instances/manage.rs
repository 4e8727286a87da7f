//! Deleting, starting, stopping and exporting an existing instance: the
//! decisions between the outside steps.
//!
//! Each operation looks the instance up, takes the lock of its hostname, looks
//! it up again (a concurrent delete may have finished meanwhile), checks the
//! caller's role and then works on the domain and the files. The caller
//! performs each action and hands the outcome back as the next event.
use vstd::prelude::*;

use crate::auth::permissions::{check_access, grants, no_such_instance, role_named, role_permissions, Permission};
use crate::instances::{
    failure_entry, failure_severity, info, operation_error, ErrorKind, InstanceError,
    BUSY_MESSAGE,
};
use crate::logging::{
    appends, failure_message, lemma_appends_one, lemma_appends_push, lemma_appends_then,
    request_message, Logger, OperationLog, Severity,
};
use crate::model::Instance;
use crate::paths::{is_single_file_name, InstancePaths, StoragePaths};

verus! {

/// What is done to the instance.
#[derive(Clone, Copy, Debug)]
pub enum Operation {
    /// Undefine the domain and remove the disk, the seed ISO and the record.
    Delete,
    /// Boot the domain.
    Start,
    /// Ask the guest to shut down.
    Stop,
    /// Power the domain off at once.
    Destroy,
    /// Export the disk of a shut-down instance as one standalone image.
    DownloadDisk,
}

/// The name an operation is logged under.
pub open spec fn operation_name(operation: Operation) -> Seq<char> {
    match operation {
        Operation::Delete => "delete"@,
        Operation::Start => "start"@,
        Operation::Stop => "stop"@,
        Operation::Destroy => "stop"@,
        Operation::DownloadDisk => "download disk"@,
    }
}

/// The permission an operation needs.
pub open spec fn required_permission(operation: Operation) -> Permission {
    match operation {
        Operation::Delete => Permission::Delete,
        Operation::DownloadDisk => Permission::Download,
        _ => Permission::Control,
    }
}

/// Where an operation stands: the outcome it waits for, or finished.
#[derive(Clone, Copy, Debug)]
pub enum ManageStage {
    LookingUp,
    Locking,
    LookingUpAgain,
    CheckingAccess,
    CheckingFiles,
    FindingDomain,
    CheckingActive,
    Undefining,
    RecheckingFiles,
    RemovingSeedIso,
    RemovingDisk,
    DeletingRecord,
    Switching,
    Exporting,
    Finished,
}

/// What looking up the libvirt domain found.
pub enum DomainLookup {
    Found,
    /// Libvirt has no such domain; the text is its error.
    Absent(String),
    /// The lookup failed otherwise.
    Failed(String),
}

/// What removing one file did.
#[derive(Clone, Copy, Debug)]
pub enum Removal {
    Removed,
    /// The file was already gone.
    Absent,
    Failed,
}

/// The outcome of the last action.
pub enum ManageEvent {
    /// The stored instance with the requested ID, if any, or why the database
    /// could not be read.
    Record(Result<Option<Instance>, String>),
    /// Whether the hostname lock was free.
    Lock(bool),
    /// The caller's stored role on the instance (`None` when neither owner
    /// nor member), or why it could not be read.
    Access(Result<Option<String>, String>),
    Domain(DomainLookup),
    /// Whether the domain is running, or why that could not be found out.
    Active(Result<bool, String>),
    Removed(Removal),
    /// The last outside step succeeded, or why it failed.
    Done(Result<(), String>),
}

/// What the caller does next.
pub enum ManageAction {
    /// Read the stored instance with this ID.
    LookUp { id: String },
    /// Take the lock of the hostname and hold it until the operation finishes.
    AcquireLock { hostname: String },
    /// Read the caller's role on the instance.
    CheckAccess { id: String },
    /// Check that the disk and the seed ISO are regular files or absent.
    CheckFiles { disk: String, seed_iso: String },
    /// Look up the libvirt domain with this UUID.
    LookUpDomain { id: String },
    /// Find out whether the domain is running.
    CheckActive,
    /// Undefine the domain.
    Undefine,
    /// Remove one file; a missing file is no error.
    RemoveFile { path: String },
    /// Delete the stored instance.
    DeleteRecord { id: String },
    /// Forget the cached statistics of the instance, then boot the domain.
    StartDomain { id: String },
    /// Ask the guest to shut down.
    StopDomain,
    /// Power the domain off.
    DestroyDomain,
    /// Export the disk into a private workspace, logging the export's steps
    /// through the workflow.
    ExportDisk { paths: InstancePaths },
    /// The operation is over. After a successful delete, the cached statistics
    /// of the instance are forgotten.
    Finish(Result<(), InstanceError>),
}

/// The event that the workflow at `stage` waits for.
pub open spec fn awaits(stage: ManageStage, event: ManageEvent) -> bool {
    match stage {
        ManageStage::LookingUp | ManageStage::LookingUpAgain => event is Record,
        ManageStage::Locking => event is Lock,
        ManageStage::CheckingAccess => event is Access,
        ManageStage::FindingDomain => event is Domain,
        ManageStage::CheckingActive => event is Active,
        ManageStage::RemovingSeedIso | ManageStage::RemovingDisk => event is Removed,
        ManageStage::Finished => false,
        _ => event is Done,
    }
}

/// The action ends the operation with an error of `kind` and `message`.
pub open spec fn fails_with(action: ManageAction, kind: ErrorKind, message: Seq<char>) -> bool {
    action matches ManageAction::Finish(Err(e)) && e.kind == kind && e.message@ == message
}

/// The workflow finished with an error of `kind` and `message`, logged as the
/// failure of the step it was at.
pub open spec fn finished_with(
    o: ManageWorkflow,
    f: ManageWorkflow,
    action: ManageAction,
    before: Seq<Seq<char>>,
    after: Seq<Seq<char>>,
    kind: ErrorKind,
    message: Seq<char>,
) -> bool {
    &&& f.stage() == ManageStage::Finished
    &&& fails_with(action, kind, message)
    &&& appends(before, after, seq![failure_entry(o.step(), kind, message)])
}

/// The workflow moved to `stage` at step `step`, logging `messages`.
pub open spec fn moved(
    f: ManageWorkflow,
    before: Seq<Seq<char>>,
    after: Seq<Seq<char>>,
    stage: ManageStage,
    step: Seq<char>,
    messages: Seq<(Severity, Seq<char>)>,
) -> bool {
    &&& f.stage() == stage
    &&& f.step() == step
    &&& appends(before, after, messages)
}

/// The workflow finished successfully, logging `messages`.
pub open spec fn succeeded(
    f: ManageWorkflow,
    action: ManageAction,
    before: Seq<Seq<char>>,
    after: Seq<Seq<char>>,
    messages: Seq<(Severity, Seq<char>)>,
) -> bool {
    &&& f.stage() == ManageStage::Finished
    &&& action matches ManageAction::Finish(Ok(()))
    &&& appends(before, after, messages)
}

/// The answer when the instance is not stored.
pub open spec fn missing_message() -> Seq<char> {
    "No such instance"@
}

/// The answer when the role could not be read.
pub open spec fn access_unreadable_message() -> Seq<char> {
    "Could not check instance access"@
}

/// The answer when a running instance would be deleted.
pub open spec fn running_delete_message() -> Seq<char> {
    "Shut down the instance before deleting it."@
}

/// The answer when the disk of a running instance would be downloaded.
pub open spec fn running_download_message() -> Seq<char> {
    "Shut down the instance before downloading its disk."@
}

/// The answer to a stored hostname that is not a single file name.
pub open spec fn hostname_message() -> Seq<char> {
    "hostname must be a single, non-empty filename component"@
}

/// The message logged when a power change completed.
pub open spec fn switched_message(operation: Operation) -> Seq<char> {
    match operation {
        Operation::Start => "Completed: instance started"@,
        _ => "Completed: instance stopped"@,
    }
}

/// The step at which the domain is looked up.
pub open spec fn domain_step(operation: Operation) -> Seq<char> {
    match operation {
        Operation::DownloadDisk => "Checking whether domain is inactive"@,
        _ => "Looking up libvirt domain"@,
    }
}

/// The step at which the power of the domain changes.
pub open spec fn switch_step(operation: Operation) -> Seq<char> {
    match operation {
        Operation::Start => "Starting libvirt domain"@,
        _ => "Stopping libvirt domain"@,
    }
}

/// The role that `role_name` grants for `operation`, if it does.
pub open spec fn access_granted(role_name: Option<String>, operation: Operation) -> bool {
    match role_name {
        Some(name) => role_named(name@) matches Some(role) && grants(
            role_permissions(role),
            required_permission(operation),
        ),
        None => false,
    }
}

/// The error of an access check that does not grant the operation.
pub open spec fn access_denied(role_name: Option<String>, operation: Operation, action: ManageAction) -> bool {
    match role_name {
        Some(name) => match role_named(name@) {
            Some(_) => fails_with(action, ErrorKind::Forbidden, "Your role does not permit this operation"@),
            None => fails_with(action, ErrorKind::NotFound, no_such_instance()),
        },
        None => fails_with(action, ErrorKind::NotFound, no_such_instance()),
    }
}

/// After the caller's role was read: refuse, or go on with the operation.
pub open spec fn granted_next(
    o: ManageWorkflow,
    f: ManageWorkflow,
    r: ManageAction,
    before: Seq<Seq<char>>,
    after: Seq<Seq<char>>,
    role_name: Option<String>,
) -> bool {
        let op = o.operation();
        if !access_granted(role_name, op) {
            &&& f.stage() == ManageStage::Finished
            &&& access_denied(role_name, op, r)
            &&& r matches ManageAction::Finish(Err(e)) && appends(
                before,
                after,
                seq![failure_entry(o.step(), e.kind, e.message@)],
            )
        } else {
            match op {
                Operation::Delete => if is_single_file_name(o.hostname()) {
                    &&& moved(
                        f,
                        before,
                        after,
                        ManageStage::CheckingFiles,
                        "Validating instance storage"@,
                        seq![info("Validating instance storage"@)],
                    )
                    &&& r matches ManageAction::CheckFiles { disk: d, seed_iso: s } && d@
                        == o.storage().disk_path(o.hostname()) && s@
                        == o.storage().seed_iso_path(o.hostname())
                } else {
                    finished_with(
                        o,
                        f,
                        r,
                        before,
                        after,
                        ErrorKind::InvalidInput,
                        hostname_message(),
                    )
                },
                _ => {
                    &&& moved(
                        f,
                        before,
                        after,
                        ManageStage::FindingDomain,
                        domain_step(op),
                        seq![info(domain_step(op))],
                    )
                    &&& r matches ManageAction::LookUpDomain { id } && id@
                        == o.instance_id()
                },
            }
        }
}

/// After the domain was looked up.
pub open spec fn found_next(
    o: ManageWorkflow,
    f: ManageWorkflow,
    r: ManageAction,
    before: Seq<Seq<char>>,
    after: Seq<Seq<char>>,
    lookup: DomainLookup,
) -> bool {
        let op = o.operation();
        match lookup {
            DomainLookup::Failed(e) => finished_with(
                o,
                f,
                r,
                before,
                after,
                ErrorKind::Internal,
                e@,
            ),
            DomainLookup::Absent(e) => if op is Delete {
                &&& moved(
                    f,
                    before,
                    after,
                    ManageStage::RecheckingFiles,
                    o.step(),
                    seq![info("Domain already absent; continuing storage cleanup"@)],
                )
                &&& r matches ManageAction::CheckFiles { disk: d, seed_iso: s } && d@
                    == o.storage().disk_path(o.hostname()) && s@
                    == o.storage().seed_iso_path(o.hostname())
            } else {
                finished_with(o, f, r, before, after, ErrorKind::Internal, e@)
            },
            DomainLookup::Found => match op {
                Operation::Delete => {
                    &&& moved(
                        f,
                        before,
                        after,
                        ManageStage::CheckingActive,
                        "Checking whether domain is active"@,
                        seq![info("Checking whether domain is active"@)],
                    )
                    &&& r is CheckActive
                },
                Operation::DownloadDisk => {
                    &&& moved(
                        f,
                        before,
                        after,
                        ManageStage::CheckingActive,
                        o.step(),
                        Seq::empty(),
                    )
                    &&& r is CheckActive
                },
                _ => {
                    &&& moved(
                        f,
                        before,
                        after,
                        ManageStage::Switching,
                        switch_step(op),
                        seq![info(switch_step(op))],
                    )
                    &&& match op {
                        Operation::Start => r matches ManageAction::StartDomain { id }
                            && id@ == o.instance_id(),
                        Operation::Stop => r is StopDomain,
                        _ => r is DestroyDomain,
                    }
                },
            },
        }
}

/// After it was found out whether the domain runs.
pub open spec fn active_next(
    o: ManageWorkflow,
    f: ManageWorkflow,
    r: ManageAction,
    before: Seq<Seq<char>>,
    after: Seq<Seq<char>>,
    running: bool,
) -> bool {
        if o.operation() is Delete {
            if running {
                finished_with(
                    o,
                    f,
                    r,
                    before,
                    after,
                    ErrorKind::Conflict,
                    running_delete_message(),
                )
            } else {
                &&& moved(
                    f,
                    before,
                    after,
                    ManageStage::Undefining,
                    "Undefining libvirt domain"@,
                    seq![info("Undefining libvirt domain"@)],
                )
                &&& r is Undefine
            }
        } else if running {
            finished_with(
                o,
                f,
                r,
                before,
                after,
                ErrorKind::Conflict,
                running_download_message(),
            )
        } else if !is_single_file_name(o.hostname()) {
            finished_with(
                o,
                f,
                r,
                before,
                after,
                ErrorKind::InvalidInput,
                hostname_message(),
            )
        } else {
            &&& moved(f, before, after, ManageStage::Exporting, o.step(), Seq::empty())
            &&& r matches ManageAction::ExportDisk { paths } && {
                &&& paths.disk@ == o.storage().disk_path(o.hostname())
                &&& paths.seed_iso@ == o.storage().seed_iso_path(o.hostname())
                &&& paths.cloud_image@ == o.storage().cloud_image_path()
            }
        }
}

/// After one file was removed, found absent, or could not be removed.
pub open spec fn removed_next(
    o: ManageWorkflow,
    f: ManageWorkflow,
    r: ManageAction,
    before: Seq<Seq<char>>,
    after: Seq<Seq<char>>,
    removal: Removal,
) -> bool {
        let disk = o.storage().disk_path(o.hostname());
        let path = if o.stage() is RemovingSeedIso {
            o.storage().seed_iso_path(o.hostname())
        } else {
            disk
        };
        let done = match removal {
            Removal::Removed => "Removed "@ + path,
            _ => "File already absent"@,
        };
        if removal is Failed {
            finished_with(o, f, r, before, after, ErrorKind::Internal, "Removing "@ + path)
        } else if o.stage() is RemovingSeedIso {
            &&& moved(
                f,
                before,
                after,
                ManageStage::RemovingDisk,
                "Deleting instance disk"@,
                seq![info(done), info("Deleting instance disk"@)],
            )
            &&& r matches ManageAction::RemoveFile { path: p } && p@ == disk
        } else {
            &&& moved(
                f,
                before,
                after,
                ManageStage::DeletingRecord,
                "Deleting instance from database"@,
                seq![info(done), info("Deleting instance from database"@)],
            )
            &&& r matches ManageAction::DeleteRecord { id } && id@ == o.instance_id()
        }
}

/// After the outside step of the current stage succeeded.
pub open spec fn done_next(
    o: ManageWorkflow,
    f: ManageWorkflow,
    r: ManageAction,
    before: Seq<Seq<char>>,
    after: Seq<Seq<char>>,
) -> bool {
        let disk = o.storage().disk_path(o.hostname());
        let seed_iso = o.storage().seed_iso_path(o.hostname());
        match o.stage() {
            ManageStage::CheckingFiles => {
                &&& moved(
                    f,
                    before,
                    after,
                    ManageStage::FindingDomain,
                    "Looking up libvirt domain"@,
                    seq![info("Looking up libvirt domain"@)],
                )
                &&& r matches ManageAction::LookUpDomain { id } && id@ == o.instance_id()
            },
            ManageStage::Undefining => {
                &&& moved(f, before, after, ManageStage::RecheckingFiles, o.step(), Seq::empty())
                &&& r matches ManageAction::CheckFiles { disk: d, seed_iso: s } && d@
                    == disk && s@ == seed_iso
            },
            ManageStage::RecheckingFiles => {
                &&& moved(
                    f,
                    before,
                    after,
                    ManageStage::RemovingSeedIso,
                    "Deleting seed ISO"@,
                    seq![info("Deleting seed ISO"@)],
                )
                &&& r matches ManageAction::RemoveFile { path } && path@ == seed_iso
            },
            ManageStage::DeletingRecord => succeeded(
                f,
                r,
                before,
                after,
                seq![info("Completed: instance, disk, and seed ISO deleted"@)],
            ),
            ManageStage::Switching => succeeded(
                f,
                r,
                before,
                after,
                seq![info(switched_message(o.operation()))],
            ),
            _ => succeeded(f, r, before, after, Seq::empty()),
        }
}

/// The state of one operation on an existing instance.
pub struct ManageWorkflow {
    stage: ManageStage,
    operation: Operation,
    log: OperationLog,
    id: String,
    storage: StoragePaths,
    record: Option<Instance>,
}

impl ManageWorkflow {
    /// The outcome the workflow waits for.
    pub closed spec fn stage(&self) -> ManageStage {
        self.stage
    }

    /// The operation.
    pub closed spec fn operation(&self) -> Operation {
        self.operation
    }

    /// The step that failure messages name.
    pub closed spec fn step(&self) -> Seq<char> {
        self.log.current_step()
    }

    /// The requested instance ID.
    pub closed spec fn instance_id(&self) -> Seq<char> {
        self.id@
    }

    /// The storage layout.
    pub closed spec fn storage(&self) -> StoragePaths {
        self.storage
    }

    /// The hostname of the stored instance, once it was read.
    pub closed spec fn hostname(&self) -> Seq<char> {
        match self.record {
            Some(r) => r.hostname@,
            None => Seq::empty(),
        }
    }

    /// The stored instance, once it was read.
    pub closed spec fn record(&self) -> Option<Instance> {
        self.record
    }

    /// The files of the instance are known to lie in the storage layout once
    /// the operation works on them.
    pub closed spec fn well_formed(&self) -> bool {
        &&& match self.stage {
            ManageStage::LookingUp | ManageStage::Locking | ManageStage::LookingUpAgain
            | ManageStage::Finished => true,
            _ => self.record is Some,
        }
        &&& match self.stage {
            ManageStage::CheckingFiles | ManageStage::Undefining | ManageStage::RecheckingFiles
            | ManageStage::RemovingSeedIso | ManageStage::RemovingDisk
            | ManageStage::DeletingRecord => is_single_file_name(self.hostname()),
            ManageStage::FindingDomain | ManageStage::CheckingActive => self.operation is Delete
                ==> is_single_file_name(self.hostname()),
            _ => true,
        }
    }

    /// Starts `operation` on the instance with UUID `id`: the request is logged
    /// and the instance is looked up.
    pub fn start(logger: &mut Logger, operation: Operation, id: &str, storage: StoragePaths) -> (r: (
        ManageWorkflow,
        ManageAction,
    ))
        ensures
            r.0.well_formed(),
            r.0.stage() == ManageStage::LookingUp,
            r.0.operation() == operation,
            r.0.step() == "Looking up instance in database"@,
            r.0.instance_id() == id@,
            r.0.storage() == storage,
            r.0.record() is None,
            r.1 matches ManageAction::LookUp { id: i } && i@ == id@,
            appends(
                old(logger)@,
                final(logger)@,
                seq![
                    info(request_message(operation_name(operation), Some(id@))),
                    info("Looking up instance in database"@),
                ],
            ),
    {
        let ghost l0 = logger@;
        let name = match operation {
            Operation::Delete => "delete",
            Operation::Start => "start",
            Operation::Stop => "stop",
            Operation::Destroy => "stop",
            Operation::DownloadDisk => "download disk",
        };
        let mut log = OperationLog::new(logger, name, Some(id));
        let ghost l1 = logger@;
        proof {
            lemma_appends_one(l0, l1, Severity::Info, request_message(name@, Some(id@)));
        }
        log.step(logger, "Looking up instance in database");
        proof {
            lemma_appends_push(
                l0,
                l1,
                logger@,
                seq![info(request_message(name@, Some(id@)))],
                Severity::Info,
                "Looking up instance in database"@,
            );
            assert(name@ == operation_name(operation));
            assert(seq![info(request_message(name@, Some(id@)))].push(
                info("Looking up instance in database"@),
            ) =~= seq![
                info(request_message(name@, Some(id@))),
                info("Looking up instance in database"@),
            ]);
        }
        let workflow = ManageWorkflow {
            stage: ManageStage::LookingUp,
            operation,
            log,
            id: String::from_str(id),
            storage,
            record: None,
        };
        (workflow, ManageAction::LookUp { id: String::from_str(id) })
    }

    /// Ends the operation with an error of `kind` and `message`.
    fn fail(&mut self, logger: &mut Logger, kind: ErrorKind, message: &str) -> (r: ManageAction)
        ensures
            final(self).stage() == ManageStage::Finished,
            final(self).step() == old(self).step(),
            final(self).operation() == old(self).operation(),
            final(self).instance_id() == old(self).instance_id(),
            final(self).storage() == old(self).storage(),
            final(self).record() == old(self).record(),
            finished_with(*old(self), *final(self), r, old(logger)@, final(logger)@, kind, message@),
    {
        let ghost l0 = logger@;
        let error = operation_error(&self.log, logger, kind, message);
        proof {
            lemma_appends_one(
                l0,
                logger@,
                failure_severity(kind),
                failure_message(self.step(), message@),
            );
        }
        self.stage = ManageStage::Finished;
        ManageAction::Finish(Err(error))
    }

    /// Moves to `step`, logging it, and waits at `stage`.
    fn enter(&mut self, logger: &mut Logger, stage: ManageStage, step: &str)
        ensures
            final(self).operation() == old(self).operation(),
            final(self).instance_id() == old(self).instance_id(),
            final(self).storage() == old(self).storage(),
            final(self).record() == old(self).record(),
            moved(*final(self), old(logger)@, final(logger)@, stage, step@, seq![info(step@)]),
    {
        let ghost l0 = logger@;
        self.log.step(logger, step);
        proof {
            lemma_appends_one(l0, logger@, Severity::Info, step@);
        }
        self.stage = stage;
    }

    /// Logs `message` as information.
    fn note(&self, logger: &mut Logger, message: &str)
        ensures
            appends(old(logger)@, final(logger)@, seq![info(message@)]),
    {
        let ghost l0 = logger@;
        self.log.info(logger, message);
        proof {
            lemma_appends_one(l0, logger@, Severity::Info, message@);
        }
    }

    /// Moves to `step` during the disk export and logs it.
    pub fn export_step(&mut self, logger: &mut Logger, step: &str)
        requires
            old(self).stage() == ManageStage::Exporting,
            old(self).well_formed(),
        ensures
            final(self).well_formed(),
            final(self).operation() == old(self).operation(),
            final(self).instance_id() == old(self).instance_id(),
            final(self).storage() == old(self).storage(),
            final(self).record() == old(self).record(),
            moved(
                *final(self),
                old(logger)@,
                final(logger)@,
                ManageStage::Exporting,
                step@,
                seq![info(step@)],
            ),
    {
        self.enter(logger, ManageStage::Exporting, step);
    }

    /// Logs `message` with `severity` during the disk export.
    pub fn export_message(&self, logger: &mut Logger, severity: Severity, message: &str)
        ensures
            appends(old(logger)@, final(logger)@, seq![(severity, message@)]),
    {
        let ghost l0 = logger@;
        self.log.message(logger, severity, message);
        proof {
            lemma_appends_one(l0, logger@, severity, message@);
        }
    }

    /// The files of the stored instance.
    fn files(&self) -> (r: InstancePaths)
        requires
            self.record() is Some,
            is_single_file_name(self.hostname()),
        ensures
            r.disk@ == self.storage().disk_path(self.hostname()),
            r.seed_iso@ == self.storage().seed_iso_path(self.hostname()),
            r.cloud_image@ == self.storage().cloud_image_path(),
    {
        let record = self.record.as_ref().unwrap();
        match self.storage.instance(record.hostname.as_str()) {
            Ok(paths) => paths,
            Err(_) => {
                proof {
                    assert(false);
                }
                InstancePaths {
                    cloud_image: String::new(),
                    disk: String::new(),
                    seed_iso: String::new(),
                }
            },
        }
    }

    /// Decides what follows `event`, the outcome of the last action, and logs
    /// the steps it moves through.
    pub fn advance(&mut self, logger: &mut Logger, event: ManageEvent) -> (r: ManageAction)
        requires
            old(self).well_formed(),
            awaits(old(self).stage(), event),
        ensures
            final(self).well_formed(),
            final(self).operation() == old(self).operation(),
            final(self).instance_id() == old(self).instance_id(),
            final(self).storage() == old(self).storage(),
            ({
                let o = *old(self);
                let f = *final(self);
                let before = old(logger)@;
                let after = final(logger)@;
                match event {
                    ManageEvent::Record(Err(e)) => finished_with(
                        o,
                        f,
                        r,
                        before,
                        after,
                        ErrorKind::Internal,
                        e@,
                    ),
                    ManageEvent::Record(Ok(None)) => finished_with(
                        o,
                        f,
                        r,
                        before,
                        after,
                        ErrorKind::NotFound,
                        missing_message(),
                    ),
                    ManageEvent::Record(Ok(Some(instance))) => if o.stage() is LookingUp {
                        &&& moved(f, before, after, ManageStage::Locking, o.step(), Seq::empty())
                        &&& r matches ManageAction::AcquireLock { hostname } && hostname@
                            == instance.hostname@
                    } else {
                        &&& moved(
                            f,
                            before,
                            after,
                            ManageStage::CheckingAccess,
                            "Checking instance access"@,
                            seq![info("Checking instance access"@)],
                        )
                        &&& f.record() == Some(instance)
                        &&& r matches ManageAction::CheckAccess { id } && id@ == o.instance_id()
                    },
                    ManageEvent::Lock(free) => if free {
                        &&& moved(
                            f,
                            before,
                            after,
                            ManageStage::LookingUpAgain,
                            "Looking up instance in database"@,
                            seq![info("Looking up instance in database"@)],
                        )
                        &&& r matches ManageAction::LookUp { id } && id@ == o.instance_id()
                    } else {
                        finished_with(o, f, r, before, after, ErrorKind::Conflict, BUSY_MESSAGE@)
                    },
                    ManageEvent::Access(Err(_)) => finished_with(
                        o,
                        f,
                        r,
                        before,
                        after,
                        ErrorKind::Internal,
                        access_unreadable_message(),
                    ),
                    ManageEvent::Access(Ok(role_name)) => granted_next(
                        o,
                        f,
                        r,
                        before,
                        after,
                        role_name,
                    ),
                    ManageEvent::Domain(lookup) => found_next(o, f, r, before, after, lookup),
                    ManageEvent::Active(Err(e)) => finished_with(
                        o,
                        f,
                        r,
                        before,
                        after,
                        ErrorKind::Internal,
                        e@,
                    ),
                    ManageEvent::Active(Ok(running)) => active_next(
                        o,
                        f,
                        r,
                        before,
                        after,
                        running,
                    ),
                    ManageEvent::Removed(removal) => removed_next(o, f, r, before, after, removal),
                    ManageEvent::Done(Err(e)) => finished_with(
                        o,
                        f,
                        r,
                        before,
                        after,
                        ErrorKind::Internal,
                        e@,
                    ),
                    ManageEvent::Done(Ok(())) => done_next(o, f, r, before, after),
                }
            }),
    {
        let ghost l0 = logger@;
        match event {
            ManageEvent::Record(Err(e)) => self.fail(logger, ErrorKind::Internal, e.as_str()),
            ManageEvent::Record(Ok(None)) => self.fail(
                logger,
                ErrorKind::NotFound,
                "No such instance",
            ),
            ManageEvent::Record(Ok(Some(instance))) => {
                if matches!(self.stage, ManageStage::LookingUp) {
                    let hostname = instance.hostname.clone();
                    self.stage = ManageStage::Locking;
                    proof {
                        crate::logging::lemma_appends_nothing(l0);
                    }
                    ManageAction::AcquireLock { hostname }
                } else {
                    self.record = Some(instance);
                    self.enter(logger, ManageStage::CheckingAccess, "Checking instance access");
                    ManageAction::CheckAccess { id: self.id.clone() }
                }
            },
            ManageEvent::Lock(free) => {
                if free {
                    self.enter(
                        logger,
                        ManageStage::LookingUpAgain,
                        "Looking up instance in database",
                    );
                    ManageAction::LookUp { id: self.id.clone() }
                } else {
                    self.fail(logger, ErrorKind::Conflict, BUSY_MESSAGE)
                }
            },
            ManageEvent::Access(Err(_)) => self.fail(
                logger,
                ErrorKind::Internal,
                "Could not check instance access",
            ),
            ManageEvent::Access(Ok(role_name)) => self.granted(logger, role_name),
            ManageEvent::Domain(lookup) => self.found(logger, lookup),
            ManageEvent::Active(Err(e)) => self.fail(logger, ErrorKind::Internal, e.as_str()),
            ManageEvent::Active(Ok(running)) => self.checked_active(logger, running),
            ManageEvent::Removed(removal) => self.removed(logger, removal),
            ManageEvent::Done(Err(e)) => self.fail(logger, ErrorKind::Internal, e.as_str()),
            ManageEvent::Done(Ok(())) => self.done(logger),
        }
    }

    /// The caller's role was read.
    fn granted(&mut self, logger: &mut Logger, role_name: Option<String>) -> (r: ManageAction)
        requires
            old(self).well_formed(),
            old(self).stage() is CheckingAccess,
        ensures
            final(self).well_formed(),
            final(self).operation() == old(self).operation(),
            final(self).instance_id() == old(self).instance_id(),
            final(self).storage() == old(self).storage(),
            final(self).record() == old(self).record(),
            granted_next(*old(self), *final(self), r, old(logger)@, final(logger)@, role_name),
    {
        let permission = match self.operation {
            Operation::Delete => Permission::Delete,
            Operation::DownloadDisk => Permission::Download,
            _ => Permission::Control,
        };
        let checked = match &role_name {
            Some(name) => check_access(Some(name.as_str()), permission),
            None => check_access(None, permission),
        };
        match checked {
            Err(e) => {
                let ghost l0 = logger@;
                let error = operation_error(&self.log, logger, e.kind, e.message.as_str());
                proof {
                    lemma_appends_one(
                        l0,
                        logger@,
                        failure_severity(e.kind),
                        failure_message(self.step(), e.message@),
                    );
                }
                self.stage = ManageStage::Finished;
                ManageAction::Finish(Err(error))
            },
            Ok(_) => {
                match self.operation {
                    Operation::Delete => {
                        let record = self.record.as_ref().unwrap();
                        if !crate::paths::single_file_name(record.hostname.as_str()) {
                            return self.fail(
                                logger,
                                ErrorKind::InvalidInput,
                                "hostname must be a single, non-empty filename component",
                            );
                        }
                        self.enter(logger, ManageStage::CheckingFiles, "Validating instance storage");
                        let paths = self.files();
                        ManageAction::CheckFiles { disk: paths.disk, seed_iso: paths.seed_iso }
                    },
                    Operation::DownloadDisk => {
                        self.enter(
                            logger,
                            ManageStage::FindingDomain,
                            "Checking whether domain is inactive",
                        );
                        ManageAction::LookUpDomain { id: self.id.clone() }
                    },
                    _ => {
                        self.enter(logger, ManageStage::FindingDomain, "Looking up libvirt domain");
                        ManageAction::LookUpDomain { id: self.id.clone() }
                    },
                }
            },
        }
    }

    /// The domain was looked up.
    fn found(&mut self, logger: &mut Logger, lookup: DomainLookup) -> (r: ManageAction)
        requires
            old(self).well_formed(),
            old(self).stage() is FindingDomain,
        ensures
            final(self).well_formed(),
            final(self).operation() == old(self).operation(),
            final(self).instance_id() == old(self).instance_id(),
            final(self).storage() == old(self).storage(),
            final(self).record() == old(self).record(),
            found_next(*old(self), *final(self), r, old(logger)@, final(logger)@, lookup),
    {
        match lookup {
            DomainLookup::Failed(e) => self.fail(logger, ErrorKind::Internal, e.as_str()),
            DomainLookup::Absent(e) => {
                if matches!(self.operation, Operation::Delete) {
                    self.note(logger, "Domain already absent; continuing storage cleanup");
                    self.stage = ManageStage::RecheckingFiles;
                    let paths = self.files();
                    ManageAction::CheckFiles { disk: paths.disk, seed_iso: paths.seed_iso }
                } else {
                    self.fail(logger, ErrorKind::Internal, e.as_str())
                }
            },
            DomainLookup::Found => match self.operation {
                Operation::Delete => {
                    self.enter(
                        logger,
                        ManageStage::CheckingActive,
                        "Checking whether domain is active",
                    );
                    ManageAction::CheckActive
                },
                Operation::DownloadDisk => {
                    self.stage = ManageStage::CheckingActive;
                    proof {
                        crate::logging::lemma_appends_nothing(logger@);
                    }
                    ManageAction::CheckActive
                },
                Operation::Start => {
                    self.enter(logger, ManageStage::Switching, "Starting libvirt domain");
                    ManageAction::StartDomain { id: self.id.clone() }
                },
                Operation::Stop => {
                    self.enter(logger, ManageStage::Switching, "Stopping libvirt domain");
                    ManageAction::StopDomain
                },
                Operation::Destroy => {
                    self.enter(logger, ManageStage::Switching, "Stopping libvirt domain");
                    ManageAction::DestroyDomain
                },
            },
        }
    }

    /// Whether the domain runs was found out.
    fn checked_active(&mut self, logger: &mut Logger, running: bool) -> (r: ManageAction)
        requires
            old(self).well_formed(),
            old(self).stage() is CheckingActive,
        ensures
            final(self).well_formed(),
            final(self).operation() == old(self).operation(),
            final(self).instance_id() == old(self).instance_id(),
            final(self).storage() == old(self).storage(),
            final(self).record() == old(self).record(),
            active_next(*old(self), *final(self), r, old(logger)@, final(logger)@, running),
    {
        if matches!(self.operation, Operation::Delete) {
            if running {
                self.fail(logger, ErrorKind::Conflict, "Shut down the instance before deleting it.")
            } else {
                self.enter(logger, ManageStage::Undefining, "Undefining libvirt domain");
                ManageAction::Undefine
            }
        } else if running {
            self.fail(
                logger,
                ErrorKind::Conflict,
                "Shut down the instance before downloading its disk.",
            )
        } else {
            let record = self.record.as_ref().unwrap();
            if !crate::paths::single_file_name(record.hostname.as_str()) {
                return self.fail(
                    logger,
                    ErrorKind::InvalidInput,
                    "hostname must be a single, non-empty filename component",
                );
            }
            let paths = self.files();
            self.stage = ManageStage::Exporting;
            proof {
                crate::logging::lemma_appends_nothing(logger@);
            }
            ManageAction::ExportDisk { paths }
        }
    }

    /// One file was removed, or found absent, or could not be removed.
    fn removed(&mut self, logger: &mut Logger, removal: Removal) -> (r: ManageAction)
        requires
            old(self).well_formed(),
            old(self).stage() is RemovingSeedIso || old(self).stage() is RemovingDisk,
        ensures
            final(self).well_formed(),
            final(self).operation() == old(self).operation(),
            final(self).instance_id() == old(self).instance_id(),
            final(self).storage() == old(self).storage(),
            final(self).record() == old(self).record(),
            removed_next(*old(self), *final(self), r, old(logger)@, final(logger)@, removal),
    {
        let ghost l0 = logger@;
        let paths = self.files();
        let seed = matches!(self.stage, ManageStage::RemovingSeedIso);
        let path = if seed {
            paths.seed_iso
        } else {
            paths.disk.clone()
        };
        match removal {
            Removal::Failed => {
                let mut message = String::from_str("Removing ");
                message.append(path.as_str());
                return self.fail(logger, ErrorKind::Internal, message.as_str());
            },
            Removal::Removed => {
                let mut message = String::from_str("Removed ");
                message.append(path.as_str());
                self.note(logger, message.as_str());
            },
            Removal::Absent => {
                self.note(logger, "File already absent");
            },
        }
        let ghost l1 = logger@;
        let ghost done = match removal {
            Removal::Removed => "Removed "@ + path@,
            _ => "File already absent"@,
        };
        if seed {
            self.enter(logger, ManageStage::RemovingDisk, "Deleting instance disk");
            proof {
                lemma_appends_then(l0, l1, logger@, seq![info(done)], info("Deleting instance disk"@));
                assert(seq![info(done)].push(info("Deleting instance disk"@)) =~= seq![
                    info(done),
                    info("Deleting instance disk"@),
                ]);
            }
            ManageAction::RemoveFile { path: paths.disk }
        } else {
            self.enter(logger, ManageStage::DeletingRecord, "Deleting instance from database");
            proof {
                lemma_appends_then(
                    l0,
                    l1,
                    logger@,
                    seq![info(done)],
                    info("Deleting instance from database"@),
                );
                assert(seq![info(done)].push(info("Deleting instance from database"@)) =~= seq![
                    info(done),
                    info("Deleting instance from database"@),
                ]);
            }
            ManageAction::DeleteRecord { id: self.id.clone() }
        }
    }

    /// The outside step of the current stage succeeded.
    fn done(&mut self, logger: &mut Logger) -> (r: ManageAction)
        requires
            old(self).well_formed(),
            old(self).stage() is CheckingFiles || old(self).stage() is Undefining || old(
                self,
            ).stage() is RecheckingFiles || old(self).stage() is DeletingRecord || old(
                self,
            ).stage() is Switching || old(self).stage() is Exporting,
        ensures
            final(self).well_formed(),
            final(self).operation() == old(self).operation(),
            final(self).instance_id() == old(self).instance_id(),
            final(self).storage() == old(self).storage(),
            final(self).record() == old(self).record(),
            done_next(*old(self), *final(self), r, old(logger)@, final(logger)@),
    {
        match self.stage {
            ManageStage::CheckingFiles => {
                self.enter(logger, ManageStage::FindingDomain, "Looking up libvirt domain");
                ManageAction::LookUpDomain { id: self.id.clone() }
            },
            ManageStage::Undefining => {
                self.stage = ManageStage::RecheckingFiles;
                proof {
                    crate::logging::lemma_appends_nothing(logger@);
                }
                let paths = self.files();
                ManageAction::CheckFiles { disk: paths.disk, seed_iso: paths.seed_iso }
            },
            ManageStage::RecheckingFiles => {
                self.enter(logger, ManageStage::RemovingSeedIso, "Deleting seed ISO");
                let paths = self.files();
                ManageAction::RemoveFile { path: paths.seed_iso }
            },
            ManageStage::DeletingRecord => {
                self.note(logger, "Completed: instance, disk, and seed ISO deleted");
                self.stage = ManageStage::Finished;
                ManageAction::Finish(Ok(()))
            },
            ManageStage::Switching => {
                if matches!(self.operation, Operation::Start) {
                    self.note(logger, "Completed: instance started");
                } else {
                    self.note(logger, "Completed: instance stopped");
                }
                self.stage = ManageStage::Finished;
                ManageAction::Finish(Ok(()))
            },
            _ => {
                self.stage = ManageStage::Finished;
                proof {
                    crate::logging::lemma_appends_nothing(logger@);
                }
                ManageAction::Finish(Ok(()))
            },
        }
    }
}

/// Who may do what to an instance, by stored role name: only `owner` may
/// delete an instance or download its disk; `owner` and `operator` may start
/// and stop it; no other name (`viewer` included) is granted any of these.
pub proof fn lemma_operation_access_table(name: String, operation: Operation)
    ensures
        access_granted(Some(name), operation) <==> match operation {
            Operation::Delete => name@ == "owner"@,
            Operation::DownloadDisk => name@ == "owner"@,
            Operation::Start => name@ == "owner"@ || name@ == "operator"@,
            Operation::Stop => name@ == "owner"@ || name@ == "operator"@,
            Operation::Destroy => name@ == "owner"@ || name@ == "operator"@,
        },
{
}

/// Deleting an instance after its caller's role was read (the `Access` event
/// of `advance`): an `operator` or `viewer` is refused with `Forbidden`,
/// a caller without a role with `NotFound`, and only an `owner` goes on,
/// to the file check of the instance's disk and seed ISO, or is refused
/// because the stored hostname is not a plain file name.
pub proof fn lemma_only_owners_delete(
    o: ManageWorkflow,
    f: ManageWorkflow,
    r: ManageAction,
    before: Seq<Seq<char>>,
    after: Seq<Seq<char>>,
    role_name: Option<String>,
)
    requires
        o.operation() is Delete,
        granted_next(o, f, r, before, after, role_name),
    ensures
        role_name matches Some(n) && (n@ == "operator"@ || n@ == "viewer"@) ==> {
            &&& f.stage() == ManageStage::Finished
            &&& r matches ManageAction::Finish(Err(e)) && e.kind == ErrorKind::Forbidden
                && e.message@ == "Your role does not permit this operation"@
        },
        role_name is None ==> (r matches ManageAction::Finish(Err(e)) && e.kind
            == ErrorKind::NotFound),
        !(role_name matches Some(n) && n@ == "owner"@) ==> r is Finish && f.stage()
            == ManageStage::Finished,
        role_name matches Some(n) && n@ == "owner"@ ==> {
            ||| r matches ManageAction::CheckFiles { disk, seed_iso } && disk@
                == o.storage().disk_path(o.hostname()) && seed_iso@
                == o.storage().seed_iso_path(o.hostname())
            ||| r matches ManageAction::Finish(Err(e)) && e.kind == ErrorKind::InvalidInput
        },
{
    reveal_strlit("owner");
    reveal_strlit("operator");
    reveal_strlit("viewer");
    match role_name {
        Some(n) => {
            lemma_operation_access_table(n, o.operation());
            if n@ == "operator"@ || n@ == "viewer"@ {
                assert(role_named(n@) is Some);
                assert("owner"@.len() == 5);
                assert("operator"@.len() == 8);
                assert("viewer"@.len() == 6);
                assert(n@ != "owner"@);
                assert(role_name == Some(n));
                assert(!access_granted(role_name, o.operation()));
                assert(access_denied(role_name, o.operation(), r));
            }
        },
        None => {},
    }
}

} // verus!
