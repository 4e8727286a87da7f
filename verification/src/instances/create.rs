//! Creating an instance: the decisions between the outside steps.
//!
//! The caller performs each action (taking the hostname lock, asking the
//! database and the file system, writing seed files, running the disk
//! commands, defining the domain, inserting the record) and hands the outcome
//! back as the next event, until the workflow finishes.
use vstd::prelude::*;

use crate::instances::{
    description_accepted, description_message, failure_entry, failure_severity, info,
    operation_error, validate_description, CreateOutcome, ErrorKind, InstanceError,
    BUSY_MESSAGE, RESERVED_USER_NAME,
};
use crate::libvirt::libvirt_domain::Domain;
use crate::libvirt::xml::domain_xml;
use crate::libvirt::{describes_instance, generate_domain, is_uuid_v4_text, uuid_failure_message};
use crate::logging::{
    appends, failure_message, lemma_appends_nothing, lemma_appends_one, lemma_appends_push,
    lemma_appends_then, request_message, Logger, OperationLog, Severity,
};
use crate::model::VmConfig;
use crate::paths::{is_single_file_name, InstancePaths, StoragePaths};
use crate::seed::{
    interpolate, metadata_seed, network_bindings, network_config_seed, user_bindings, user_seed,
    META_DATA_SEED, NETWORK_CONFIG_SEED, USER_DATA_SEED,
};
use crate::settings::GuestDefaults;
use crate::text::{str_eq, trim};

verus! {

/// Where a create request stands: the outcome it waits for, or finished.
#[derive(Clone, Copy, Debug)]
pub enum CreateStage {
    Locking,
    CheckingStorage,
    ReadingDefaults,
    WritingSeeds,
    PreparingDisk,
    PreparingIso,
    Defining,
    Inserting,
    Finished,
}

/// The outcome of the last action.
pub enum CreateEvent {
    /// Whether the hostname lock was free.
    Lock(bool),
    /// Whether the hostname is taken in the database or its disk or seed ISO
    /// exists, or why that could not be found out.
    Storage(Result<bool, String>),
    /// The guest defaults, or why they could not be read.
    Defaults(Result<GuestDefaults, String>),
    /// The last outside step succeeded, or why it failed.
    Done(Result<(), String>),
}

/// What the caller does next.
pub enum CreateAction {
    /// Take the lock of the hostname and hold it until the workflow finishes.
    AcquireLock { hostname: String },
    /// Find out whether an instance with the hostname is stored, or whether the
    /// disk or the seed ISO already exists.
    CheckStorage { hostname: String, disk: String, seed_iso: String },
    /// Read the guest defaults.
    ReadDefaults,
    /// Write the three cloud-init inputs into a private temporary directory,
    /// kept until the seed ISO has been made.
    WriteSeeds { user_data: String, network_config: String, meta_data: String },
    /// Create the instance disk of `size_mib` MiB; in a dry run only log the commands.
    CreateImage { paths: InstancePaths, size_mib: usize, dry_run: bool },
    /// Make the seed ISO from the seed files; in a dry run only log the command.
    CreateIso { paths: InstancePaths, dry_run: bool },
    /// Define the libvirt domain from `xml`.
    DefineDomain { xml: String },
    /// Store the instance record under `id` for the requesting account.
    InsertInstance { id: String },
    /// The request is over.
    Finish(Result<CreateOutcome, InstanceError>),
}

/// The event that the workflow at `stage` waits for.
pub open spec fn awaits(stage: CreateStage, event: CreateEvent) -> bool {
    match stage {
        CreateStage::Locking => event is Lock,
        CreateStage::CheckingStorage => event is Storage,
        CreateStage::ReadingDefaults => event is Defaults,
        CreateStage::Finished => false,
        _ => event is Done,
    }
}

/// The action ends the request with an error of `kind` and `message`.
pub open spec fn fails_with(action: CreateAction, kind: ErrorKind, message: Seq<char>) -> bool {
    action matches CreateAction::Finish(Err(e)) && e.kind == kind && e.message@ == message
}

/// The note logged first in a dry run.
pub open spec fn dry_run_note() -> Seq<char> {
    "Dry run: disk commands, domain definition, and database insertion will be skipped"@
}

/// The answer when the hostname or its files are already in use.
pub open spec fn taken_message() -> Seq<char> {
    "This hostname or its storage already exists. Choose another hostname."@
}

/// The answer to the user name kept for the system administrator.
pub open spec fn reserved_message() -> Seq<char> {
    "The username sysadmin is reserved for the configured system administrator."@
}

/// The answer to a hostname that is not a single file name.
pub open spec fn hostname_message() -> Seq<char> {
    "hostname must be a single, non-empty filename component"@
}

/// The entries every create request starts with.
pub open spec fn opening_entries(hostname: Seq<char>, dry_run: bool) -> Seq<(Severity, Seq<char>)> {
    let request = seq![info(request_message("create"@, Some(hostname)))];
    let noted = if dry_run {
        request.push(info(dry_run_note()))
    } else {
        request
    };
    noted.push(info("Validating instance description"@))
}

/// The instance settings as the workflow keeps them: the request's, with the
/// description trimmed.
pub open spec fn kept_config(kept: VmConfig, requested: VmConfig) -> bool {
    &&& kept.user == requested.user
    &&& kept.networking == requested.networking
    &&& kept.instance.hostname == requested.instance.hostname
    &&& kept.instance.disk_size == requested.instance.disk_size
    &&& kept.instance.memory == requested.instance.memory
    &&& kept.instance.vcpus == requested.instance.vcpus
    &&& kept.instance.description@ == trim(requested.instance.description@)
}

/// The workflow finished with an error of `kind` and `message`, logged as the
/// failure of step `step`.
pub open spec fn finished_with(
    after: CreateWorkflow,
    action: CreateAction,
    log_before: Seq<Seq<char>>,
    log_after: Seq<Seq<char>>,
    step: Seq<char>,
    kind: ErrorKind,
    message: Seq<char>,
) -> bool {
    &&& after.stage() == CreateStage::Finished
    &&& fails_with(action, kind, message)
    &&& appends(log_before, log_after, seq![failure_entry(step, kind, message)])
}

/// After the seed files were written: prepare the disk.
pub open spec fn disk_next(
    o: CreateWorkflow,
    f: CreateWorkflow,
    r: CreateAction,
    before: Seq<Seq<char>>,
    after: Seq<Seq<char>>,
) -> bool {
    let paths = o.instance_paths();
    &&& f.instance_id() == o.instance_id()
    &&& f.stage() == CreateStage::PreparingDisk
    &&& f.step() == "Preparing instance disk"@
    &&& appends(before, after, seq![info("Preparing instance disk"@)])
    &&& r matches CreateAction::CreateImage { paths: p, size_mib, dry_run } && {
        &&& p.disk@ == paths.disk@
        &&& p.seed_iso@ == paths.seed_iso@
        &&& p.cloud_image@ == paths.cloud_image@
        &&& size_mib == o.instance_config().instance.disk_size
        &&& dry_run == o.dry_run()
    }
}

/// After the disk was prepared: make the seed ISO.
pub open spec fn iso_next(
    o: CreateWorkflow,
    f: CreateWorkflow,
    r: CreateAction,
    before: Seq<Seq<char>>,
    after: Seq<Seq<char>>,
) -> bool {
    let paths = o.instance_paths();
    &&& f.instance_id() == o.instance_id()
    &&& f.stage() == CreateStage::PreparingIso
    &&& f.step() == "Preparing cloud-init ISO"@
    &&& appends(before, after, seq![info("Preparing cloud-init ISO"@)])
    &&& r matches CreateAction::CreateIso { paths: p, dry_run } && {
        &&& p.disk@ == paths.disk@
        &&& p.seed_iso@ == paths.seed_iso@
        &&& p.cloud_image@ == paths.cloud_image@
        &&& dry_run == o.dry_run()
    }
}

/// After the seed ISO was made: the domain gets a fresh UUID and its XML;
/// a dry run ends here, otherwise the domain is defined. When the random
/// source yields no UUID, the request ends with an internal error.
pub open spec fn domain_next(
    o: CreateWorkflow,
    f: CreateWorkflow,
    r: CreateAction,
    before: Seq<Seq<char>>,
    after: Seq<Seq<char>>,
) -> bool {
    let id = f.instance_id();
    ||| {
        &&& f.stage() == CreateStage::Finished
        &&& fails_with(r, ErrorKind::Internal, uuid_failure_message())
        &&& appends(
            before,
            after,
            seq![
                info("Generating domain XML"@),
                failure_entry("Generating domain XML"@, ErrorKind::Internal, uuid_failure_message()),
            ],
        )
    }
    ||| {
    &&& is_uuid_v4_text(id)
    &&& if o.dry_run() {
        &&& f.stage() == CreateStage::Finished
        &&& appends(
            before,
            after,
            seq![
                info("Generating domain XML"@),
                info("Completed dry run: would define and register domain with UUID "@ + id),
            ],
        )
        &&& r matches CreateAction::Finish(Ok(CreateOutcome::DryRun))
    } else {
        &&& f.stage() == CreateStage::Defining
        &&& f.step() == "Defining libvirt domain"@
        &&& appends(
            before,
            after,
            seq![info("Generating domain XML"@), info("Defining libvirt domain"@)],
        )
        &&& r matches CreateAction::DefineDomain { xml } && exists|domain: Domain|
            describes_instance(domain, &o.instance_config(), &o.instance_paths(), id) && xml@
                == #[trigger] domain_xml(domain)
    }
    }
}

/// After the domain was defined: insert the record.
pub open spec fn insert_next(
    o: CreateWorkflow,
    f: CreateWorkflow,
    r: CreateAction,
    before: Seq<Seq<char>>,
    after: Seq<Seq<char>>,
) -> bool {
    &&& f.instance_id() == o.instance_id()
    &&& f.stage() == CreateStage::Inserting
    &&& f.step() == "Inserting instance into database"@
    &&& appends(
        before,
        after,
        seq![
            info("Defined domain with UUID "@ + o.instance_id()),
            info("Inserting instance into database"@),
        ],
    )
    &&& r matches CreateAction::InsertInstance { id } && id@ == o.instance_id()
}

/// After the record was inserted: the instance is created.
pub open spec fn created_next(
    o: CreateWorkflow,
    f: CreateWorkflow,
    r: CreateAction,
    before: Seq<Seq<char>>,
    after: Seq<Seq<char>>,
) -> bool {
    &&& f.stage() == CreateStage::Finished
    &&& appends(
        before,
        after,
        seq![info("Completed: registered new domain with UUID "@ + o.instance_id())],
    )
    &&& r matches CreateAction::Finish(Ok(CreateOutcome::Created { id })) && id@ == o.instance_id()
}

/// What follows a successful outside step: the next stage and its action,
/// or the end of the request.
pub open spec fn step_succeeded(
    o: CreateWorkflow,
    f: CreateWorkflow,
    r: CreateAction,
    before: Seq<Seq<char>>,
    after: Seq<Seq<char>>,
) -> bool {
    match o.stage() {
        CreateStage::WritingSeeds => disk_next(o, f, r, before, after),
        CreateStage::PreparingDisk => iso_next(o, f, r, before, after),
        CreateStage::PreparingIso => domain_next(o, f, r, before, after),
        CreateStage::Defining => insert_next(o, f, r, before, after),
        _ => created_next(o, f, r, before, after),
    }
}

/// The state of one create request.
pub struct CreateWorkflow {
    stage: CreateStage,
    operation: OperationLog,
    dry_run: bool,
    config: VmConfig,
    paths: InstancePaths,
    id: String,
}

fn copy_paths(paths: &InstancePaths) -> (r: InstancePaths)
    ensures
        r.cloud_image@ == paths.cloud_image@,
        r.disk@ == paths.disk@,
        r.seed_iso@ == paths.seed_iso@,
{
    InstancePaths {
        cloud_image: paths.cloud_image.clone(),
        disk: paths.disk.clone(),
        seed_iso: paths.seed_iso.clone(),
    }
}

impl CreateWorkflow {
    /// The outcome the workflow waits for.
    pub closed spec fn stage(&self) -> CreateStage {
        self.stage
    }

    /// The step that failure messages name.
    pub closed spec fn step(&self) -> Seq<char> {
        self.operation.current_step()
    }

    /// Whether this is a dry run.
    pub closed spec fn dry_run(&self) -> bool {
        self.dry_run
    }

    /// The instance settings.
    pub closed spec fn instance_config(&self) -> VmConfig {
        self.config
    }

    /// The instance files.
    pub closed spec fn instance_paths(&self) -> InstancePaths {
        self.paths
    }

    /// The UUID given to the domain (empty until the domain is generated).
    pub closed spec fn instance_id(&self) -> Seq<char> {
        self.id@
    }

    /// The instance settings, description trimmed.
    pub fn config(&self) -> (r: &VmConfig)
        ensures
            *r == self.instance_config(),
    {
        &self.config
    }

    /// Starts a create request for `config` (`dry_run` from `--dry`) with the
    /// files laid out by `storage`. The request is logged; the description must
    /// trim to at most 2000 characters without NUL and the hostname must be a
    /// single file name, else the request ends with `InvalidInput`. The first
    /// action is to take the hostname lock.
    pub fn start(
        logger: &mut Logger,
        config: VmConfig,
        dry_run: bool,
        storage: &StoragePaths,
    ) -> (r: Result<(CreateWorkflow, CreateAction), InstanceError>)
        ensures
            ({
                let hostname = config.instance.hostname@;
                let opening = opening_entries(hostname, dry_run);
                if !description_accepted(config.instance.description@) {
                    &&& r matches Err(e) && e.kind == ErrorKind::InvalidInput && e.message@
                        == description_message()
                    &&& appends(
                        old(logger)@,
                        final(logger)@,
                        opening.push(
                            failure_entry(
                                "Validating instance description"@,
                                ErrorKind::InvalidInput,
                                description_message(),
                            ),
                        ),
                    )
                } else if !is_single_file_name(hostname) {
                    &&& r matches Err(e) && e.kind == ErrorKind::InvalidInput && e.message@
                        == hostname_message()
                    &&& appends(
                        old(logger)@,
                        final(logger)@,
                        opening.push(info("Validating instance paths"@)).push(
                            failure_entry(
                                "Validating instance paths"@,
                                ErrorKind::InvalidInput,
                                hostname_message(),
                            ),
                        ),
                    )
                } else {
                    &&& r matches Ok((w, action)) && {
                        &&& w.stage() == CreateStage::Locking
                        &&& w.step() == "Validating instance paths"@
                        &&& w.dry_run() == dry_run
                        &&& kept_config(w.instance_config(), config)
                        &&& w.instance_paths().cloud_image@ == storage.cloud_image_path()
                        &&& w.instance_paths().disk@ == storage.disk_path(hostname)
                        &&& w.instance_paths().seed_iso@ == storage.seed_iso_path(hostname)
                        &&& w.instance_id() == Seq::<char>::empty()
                        &&& action matches CreateAction::AcquireLock { hostname: h } && h@
                            == hostname
                    }
                    &&& appends(
                        old(logger)@,
                        final(logger)@,
                        opening.push(info("Validating instance paths"@)),
                    )
                }
            }),
    {
        let ghost l0 = logger@;
        let ghost hostname = config.instance.hostname@;
        let ghost request = seq![info(request_message("create"@, Some(hostname)))];
        let ghost noted = if dry_run {
            request.push(info(dry_run_note()))
        } else {
            request
        };
        let mut operation = OperationLog::new(
            logger,
            "create",
            Some(config.instance.hostname.as_str()),
        );
        let ghost l1 = logger@;
        proof {
            lemma_appends_one(l0, l1, Severity::Info, request_message("create"@, Some(hostname)));
        }
        if dry_run {
            operation.info(
                logger,
                "Dry run: disk commands, domain definition, and database insertion will be skipped",
            );
        }
        let ghost l2 = logger@;
        proof {
            if dry_run {
                lemma_appends_push(l0, l1, l2, request, Severity::Info, dry_run_note());
            }
        }
        operation.step(logger, "Validating instance description");
        let ghost l3 = logger@;
        proof {
            lemma_appends_push(l0, l2, l3, noted, Severity::Info, "Validating instance description"@);
            assert(noted.push(info("Validating instance description"@)) =~= opening_entries(
                hostname,
                dry_run,
            ));
        }
        let description = match validate_description(config.instance.description.as_str()) {
            Ok(d) => d,
            Err(e) => {
                let error = operation_error(&operation, logger, e.kind, e.message.as_str());
                proof {
                    let failure = failure_entry(
                        "Validating instance description"@,
                        ErrorKind::InvalidInput,
                        description_message(),
                    );
                    lemma_appends_push(l0, l3, logger@, opening_entries(hostname, dry_run), failure.0, failure.1);
                }
                return Err(error);
            },
        };
        operation.step(logger, "Validating instance paths");
        let ghost l4 = logger@;
        proof {
            lemma_appends_push(l0, l3, l4, opening_entries(hostname, dry_run), Severity::Info, "Validating instance paths"@);
        }
        let paths = match storage.instance(config.instance.hostname.as_str()) {
            Ok(p) => p,
            Err(e) => {
                let error = operation_error(&operation, logger, ErrorKind::InvalidInput, e.as_str());
                proof {
                    let failure = failure_entry(
                        "Validating instance paths"@,
                        ErrorKind::InvalidInput,
                        hostname_message(),
                    );
                    lemma_appends_push(
                        l0,
                        l4,
                        logger@,
                        opening_entries(hostname, dry_run).push(info("Validating instance paths"@)),
                        failure.0,
                        failure.1,
                    );
                }
                return Err(error);
            },
        };
        let hostname_copy = config.instance.hostname.clone();
        let mut config = config;
        config.instance.description = description;
        let workflow = CreateWorkflow {
            stage: CreateStage::Locking,
            operation,
            dry_run,
            config,
            paths,
            id: String::new(),
        };
        Ok((workflow, CreateAction::AcquireLock { hostname: hostname_copy }))
    }

    /// Ends the request with an error of `kind` and `message`, logged as the
    /// failure of the current step.
    fn fail(&mut self, logger: &mut Logger, kind: ErrorKind, message: &str) -> (r: CreateAction)
        ensures
            final(self).stage() == CreateStage::Finished,
            final(self).step() == old(self).step(),
            final(self).dry_run() == old(self).dry_run(),
            final(self).instance_config() == old(self).instance_config(),
            final(self).instance_paths() == old(self).instance_paths(),
            final(self).instance_id() == old(self).instance_id(),
            fails_with(r, kind, message@),
            appends(
                old(logger)@,
                final(logger)@,
                seq![failure_entry(old(self).step(), kind, message@)],
            ),
    {
        let ghost l0 = logger@;
        let error = operation_error(&self.operation, logger, kind, message);
        proof {
            lemma_appends_one(l0, logger@, failure_severity(kind), failure_message(self.step(), message@));
        }
        self.stage = CreateStage::Finished;
        CreateAction::Finish(Err(error))
    }

    /// Moves to `step`, logging it, and waits at `stage`.
    fn enter(&mut self, logger: &mut Logger, stage: CreateStage, step: &str)
        ensures
            final(self).stage() == stage,
            final(self).step() == step@,
            final(self).dry_run() == old(self).dry_run(),
            final(self).instance_config() == old(self).instance_config(),
            final(self).instance_paths() == old(self).instance_paths(),
            final(self).instance_id() == old(self).instance_id(),
            appends(old(logger)@, final(logger)@, seq![info(step@)]),
    {
        let ghost l0 = logger@;
        self.operation.step(logger, step);
        proof {
            lemma_appends_one(l0, logger@, Severity::Info, step@);
        }
        self.stage = stage;
    }

    /// Decides what follows `event`, the outcome of the last action, and logs
    /// the steps it moves through.
    pub fn advance(&mut self, logger: &mut Logger, event: CreateEvent) -> (r: CreateAction)
        requires
            awaits(old(self).stage(), event),
        ensures
            final(self).dry_run() == old(self).dry_run(),
            final(self).instance_config() == old(self).instance_config(),
            final(self).instance_paths() == old(self).instance_paths(),
            old(self).stage() != CreateStage::PreparingIso ==> final(self).instance_id()
                == old(self).instance_id(),
            ({
                let o = *old(self);
                let f = *final(self);
                let before = old(logger)@;
                let after = final(logger)@;
                let config = o.instance_config();
                match event {
                    CreateEvent::Lock(free) => if free {
                        &&& f.stage() == CreateStage::CheckingStorage
                        &&& f.step() == o.step()
                        &&& appends(before, after, Seq::empty())
                        &&& r matches CreateAction::CheckStorage { hostname, disk, seed_iso } && {
                            &&& hostname@ == config.instance.hostname@
                            &&& disk@ == o.instance_paths().disk@
                            &&& seed_iso@ == o.instance_paths().seed_iso@
                        }
                    } else {
                        finished_with(f, r, before, after, o.step(), ErrorKind::Conflict, BUSY_MESSAGE@)
                    },
                    CreateEvent::Storage(Err(e)) => finished_with(
                        f,
                        r,
                        before,
                        after,
                        o.step(),
                        ErrorKind::Internal,
                        e@,
                    ),
                    CreateEvent::Storage(Ok(taken)) => if taken {
                        finished_with(f, r, before, after, o.step(), ErrorKind::Conflict, taken_message())
                    } else {
                        &&& f.stage() == CreateStage::ReadingDefaults
                        &&& f.step() == "Reading guest defaults"@
                        &&& appends(before, after, seq![info("Reading guest defaults"@)])
                        &&& r is ReadDefaults
                    },
                    CreateEvent::Defaults(Err(e)) => finished_with(
                        f,
                        r,
                        before,
                        after,
                        o.step(),
                        ErrorKind::Internal,
                        e@,
                    ),
                    CreateEvent::Defaults(Ok(defaults)) => if config.user.name@
                        == RESERVED_USER_NAME@ {
                        finished_with(f, r, before, after, o.step(), ErrorKind::InvalidInput, reserved_message())
                    } else {
                        &&& f.stage() == CreateStage::WritingSeeds
                        &&& f.step() == "Writing temporary seed files"@
                        &&& appends(
                            before,
                            after,
                            seq![
                                info("Generating cloud-init data"@),
                                info("Writing temporary seed files"@),
                            ],
                        )
                        &&& r matches CreateAction::WriteSeeds {
                            user_data,
                            network_config,
                            meta_data,
                        } && {
                            &&& user_data@ == interpolate(
                                USER_DATA_SEED@,
                                user_bindings(&config, defaults.sysadmin_ssh_key@),
                            )
                            &&& network_config@ == interpolate(
                                NETWORK_CONFIG_SEED@,
                                network_bindings(&config, defaults.gateway_ip),
                            )
                            &&& meta_data@ == interpolate(
                                META_DATA_SEED@,
                                seq![("vm"@, config.instance.hostname@)],
                            )
                        }
                    },
                    CreateEvent::Done(Err(e)) => finished_with(
                        f,
                        r,
                        before,
                        after,
                        o.step(),
                        ErrorKind::Internal,
                        e@,
                    ),
                    CreateEvent::Done(Ok(())) => step_succeeded(o, f, r, before, after),
                }
            }),
    {
        let ghost l0 = logger@;
        match event {
            CreateEvent::Lock(free) => {
                if free {
                    self.stage = CreateStage::CheckingStorage;
                    proof {
                        lemma_appends_nothing(l0);
                    }
                    CreateAction::CheckStorage {
                        hostname: self.config.instance.hostname.clone(),
                        disk: self.paths.disk.clone(),
                        seed_iso: self.paths.seed_iso.clone(),
                    }
                } else {
                    self.fail(logger, ErrorKind::Conflict, BUSY_MESSAGE)
                }
            },
            CreateEvent::Storage(Err(e)) => self.fail(logger, ErrorKind::Internal, e.as_str()),
            CreateEvent::Storage(Ok(taken)) => {
                if taken {
                    self.fail(
                        logger,
                        ErrorKind::Conflict,
                        "This hostname or its storage already exists. Choose another hostname.",
                    )
                } else {
                    self.enter(logger, CreateStage::ReadingDefaults, "Reading guest defaults");
                    CreateAction::ReadDefaults
                }
            },
            CreateEvent::Defaults(Err(e)) => self.fail(logger, ErrorKind::Internal, e.as_str()),
            CreateEvent::Defaults(Ok(defaults)) => {
                if str_eq(self.config.user.name.as_str(), RESERVED_USER_NAME) {
                    return self.fail(
                        logger,
                        ErrorKind::InvalidInput,
                        "The username sysadmin is reserved for the configured system administrator.",
                    );
                }
                self.enter(logger, CreateStage::WritingSeeds, "Generating cloud-init data");
                let ghost l1 = logger@;
                let user_data = user_seed(&self.config, defaults.sysadmin_ssh_key.as_str());
                let network_config = network_config_seed(&self.config, defaults.gateway_ip);
                let meta_data = metadata_seed(&self.config);
                self.enter(logger, CreateStage::WritingSeeds, "Writing temporary seed files");
                proof {
                    lemma_appends_then(l0, l1, logger@, seq![info("Generating cloud-init data"@)], info("Writing temporary seed files"@));
                    assert(seq![info("Generating cloud-init data"@)].push(info("Writing temporary seed files"@)) =~= seq![
                        info("Generating cloud-init data"@),
                        info("Writing temporary seed files"@),
                    ]);
                }
                CreateAction::WriteSeeds { user_data, network_config, meta_data }
            },
            CreateEvent::Done(Err(e)) => self.fail(logger, ErrorKind::Internal, e.as_str()),
            CreateEvent::Done(Ok(())) => self.after_success(logger),
        }
    }

    /// The seed files are written: prepare the disk.
    fn prepare_disk(&mut self, logger: &mut Logger) -> (r: CreateAction)
        requires
            old(self).stage() == CreateStage::WritingSeeds,
        ensures
            final(self).dry_run() == old(self).dry_run(),
            final(self).instance_config() == old(self).instance_config(),
            final(self).instance_paths() == old(self).instance_paths(),
            final(self).instance_id() == old(self).instance_id(),
            disk_next(*old(self), *final(self), r, old(logger)@, final(logger)@),
    {
        self.enter(logger, CreateStage::PreparingDisk, "Preparing instance disk");
        CreateAction::CreateImage {
            paths: copy_paths(&self.paths),
            size_mib: self.config.instance.disk_size,
            dry_run: self.dry_run,
        }
    }

    /// The disk is prepared: make the seed ISO.
    fn prepare_iso(&mut self, logger: &mut Logger) -> (r: CreateAction)
        requires
            old(self).stage() == CreateStage::PreparingDisk,
        ensures
            final(self).dry_run() == old(self).dry_run(),
            final(self).instance_config() == old(self).instance_config(),
            final(self).instance_paths() == old(self).instance_paths(),
            final(self).instance_id() == old(self).instance_id(),
            iso_next(*old(self), *final(self), r, old(logger)@, final(logger)@),
    {
        self.enter(logger, CreateStage::PreparingIso, "Preparing cloud-init ISO");
        CreateAction::CreateIso { paths: copy_paths(&self.paths), dry_run: self.dry_run }
    }

    /// The seed ISO is made: generate the domain and define it, unless this is a dry run.
    #[verifier::rlimit(50)]
    fn prepare_domain(&mut self, logger: &mut Logger) -> (r: CreateAction)
        requires
            old(self).stage() == CreateStage::PreparingIso,
        ensures
            final(self).dry_run() == old(self).dry_run(),
            final(self).instance_config() == old(self).instance_config(),
            final(self).instance_paths() == old(self).instance_paths(),
            domain_next(*old(self), *final(self), r, old(logger)@, final(logger)@),
    {
        let ghost l0 = logger@;
        self.enter(logger, CreateStage::PreparingIso, "Generating domain XML");
        let ghost l1 = logger@;
        let (xml, id) = match generate_domain(&self.config, &self.paths) {
            Ok(generated) => generated,
            Err(e) => {
                let r = self.fail(logger, ErrorKind::Internal, e.as_str());
                proof {
                    let failure = failure_entry(
                        "Generating domain XML"@,
                        ErrorKind::Internal,
                        uuid_failure_message(),
                    );
                    lemma_appends_then(l0, l1, logger@, seq![info("Generating domain XML"@)], failure);
                    assert(seq![info("Generating domain XML"@)].push(failure) =~= seq![
                        info("Generating domain XML"@),
                        failure,
                    ]);
                }
                return r;
            },
        };
        self.id = id;
        if self.dry_run {
            let mut message = String::from_str(
                "Completed dry run: would define and register domain with UUID ",
            );
            message.append(self.id.as_str());
            self.operation.info(logger, message.as_str());
            proof {
                lemma_appends_push(l0, l1, logger@, seq![info("Generating domain XML"@)], Severity::Info, message@);
                assert(seq![info("Generating domain XML"@)].push(info(message@)) =~= seq![
                    info("Generating domain XML"@),
                    info(message@),
                ]);
            }
            self.stage = CreateStage::Finished;
            CreateAction::Finish(Ok(CreateOutcome::DryRun))
        } else {
            self.enter(logger, CreateStage::Defining, "Defining libvirt domain");
            proof {
                lemma_appends_then(l0, l1, logger@, seq![info("Generating domain XML"@)], info("Defining libvirt domain"@));
                assert(seq![info("Generating domain XML"@)].push(info("Defining libvirt domain"@)) =~= seq![
                    info("Generating domain XML"@),
                    info("Defining libvirt domain"@),
                ]);
            }
            CreateAction::DefineDomain { xml }
        }
    }

    /// The domain is defined: insert the record.
    fn insert_record(&mut self, logger: &mut Logger) -> (r: CreateAction)
        requires
            old(self).stage() == CreateStage::Defining,
        ensures
            final(self).dry_run() == old(self).dry_run(),
            final(self).instance_config() == old(self).instance_config(),
            final(self).instance_paths() == old(self).instance_paths(),
            final(self).instance_id() == old(self).instance_id(),
            insert_next(*old(self), *final(self), r, old(logger)@, final(logger)@),
    {
        let ghost l0 = logger@;
        let mut message = String::from_str("Defined domain with UUID ");
        message.append(self.id.as_str());
        self.operation.info(logger, message.as_str());
        let ghost l1 = logger@;
        proof {
            lemma_appends_one(l0, l1, Severity::Info, message@);
        }
        self.enter(logger, CreateStage::Inserting, "Inserting instance into database");
        proof {
            lemma_appends_then(l0, l1, logger@, seq![info(message@)], info("Inserting instance into database"@));
            assert(seq![info(message@)].push(info("Inserting instance into database"@)) =~= seq![
                info(message@),
                info("Inserting instance into database"@),
            ]);
        }
        CreateAction::InsertInstance { id: self.id.clone() }
    }

    /// The record is inserted: the instance is created.
    fn complete(&mut self, logger: &mut Logger) -> (r: CreateAction)
        requires
            old(self).stage() == CreateStage::Inserting,
        ensures
            final(self).dry_run() == old(self).dry_run(),
            final(self).instance_config() == old(self).instance_config(),
            final(self).instance_paths() == old(self).instance_paths(),
            final(self).instance_id() == old(self).instance_id(),
            created_next(*old(self), *final(self), r, old(logger)@, final(logger)@),
    {
        let ghost l0 = logger@;
        let mut message = String::from_str("Completed: registered new domain with UUID ");
        message.append(self.id.as_str());
        self.operation.info(logger, message.as_str());
        proof {
            lemma_appends_one(l0, logger@, Severity::Info, message@);
        }
        self.stage = CreateStage::Finished;
        CreateAction::Finish(Ok(CreateOutcome::Created { id: self.id.clone() }))
    }

    /// What follows when the outside step of the current stage succeeded.
    fn after_success(&mut self, logger: &mut Logger) -> (r: CreateAction)
        requires
            old(self).stage() != CreateStage::Locking,
            old(self).stage() != CreateStage::CheckingStorage,
            old(self).stage() != CreateStage::ReadingDefaults,
            old(self).stage() != CreateStage::Finished,
        ensures
            final(self).dry_run() == old(self).dry_run(),
            final(self).instance_config() == old(self).instance_config(),
            final(self).instance_paths() == old(self).instance_paths(),
            old(self).stage() != CreateStage::PreparingIso ==> final(self).instance_id()
                == old(self).instance_id(),
            step_succeeded(*old(self), *final(self), r, old(logger)@, final(logger)@),
    {
        match self.stage {
            CreateStage::WritingSeeds => self.prepare_disk(logger),
            CreateStage::PreparingDisk => self.prepare_iso(logger),
            CreateStage::PreparingIso => self.prepare_domain(logger),
            CreateStage::Defining => self.insert_record(logger),
            _ => self.complete(logger),
        }
    }
}

/// A created instance is registered under the UUID of the domain that was
/// defined for it: once the domain is to be defined after the seed ISO, it has
/// a fresh UUID, the record is inserted under that UUID, and the request
/// answers with it.
pub proof fn lemma_registered_under_the_domain_uuid(
    w0: CreateWorkflow,
    w1: CreateWorkflow,
    w2: CreateWorkflow,
    w3: CreateWorkflow,
    a1: CreateAction,
    a2: CreateAction,
    a3: CreateAction,
    l0: Seq<Seq<char>>,
    l1: Seq<Seq<char>>,
    l2: Seq<Seq<char>>,
    l3: Seq<Seq<char>>,
)
    requires
        w0.stage() == CreateStage::PreparingIso,
        !w0.dry_run(),
        a1 is DefineDomain,
        step_succeeded(w0, w1, a1, l0, l1),
        step_succeeded(w1, w2, a2, l1, l2),
        step_succeeded(w2, w3, a3, l2, l3),
    ensures
        is_uuid_v4_text(w1.instance_id()),
        a1 matches CreateAction::DefineDomain { xml } && exists|domain: Domain|
            describes_instance(domain, &w0.instance_config(), &w0.instance_paths(), w1.instance_id())
                && xml@ == #[trigger] domain_xml(domain),
        a2 matches CreateAction::InsertInstance { id } && id@ == w1.instance_id(),
        a3 matches CreateAction::Finish(Ok(CreateOutcome::Created { id })) && id@
            == w1.instance_id(),
{
}

} // verus!
