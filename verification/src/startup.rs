//! Preparing the host before the server starts: the decisions between the
//! outside steps (directories, the cloud image, the libvirt connection and
//! network, the log folder and the database).
//!
//! A failed step ends start-up with the step's context followed by the cause,
//! which the caller logs as fatal.
use vstd::prelude::*;

use crate::config::Flags;
use crate::instances::info;
use crate::libvirt::{USERS_NETWORK, USERS_NETWORK_XML};
use crate::logging::{appends, lemma_appends_one, lemma_appends_then, log_message, Logger, Severity};
use crate::paths::{StoragePaths, DATABASE_FILE, DATA_DIRECTORY, LOG_DIRECTORY};
use crate::text::str_eq;

verus! {

/// Where the Arch Linux cloud image is downloaded from.
pub const ARCH_DOWNLOAD_URL: &'static str =
    "https://fastly.mirror.pkgbuild.com/images/latest/Arch-Linux-x86_64-cloudimg.qcow2";

/// Where start-up stands: the outcome it waits for, or finished.
#[derive(Clone, Copy, Debug)]
pub enum StartupStage {
    CreatingDirectories,
    CheckingImage,
    Downloading,
    Connecting,
    FindingNetwork,
    DefiningNetwork,
    CheckingNetworkActive,
    StartingNetwork,
    CheckingAutostart,
    SettingAutostart,
    CreatingLogFolder,
    CreatingDataFolder,
    OpeningDatabase,
    Finished,
}

/// The outcome of the last action.
pub enum StartupEvent {
    /// The step succeeded, or why it failed.
    Done(Result<(), String>),
    /// Whether the cloud image file, or the users network, exists.
    Present(bool),
    /// Whether the network is active, or starts on boot; or why that could not
    /// be found out.
    Flag(Result<bool, String>),
}

/// What the caller does next.
pub enum StartupAction {
    /// Create the three storage directories (and their parents).
    CreateDirectories { templates: String, seeds: String, instances: String },
    /// Find out whether the cloud image file exists.
    CheckImage { path: String },
    /// Download `url` into `path`.
    DownloadImage { url: String, path: String },
    /// Open the libvirt connection.
    Connect { uri: String },
    /// Look up the libvirt network; a failed lookup counts as absent.
    FindNetwork { name: String },
    /// Define the network from `xml`.
    DefineNetwork { xml: String },
    CheckNetworkActive,
    StartNetwork,
    CheckAutostart,
    SetAutostart,
    /// Create the directory (and its parents).
    CreateDirectory { path: String },
    /// Open the database at `path` and apply its migrations.
    OpenDatabase { path: String },
    /// Start-up is over: ready, or the fatal error.
    Finish(Result<(), String>),
}

/// The event that start-up at `stage` waits for.
pub open spec fn awaits(stage: StartupStage, event: StartupEvent) -> bool {
    match stage {
        StartupStage::CheckingImage | StartupStage::FindingNetwork => event is Present,
        StartupStage::CheckingNetworkActive | StartupStage::CheckingAutostart => event is Flag,
        StartupStage::Finished => false,
        _ => event is Done,
    }
}

/// A failure: the context of the failed step, then its cause.
pub open spec fn in_context(context: Seq<char>, cause: Seq<char>) -> Seq<char> {
    context + ": "@ + cause
}

/// The context of a failure at `stage`.
pub open spec fn stage_context(stage: StartupStage) -> Seq<char> {
    match stage {
        StartupStage::CreatingDirectories => "Error when creating libvirt directories"@,
        StartupStage::CheckingImage | StartupStage::Downloading => "Failed to pull Arch cloud image"@,
        StartupStage::Connecting => "Failed to connect to qemu"@,
        StartupStage::CreatingLogFolder => "Error when checking log folder"@,
        StartupStage::CreatingDataFolder | StartupStage::OpeningDatabase => "Failed to open database"@,
        _ => "Error when checking virtual network"@,
    }
}

/// Start-up ended with the failure of the step at `stage` because of `cause`.
pub open spec fn failed_at(
    stage: StartupStage,
    f: Startup,
    r: StartupAction,
    before: Seq<Seq<char>>,
    after: Seq<Seq<char>>,
    cause: Seq<char>,
) -> bool {
    &&& f.stage() == StartupStage::Finished
    &&& r matches StartupAction::Finish(Err(e)) && e@ == in_context(stage_context(stage), cause)
    &&& after == before
}

/// The message that announces the connection to `uri`.
pub open spec fn connecting_message(uri: Seq<char>) -> Seq<char> {
    "Connecting to "@ + uri + " to verify network"@
}

/// The message that announces the creation of `directory`.
pub open spec fn creating_message(directory: Seq<char>) -> Seq<char> {
    "Creating "@ + directory + " if it doesn't already exist"@
}

/// Start-up moved on to `stage`, logging `messages`.
pub open spec fn moved(
    f: Startup,
    before: Seq<Seq<char>>,
    after: Seq<Seq<char>>,
    stage: StartupStage,
    messages: Seq<(Severity, Seq<char>)>,
) -> bool {
    &&& f.stage() == stage
    &&& appends(before, after, messages)
}

/// After the cloud image is in place: connect to libvirt.
pub open spec fn connect_next(
    o: Startup,
    f: Startup,
    r: StartupAction,
    before: Seq<Seq<char>>,
    after: Seq<Seq<char>>,
    first: Seq<(Severity, Seq<char>)>,
) -> bool {
    &&& moved(
        f,
        before,
        after,
        StartupStage::Connecting,
        first.push(info(connecting_message(o.uri()))),
    )
    &&& r matches StartupAction::Connect { uri } && uri@ == o.uri()
}

/// After the network starts on boot: create the log folder.
pub open spec fn log_folder_next(
    f: Startup,
    r: StartupAction,
    before: Seq<Seq<char>>,
    after: Seq<Seq<char>>,
    first: Seq<(Severity, Seq<char>)>,
) -> bool {
    &&& moved(
        f,
        before,
        after,
        StartupStage::CreatingLogFolder,
        first.push(info(creating_message(LOG_DIRECTORY@))),
    )
    &&& r matches StartupAction::CreateDirectory { path } && path@ == LOG_DIRECTORY@
}

/// What start-up does after `event` at the stage it waited at.
pub open spec fn startup_next(
    o: Startup,
    f: Startup,
    r: StartupAction,
    before: Seq<Seq<char>>,
    after: Seq<Seq<char>>,
    event: StartupEvent,
) -> bool {
    let failed = |cause: Seq<char>| failed_at(o.stage(), f, r, before, after, cause);
    match event {
        StartupEvent::Done(Err(e)) => failed(e@),
        StartupEvent::Flag(Err(e)) => failed(e@),
        StartupEvent::Done(Ok(())) => match o.stage() {
            StartupStage::CreatingDirectories => {
                &&& moved(
                    f,
                    before,
                    after,
                    StartupStage::CheckingImage,
                    seq![info("Verifying Arch cloud image"@)],
                )
                &&& r matches StartupAction::CheckImage { path } && path@
                    == o.storage().cloud_image_path()
            },
            StartupStage::Downloading => connect_next(
                o,
                f,
                r,
                before,
                after,
                seq![info("Arch cloud image download complete"@)],
            ),
            StartupStage::Connecting => {
                &&& moved(
                    f,
                    before,
                    after,
                    StartupStage::FindingNetwork,
                    seq![info("Verifying virtual andromeda-users network"@)],
                )
                &&& r matches StartupAction::FindNetwork { name } && name@ == USERS_NETWORK@
            },
            StartupStage::DefiningNetwork | StartupStage::StartingNetwork => {
                let stage = if o.stage() is DefiningNetwork {
                    StartupStage::CheckingNetworkActive
                } else {
                    StartupStage::CheckingAutostart
                };
                &&& moved(f, before, after, stage, Seq::empty())
                &&& if o.stage() is DefiningNetwork {
                    r is CheckNetworkActive
                } else {
                    r is CheckAutostart
                }
            },
            StartupStage::SettingAutostart => log_folder_next(f, r, before, after, Seq::empty()),
            StartupStage::CreatingLogFolder => {
                &&& moved(
                    f,
                    before,
                    after,
                    StartupStage::CreatingDataFolder,
                    seq![info("Preflight complete"@), info(creating_message(DATA_DIRECTORY@))],
                )
                &&& r matches StartupAction::CreateDirectory { path } && path@ == DATA_DIRECTORY@
            },
            StartupStage::CreatingDataFolder => {
                &&& moved(
                    f,
                    before,
                    after,
                    StartupStage::OpeningDatabase,
                    seq![info("Connecting to "@ + DATABASE_FILE@)],
                )
                &&& r matches StartupAction::OpenDatabase { path } && path@ == DATABASE_FILE@
            },
            _ => {
                &&& moved(
                    f,
                    before,
                    after,
                    StartupStage::Finished,
                    seq![info("Database connected and migrations applied"@)],
                )
                &&& r matches StartupAction::Finish(Ok(()))
            },
        },
        StartupEvent::Present(present) => if o.stage() is CheckingImage {
            if present && !o.update_image() {
                connect_next(
                    o,
                    f,
                    r,
                    before,
                    after,
                    seq![
                        info(
                            "Skipping Arch cloud image download. To update, rerun with --update-image"@,
                        ),
                    ],
                )
            } else {
                &&& moved(
                    f,
                    before,
                    after,
                    StartupStage::Downloading,
                    if present {
                        Seq::empty()
                    } else {
                        seq![info("Arch cloud image missing, downloading image"@)]
                    },
                )
                &&& r matches StartupAction::DownloadImage { url, path } && url@
                    == ARCH_DOWNLOAD_URL@ && path@ == o.storage().cloud_image_path()
            }
        } else if present {
            &&& moved(f, before, after, StartupStage::CheckingNetworkActive, Seq::empty())
            &&& r is CheckNetworkActive
        } else {
            &&& moved(
                f,
                before,
                after,
                StartupStage::DefiningNetwork,
                seq![info("Virtual network andromeda-users does not exist, creating"@)],
            )
            &&& r matches StartupAction::DefineNetwork { xml } && xml@ == USERS_NETWORK_XML@
        },
        StartupEvent::Flag(Ok(on)) => if o.stage() is CheckingNetworkActive {
            if on {
                &&& moved(f, before, after, StartupStage::CheckingAutostart, Seq::empty())
                &&& r is CheckAutostart
            } else {
                &&& moved(
                    f,
                    before,
                    after,
                    StartupStage::StartingNetwork,
                    seq![info("Virtual network andromeda-users is not active, starting"@)],
                )
                &&& r is StartNetwork
            }
        } else if on {
            log_folder_next(f, r, before, after, Seq::empty())
        } else {
            &&& moved(
                f,
                before,
                after,
                StartupStage::SettingAutostart,
                seq![info("Marking virtual network andromeda-users as auto-start"@)],
            )
            &&& r is SetAutostart
        },
    }
}

/// The state of start-up.
pub struct Startup {
    stage: StartupStage,
    update_image: bool,
    storage: StoragePaths,
    uri: String,
}

/// Logs `message` as information.
fn say(logger: &mut Logger, message: &str)
    ensures
        appends(old(logger)@, final(logger)@, seq![info(message@)]),
{
    let ghost l0 = logger@;
    log_message(logger, Severity::Info, message);
    proof {
        lemma_appends_one(l0, logger@, Severity::Info, message@);
    }
}

/// `context: cause`.
fn in_context_exec(context: &str, cause: &str) -> (r: String)
    ensures
        r@ == in_context(context@, cause@),
{
    let mut r = String::from_str(context);
    r.append(": ");
    r.append(cause);
    r
}

impl Startup {
    /// The outcome start-up waits for.
    pub closed spec fn stage(&self) -> StartupStage {
        self.stage
    }

    /// Whether the cloud image is downloaded again even if present.
    pub closed spec fn update_image(&self) -> bool {
        self.update_image
    }

    /// The storage layout.
    pub closed spec fn storage(&self) -> StoragePaths {
        self.storage
    }

    /// The libvirt connection URI.
    pub closed spec fn uri(&self) -> Seq<char> {
        self.uri@
    }

    /// Starts preparing the host for the user named by `$USER` (or why the
    /// variable could not be read), which must be `root`. The storage
    /// directories are created first.
    pub fn start(
        logger: &mut Logger,
        user: Result<String, String>,
        flags: Flags,
        storage: StoragePaths,
        uri: &str,
    ) -> (r: Result<(Startup, StartupAction), String>)
        ensures
            match user {
                Err(e) => r matches Err(m) && m@ == in_context("$USER is not defined"@, e@)
                    && final(logger)@ == old(logger)@,
                Ok(name) => if name@ != "root"@ {
                    &&& r matches Err(m) && m@ == "This program must be run as root."@
                    &&& final(logger)@ == old(logger)@
                } else {
                    &&& r matches Ok((s, action)) && {
                        &&& s.stage() == StartupStage::CreatingDirectories
                        &&& s.update_image() == flags.update_image
                        &&& s.storage() == storage
                        &&& s.uri() == uri@
                        &&& action matches StartupAction::CreateDirectories {
                            templates,
                            seeds,
                            instances,
                        } && templates@ == storage.templates_path() && seeds@
                            == storage.seeds_path() && instances@ == storage.instances_path()
                    }
                    &&& appends(
                        old(logger)@,
                        final(logger)@,
                        seq![info("Verifying libvirt directories"@)],
                    )
                },
            },
    {
        let name = match user {
            Err(e) => {
                return Err(in_context_exec("$USER is not defined", e.as_str()));
            },
            Ok(name) => name,
        };
        if !str_eq(name.as_str(), "root") {
            return Err(String::from_str("This program must be run as root."));
        }
        say(logger, "Verifying libvirt directories");
        let action = StartupAction::CreateDirectories {
            templates: storage.templates(),
            seeds: storage.seeds(),
            instances: storage.instances(),
        };
        Ok(
            (
                Startup {
                    stage: StartupStage::CreatingDirectories,
                    update_image: flags.update_image,
                    storage,
                    uri: String::from_str(uri),
                },
                action,
            ),
        )
    }

    /// Logs the connection and asks for it.
    fn connect(&mut self, logger: &mut Logger) -> (r: StartupAction)
        ensures
            final(self).update_image() == old(self).update_image(),
            final(self).storage() == old(self).storage(),
            final(self).uri() == old(self).uri(),
            connect_next(*old(self), *final(self), r, old(logger)@, final(logger)@, Seq::empty()),
    {
        let mut message = String::from_str("Connecting to ");
        message.append(self.uri.as_str());
        message.append(" to verify network");
        say(logger, message.as_str());
        self.stage = StartupStage::Connecting;
        StartupAction::Connect { uri: self.uri.clone() }
    }

    /// Logs the creation of the log folder and asks for it.
    fn log_folder(&mut self, logger: &mut Logger) -> (r: StartupAction)
        ensures
            final(self).update_image() == old(self).update_image(),
            final(self).storage() == old(self).storage(),
            final(self).uri() == old(self).uri(),
            log_folder_next(*final(self), r, old(logger)@, final(logger)@, Seq::empty()),
    {
        let mut message = String::from_str("Creating ");
        message.append(LOG_DIRECTORY);
        message.append(" if it doesn't already exist");
        say(logger, message.as_str());
        self.stage = StartupStage::CreatingLogFolder;
        StartupAction::CreateDirectory { path: String::from_str(LOG_DIRECTORY) }
    }

    /// Waits at `stage` without logging.
    fn wait(&mut self, logger: &Logger, stage: StartupStage)
        ensures
            final(self).stage() == stage,
            final(self).update_image() == old(self).update_image(),
            final(self).storage() == old(self).storage(),
            final(self).uri() == old(self).uri(),
            appends(logger@, logger@, Seq::empty()),
    {
        proof {
            crate::logging::lemma_appends_nothing(logger@);
        }
        self.stage = stage;
    }

    /// Logs `message` and waits at `stage`.
    fn announce(&mut self, logger: &mut Logger, stage: StartupStage, message: &str)
        ensures
            final(self).stage() == stage,
            final(self).update_image() == old(self).update_image(),
            final(self).storage() == old(self).storage(),
            final(self).uri() == old(self).uri(),
            appends(old(logger)@, final(logger)@, seq![info(message@)]),
    {
        say(logger, message);
        self.stage = stage;
    }

    /// Decides what follows `event`, the outcome of the last action.
    pub fn advance(&mut self, logger: &mut Logger, event: StartupEvent) -> (r: StartupAction)
        requires
            awaits(old(self).stage(), event),
        ensures
            final(self).update_image() == old(self).update_image(),
            final(self).storage() == old(self).storage(),
            final(self).uri() == old(self).uri(),
            startup_next(*old(self), *final(self), r, old(logger)@, final(logger)@, event),
    {
        let ghost l0 = logger@;
        let context = match self.stage {
            StartupStage::CreatingDirectories => "Error when creating libvirt directories",
            StartupStage::CheckingImage | StartupStage::Downloading => "Failed to pull Arch cloud image",
            StartupStage::Connecting => "Failed to connect to qemu",
            StartupStage::CreatingLogFolder => "Error when checking log folder",
            StartupStage::CreatingDataFolder | StartupStage::OpeningDatabase => "Failed to open database",
            _ => "Error when checking virtual network",
        };
        match event {
            StartupEvent::Done(Err(e)) | StartupEvent::Flag(Err(e)) => {
                self.stage = StartupStage::Finished;
                StartupAction::Finish(Err(in_context_exec(context, e.as_str())))
            },
            StartupEvent::Done(Ok(())) => match self.stage {
                StartupStage::CreatingDirectories => {
                    self.announce(logger, StartupStage::CheckingImage, "Verifying Arch cloud image");
                    StartupAction::CheckImage { path: self.storage.cloud_image() }
                },
                StartupStage::Downloading => {
                    say(logger, "Arch cloud image download complete");
                    let ghost l1 = logger@;
                    let r = self.connect(logger);
                    proof {
                        lemma_appends_then(
                            l0,
                            l1,
                            logger@,
                            seq![info("Arch cloud image download complete"@)],
                            info(connecting_message(self.uri())),
                        );
                    }
                    r
                },
                StartupStage::Connecting => {
                    self.announce(
                        logger,
                        StartupStage::FindingNetwork,
                        "Verifying virtual andromeda-users network",
                    );
                    StartupAction::FindNetwork { name: String::from_str(USERS_NETWORK) }
                },
                StartupStage::DefiningNetwork => {
                    self.wait(logger, StartupStage::CheckingNetworkActive);
                    StartupAction::CheckNetworkActive
                },
                StartupStage::StartingNetwork => {
                    self.wait(logger, StartupStage::CheckingAutostart);
                    StartupAction::CheckAutostart
                },
                StartupStage::SettingAutostart => self.log_folder(logger),
                StartupStage::CreatingLogFolder => {
                    say(logger, "Preflight complete");
                    let ghost l1 = logger@;
                    let mut message = String::from_str("Creating ");
                    message.append(DATA_DIRECTORY);
                    message.append(" if it doesn't already exist");
                    self.announce(logger, StartupStage::CreatingDataFolder, message.as_str());
                    proof {
                        lemma_appends_then(
                            l0,
                            l1,
                            logger@,
                            seq![info("Preflight complete"@)],
                            info(message@),
                        );
                        assert(seq![info("Preflight complete"@)].push(info(message@)) =~= seq![
                            info("Preflight complete"@),
                            info(creating_message(DATA_DIRECTORY@)),
                        ]);
                    }
                    StartupAction::CreateDirectory { path: String::from_str(DATA_DIRECTORY) }
                },
                StartupStage::CreatingDataFolder => {
                    let mut message = String::from_str("Connecting to ");
                    message.append(DATABASE_FILE);
                    self.announce(logger, StartupStage::OpeningDatabase, message.as_str());
                    StartupAction::OpenDatabase { path: String::from_str(DATABASE_FILE) }
                },
                _ => {
                    self.announce(
                        logger,
                        StartupStage::Finished,
                        "Database connected and migrations applied",
                    );
                    StartupAction::Finish(Ok(()))
                },
            },
            StartupEvent::Present(present) => {
                if matches!(self.stage, StartupStage::CheckingImage) {
                    if present && !self.update_image {
                        say(
                            logger,
                            "Skipping Arch cloud image download. To update, rerun with --update-image",
                        );
                        let ghost l1 = logger@;
                        let r = self.connect(logger);
                        proof {
                            lemma_appends_then(
                                l0,
                                l1,
                                logger@,
                                seq![
                                    info(
                                        "Skipping Arch cloud image download. To update, rerun with --update-image"@,
                                    ),
                                ],
                                info(connecting_message(self.uri())),
                            );
                        }
                        r
                    } else {
                        if present {
                            self.wait(logger, StartupStage::Downloading);
                        } else {
                            self.announce(
                                logger,
                                StartupStage::Downloading,
                                "Arch cloud image missing, downloading image",
                            );
                        }
                        StartupAction::DownloadImage {
                            url: String::from_str(ARCH_DOWNLOAD_URL),
                            path: self.storage.cloud_image(),
                        }
                    }
                } else if present {
                    self.wait(logger, StartupStage::CheckingNetworkActive);
                    StartupAction::CheckNetworkActive
                } else {
                    self.announce(
                        logger,
                        StartupStage::DefiningNetwork,
                        "Virtual network andromeda-users does not exist, creating",
                    );
                    StartupAction::DefineNetwork { xml: String::from_str(USERS_NETWORK_XML) }
                }
            },
            StartupEvent::Flag(Ok(on)) => {
                if matches!(self.stage, StartupStage::CheckingNetworkActive) {
                    if on {
                        self.wait(logger, StartupStage::CheckingAutostart);
                        StartupAction::CheckAutostart
                    } else {
                        self.announce(
                            logger,
                            StartupStage::StartingNetwork,
                            "Virtual network andromeda-users is not active, starting",
                        );
                        StartupAction::StartNetwork
                    }
                } else if on {
                    self.log_folder(logger)
                } else {
                    self.announce(
                        logger,
                        StartupStage::SettingAutostart,
                        "Marking virtual network andromeda-users as auto-start",
                    );
                    StartupAction::SetAutostart
                }
            },
        }
    }
}

/// Start-up succeeds only as the last of its steps: `Finish(Ok(()))` comes
/// only after the database was opened (the `OpeningDatabase` stage, whose
/// `OpenDatabase` action succeeded), never straight from an earlier step.
pub proof fn lemma_ready_only_after_database(
    o: Startup,
    f: Startup,
    r: StartupAction,
    before: Seq<Seq<char>>,
    after: Seq<Seq<char>>,
    event: StartupEvent,
)
    requires
        awaits(o.stage(), event),
        startup_next(o, f, r, before, after, event),
        r matches StartupAction::Finish(Ok(())),
    ensures
        o.stage() is OpeningDatabase,
        event matches StartupEvent::Done(Ok(())),
{
}

/// The last steps of start-up, in order, once the users network starts on
/// boot (it already did, or `SetAutostart` succeeded): create the log folder
/// `/var/lib/andromeda/logs`, then the data folder `/var/lib/andromeda`, then
/// open the database `/var/lib/andromeda/andromeda.db`, then finish.
pub proof fn lemma_final_steps(
    o: Startup,
    f: Startup,
    r: StartupAction,
    before: Seq<Seq<char>>,
    after: Seq<Seq<char>>,
    event: StartupEvent,
)
    requires
        awaits(o.stage(), event),
        startup_next(o, f, r, before, after, event),
    ensures
        ((o.stage() is SettingAutostart && (event matches StartupEvent::Done(Ok(()))))
            || (o.stage() is CheckingAutostart && (event matches StartupEvent::Flag(Ok(true)))))
            ==> f.stage() is CreatingLogFolder && (r matches StartupAction::CreateDirectory { path }
            && path@ == "/var/lib/andromeda/logs"@),
        (o.stage() is CreatingLogFolder && (event matches StartupEvent::Done(Ok(())))) ==> f.stage() is CreatingDataFolder
            && (r matches StartupAction::CreateDirectory { path } && path@ == "/var/lib/andromeda"@),
        (o.stage() is CreatingDataFolder && (event matches StartupEvent::Done(Ok(())))) ==> f.stage() is OpeningDatabase
            && (r matches StartupAction::OpenDatabase { path } && path@
            == "/var/lib/andromeda/andromeda.db"@),
        (o.stage() is OpeningDatabase && (event matches StartupEvent::Done(Ok(())))) ==> f.stage() is Finished
            && (r matches StartupAction::Finish(Ok(()))),
{
}

/// The earlier steps of start-up, in order: after the storage directories,
/// check the cloud image; download it when it is missing or an update was
/// asked for, else connect; after the download, connect; once connected,
/// look up the `andromeda-users` network; define it when absent; then check
/// that it is active, start it when it is not, check that it starts on boot,
/// and mark it so when it does not. Any failure ends start-up with an error.
pub proof fn lemma_early_steps(
    o: Startup,
    f: Startup,
    r: StartupAction,
    before: Seq<Seq<char>>,
    after: Seq<Seq<char>>,
    event: StartupEvent,
)
    requires
        awaits(o.stage(), event),
        startup_next(o, f, r, before, after, event),
    ensures
        (event matches StartupEvent::Done(Err(_))) || (event matches StartupEvent::Flag(Err(_)))
            ==> f.stage() is Finished && (r matches StartupAction::Finish(Err(_))),
        (o.stage() is CreatingDirectories && (event matches StartupEvent::Done(Ok(()))))
            ==> f.stage() is CheckingImage && (r matches StartupAction::CheckImage { path }
            && path@ == o.storage().cloud_image_path()),
        (o.stage() is CheckingImage && ((event matches StartupEvent::Present(false)) || ((
        event matches StartupEvent::Present(true)) && o.update_image()))) ==> f.stage() is Downloading && (r matches StartupAction::DownloadImage { url, path }
            && url@ == ARCH_DOWNLOAD_URL@ && path@ == o.storage().cloud_image_path()),
        (o.stage() is CheckingImage && (event matches StartupEvent::Present(true))
            && !o.update_image()) || (o.stage() is Downloading && (event matches StartupEvent::Done(Ok(()))))
            ==> f.stage() is Connecting && (r matches StartupAction::Connect { uri } && uri@ == o.uri()),
        (o.stage() is Connecting && (event matches StartupEvent::Done(Ok(())))) ==> f.stage() is FindingNetwork
            && (r matches StartupAction::FindNetwork { name } && name@ == "andromeda-users"@),
        (o.stage() is FindingNetwork && (event matches StartupEvent::Present(false))) ==> f.stage() is DefiningNetwork
            && (r is DefineNetwork),
        (o.stage() is FindingNetwork && (event matches StartupEvent::Present(true)))
            || (o.stage() is DefiningNetwork && (event matches StartupEvent::Done(Ok(()))))
            ==> f.stage() is CheckingNetworkActive && r is CheckNetworkActive,
        (o.stage() is CheckingNetworkActive && (event matches StartupEvent::Flag(Ok(false))))
            ==> f.stage() is StartingNetwork && r is StartNetwork,
        (o.stage() is CheckingNetworkActive && (event matches StartupEvent::Flag(Ok(true))))
            || (o.stage() is StartingNetwork && (event matches StartupEvent::Done(Ok(()))))
            ==> f.stage() is CheckingAutostart && r is CheckAutostart,
        (o.stage() is CheckingAutostart && (event matches StartupEvent::Flag(Ok(false))))
            ==> f.stage() is SettingAutostart && r is SetAutostart,
{
}

} // verus!
