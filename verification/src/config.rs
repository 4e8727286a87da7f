//! Application settings; VM provisioning input lives in `model::VmConfig`.
use vstd::prelude::*;

use crate::auth::{AuthConfig, AuthEnv, EnvValue};
use crate::net::{ipv4_of_text, parse_ipv4, Ipv4Address};
use crate::paths::StoragePaths;
use crate::text::{str_eq, texts};

verus! {

/// Command-line switches.
#[derive(Clone, Copy, PartialEq, Eq, Debug)]
pub struct Flags {
    /// `--update-image`: download the cloud image again even if present.
    pub update_image: bool,
    /// `--dry`: log the commands and skip domain definition and database writes.
    pub dry_run: bool,
}

impl Default for Flags {
    /// No switch set.
    fn default() -> (r: Self)
        ensures
            !r.update_image,
            !r.dry_run,
    {
        Flags { update_image: false, dry_run: false }
    }
}

/// The argument is one of the known switches.
pub open spec fn is_known_flag(argument: Seq<char>) -> bool {
    argument == "--dry"@ || argument == "--update-image"@
}

/// The answer to the first unknown argument.
pub open spec fn unknown_flag_message(argument: Seq<char>) -> Seq<char> {
    "Unknown flag "@ + argument + ", valid flags are [ --dry, --update-image ]"@
}

/// Reads the switches from the arguments after the program name. Every
/// argument must be `--dry` or `--update-image`; the first other one is refused.
pub fn parse_flags(arguments: &Vec<String>) -> (r: Result<Flags, String>)
    ensures
        ({
            let args = texts(arguments@);
            &&& r is Ok <==> forall|k: int| 0 <= k < args.len() ==> is_known_flag(#[trigger] args[k])
            &&& r matches Ok(flags) ==> {
                &&& flags.dry_run == args.contains("--dry"@)
                &&& flags.update_image == args.contains("--update-image"@)
            }
            &&& r matches Err(e) ==> exists|k: int|
                0 <= k < args.len() && !is_known_flag(#[trigger] args[k]) && (forall|j: int|
                    0 <= j < k ==> is_known_flag(#[trigger] args[j])) && e@ == unknown_flag_message(
                    args[k],
                )
        }),
{
    let ghost args = texts(arguments@);
    proof {
        reveal_strlit("--dry");
        reveal_strlit("--update-image");
        assert("--dry"@.len() != "--update-image"@.len());
    }
    let mut flags = Flags::default();
    let mut k: usize = 0;
    while k < arguments.len()
        invariant
            args == texts(arguments@),
            "--dry"@ != "--update-image"@,
            k <= arguments.len(),
            forall|j: int| 0 <= j < k ==> is_known_flag(#[trigger] args[j]),
            flags.dry_run == exists|j: int| 0 <= j < k && #[trigger] args[j] == "--dry"@,
            flags.update_image == exists|j: int|
                0 <= j < k && #[trigger] args[j] == "--update-image"@,
        decreases arguments.len() - k,
    {
        let argument = &arguments[k];
        assert(argument@ == args[k as int]);
        if str_eq(argument.as_str(), "--dry") {
            flags.dry_run = true;
        } else if str_eq(argument.as_str(), "--update-image") {
            flags.update_image = true;
        } else {
            let mut message = String::from_str("Unknown flag ");
            message.append(argument.as_str());
            message.append(", valid flags are [ --dry, --update-image ]");
            assert(!is_known_flag(args[k as int]));
            return Err(message);
        }
        k = k + 1;
    }
    proof {
        assert(flags.dry_run == args.contains("--dry"@));
        assert(flags.update_image == args.contains("--update-image"@));
    }
    Ok(flags)
}

/// The gateway that guests use unless `ANDROMEDA_GATEWAY_IP` says otherwise.
pub open spec fn default_gateway() -> Ipv4Address {
    Ipv4Address(10, 0, 0, 1)
}

/// The guest gateway that `ANDROMEDA_GATEWAY_IP` configures, or the message
/// that refuses it.
pub open spec fn gateway_outcome(value: &EnvValue) -> Result<Ipv4Address, Seq<char>> {
    match value {
        EnvValue::Present(v) => match ipv4_of_text(v@) {
            Some(a) => Ok(a),
            None => Err("ANDROMEDA_GATEWAY_IP must be an IPv4 address, for example 10.0.0.1"@),
        },
        EnvValue::NotPresent => Ok(default_gateway()),
        EnvValue::NotUnicode => Err("Invalid ANDROMEDA_GATEWAY_IP"@),
    }
}

/// The guest gateway that `ANDROMEDA_GATEWAY_IP` configures.
pub fn gateway_from_env(value: &EnvValue) -> (r: Result<Ipv4Address, String>)
    ensures
        match r {
            Ok(a) => gateway_outcome(value) == Ok::<Ipv4Address, Seq<char>>(a),
            Err(e) => gateway_outcome(value) == Err::<Ipv4Address, Seq<char>>(e@),
        },
{
    match value {
        EnvValue::Present(v) => match parse_ipv4(v.as_str()) {
            Some(a) => Ok(a),
            None => Err(
                String::from_str(
                    "ANDROMEDA_GATEWAY_IP must be an IPv4 address, for example 10.0.0.1",
                ),
            ),
        },
        EnvValue::NotPresent => Ok(Ipv4Address(10, 0, 0, 1)),
        EnvValue::NotUnicode => Err(String::from_str("Invalid ANDROMEDA_GATEWAY_IP")),
    }
}

/// Where the management server listens.
pub const BIND_ADDRESS: &'static str = "0.0.0.0:9966";

/// The libvirt connection the server manages.
pub const LIBVIRT_URI: &'static str = "qemu:///system";

/// Application settings.
pub struct Config {
    pub flags: Flags,
    pub paths: StoragePaths,
    pub bind_address: String,
    pub libvirt_uri: String,
    pub auth: AuthConfig,
    pub gateway_ip: Ipv4Address,
}

impl Config {
    /// The settings from the command-line arguments (after the program name)
    /// and the environment: switches first, then sign-in, then the gateway;
    /// the first refusal is the error. Storage uses the default layout, the
    /// server listens on `0.0.0.0:9966` and manages `qemu:///system`.
    pub fn from_args(arguments: &Vec<String>, auth: AuthEnv, gateway: &EnvValue) -> (r: Result<
        Self,
        String,
    >)
        ensures
            r is Ok ==> (forall|k: int|
                0 <= k < texts(arguments@).len() ==> is_known_flag(#[trigger] texts(arguments@)[k])),
            r matches Ok(c) ==> {
                &&& c.flags.dry_run == texts(arguments@).contains("--dry"@)
                &&& c.flags.update_image == texts(arguments@).contains("--update-image"@)
                &&& crate::auth::auth_config_outcome(&auth) == Ok::<
                    crate::auth::AuthConfigView,
                    Seq<char>,
                >(c.auth@)
                &&& gateway_outcome(gateway) == Ok::<Ipv4Address, Seq<char>>(c.gateway_ip)
                &&& c.paths.root_path() == crate::paths::LIBVIRT_IMAGES@
                &&& c.bind_address@ == BIND_ADDRESS@
                &&& c.libvirt_uri@ == LIBVIRT_URI@
            },
            (forall|k: int|
                0 <= k < texts(arguments@).len() ==> is_known_flag(#[trigger] texts(arguments@)[k]))
                && crate::auth::auth_config_outcome(&auth) is Ok && gateway_outcome(gateway) is Ok
                ==> r is Ok,
            r matches Err(e) ==> if !(forall|k: int|
                0 <= k < texts(arguments@).len() ==> is_known_flag(
                    #[trigger] texts(arguments@)[k],
                )) {
                exists|k: int|
                    0 <= k < texts(arguments@).len() && !is_known_flag(
                        #[trigger] texts(arguments@)[k],
                    ) && (forall|j: int|
                        0 <= j < k ==> is_known_flag(#[trigger] texts(arguments@)[j]))
                        && e@ == unknown_flag_message(texts(arguments@)[k])
            } else if crate::auth::auth_config_outcome(&auth) is Err {
                crate::auth::auth_config_outcome(&auth) == Err::<
                    crate::auth::AuthConfigView,
                    Seq<char>,
                >(e@)
            } else {
                gateway_outcome(gateway) == Err::<Ipv4Address, Seq<char>>(e@)
            },
    {
        let flags = match parse_flags(arguments) {
            Ok(flags) => flags,
            Err(e) => {
                return Err(e);
            },
        };
        let auth = match AuthConfig::from_env(auth) {
            Ok(a) => a,
            Err(e) => {
                return Err(e);
            },
        };
        let gateway_ip = match gateway_from_env(gateway) {
            Ok(g) => g,
            Err(e) => {
                return Err(e);
            },
        };
        Ok(
            Config {
                flags,
                paths: StoragePaths::default(),
                bind_address: String::from_str(BIND_ADDRESS),
                libvirt_uri: String::from_str(LIBVIRT_URI),
                auth,
                gateway_ip,
            },
        )
    }
}

} // verus!
