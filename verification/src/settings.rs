//! Persistent guest defaults, read together once for each new instance.
use vstd::prelude::*;

use crate::instances::{ErrorKind, InstanceError};
use crate::net::{ipv4_of_text, parse_ipv4, Ipv4Address};
use crate::instances::info;
use crate::logging::{appends, lemma_appends_one, lemma_appends_then, log_message, Logger, Severity};
use crate::net::ipv4_text;
use crate::text::{append_int_text, chars_of, int_text, is_white_space, str_eq, trim, trim_exec};

verus! {

/// The defaults every new guest is created with.
#[derive(Clone)]
pub struct GuestDefaults {
    pub gateway_ip: Ipv4Address,
    /// The system administrator's SSH public key; empty disables the account.
    pub sysadmin_ssh_key: String,
    /// Counts the saved changes; an update must name the revision it replaces.
    pub revision: i64,
}

/// An administrator's change to the guest defaults.
pub struct UpdateDefaults {
    pub gateway_ip: String,
    pub sysadmin_ssh_key: String,
    /// The revision the change was made against.
    pub revision: i64,
}

/// An error the caller has to fix.
pub fn invalid(message: &str) -> (r: InstanceError)
    ensures
        r.kind == ErrorKind::InvalidInput,
        r.message@ == message@,
{
    InstanceError { kind: ErrorKind::InvalidInput, message: String::from_str(message) }
}

/// An error of the server.
pub fn internal(message: &str) -> (r: InstanceError)
    ensures
        r.kind == ErrorKind::Internal,
        r.message@ == message@,
{
    InstanceError { kind: ErrorKind::Internal, message: String::from_str(message) }
}

/// The key types OpenSSH public keys are accepted with.
pub open spec fn is_key_type(kind: Seq<char>) -> bool {
    ||| kind == "ssh-ed25519"@
    ||| kind == "ssh-rsa"@
    ||| kind == "ecdsa-sha2-nistp256"@
    ||| kind == "ecdsa-sha2-nistp384"@
    ||| kind == "ecdsa-sha2-nistp521"@
    ||| kind == "sk-ssh-ed25519@openssh.com"@
    ||| kind == "sk-ecdsa-sha2-nistp256@openssh.com"@
}

/// A control character (`char::is_control`: U+0000 to U+001F and U+007F to U+009F).
pub open spec fn is_control(c: char) -> bool {
    (c as u32) <= 0x1F || (0x7F <= (c as u32) <= 0x9F)
}

/// The leading run of characters up to the first whitespace.
pub open spec fn word_prefix(s: Seq<char>) -> Seq<char>
    decreases s.len(),
{
    if s.len() == 0 || is_white_space(s[0]) {
        Seq::empty()
    } else {
        seq![s[0]] + word_prefix(s.drop_first())
    }
}

/// The first whitespace-separated word of `s`, or nothing (`split_whitespace().next()`).
pub open spec fn first_word(s: Seq<char>) -> Seq<char> {
    word_prefix(crate::text::trim_start(s))
}

/// What a key text may be before `ssh-keygen` looks at it: at most 16384
/// bytes, no control characters, and a first word that names an accepted key
/// type. This keeps private keys, several keys and `authorized_keys` options out.
pub open spec fn key_form_accepted(key: Seq<char>) -> bool {
    &&& vstd::utf8::encode_utf8(key).len() <= 16384
    &&& forall|j: int| 0 <= j < key.len() ==> !is_control(#[trigger] key[j])
    &&& is_key_type(first_word(key))
}

/// The answer to a key text that cannot be one OpenSSH public key.
pub open spec fn key_form_message() -> Seq<char> {
    "Enter one OpenSSH public key (not a private key), or leave it empty."@
}

fn first_word_exec(v: &Vec<char>) -> (r: Vec<char>)
    ensures
        r@ == first_word(v@),
{
    let t = crate::text::trim_chars(v);
    proof {
        lemma_trim_start_of_trim(v@);
    }
    let mut r: Vec<char> = Vec::new();
    let mut i: usize = 0;
    while i < t.len() && !crate::text::is_white_space_exec(t[i])
        invariant
            i <= t.len(),
            r@ == t@.take(i as int),
            forall|j: int| 0 <= j < i ==> !is_white_space(#[trigger] t@[j]),
        decreases t.len() - i,
    {
        r.push(t[i]);
        i = i + 1;
        assert(r@ =~= t@.take(i as int));
    }
    proof {
        lemma_word_prefix_at(t@, i as int);
        lemma_word_prefix_of_trim(v@);
    }
    r
}

proof fn lemma_word_prefix_at(s: Seq<char>, i: int)
    requires
        0 <= i <= s.len(),
        forall|j: int| 0 <= j < i ==> !is_white_space(#[trigger] s[j]),
        i == s.len() || is_white_space(s[i]),
    ensures
        word_prefix(s) == s.take(i),
    decreases i,
{
    if i == 0 {
        assert(s.take(0) =~= Seq::<char>::empty());
    } else {
        let t = s.drop_first();
        assert forall|j: int| 0 <= j < i - 1 implies !is_white_space(#[trigger] t[j]) by {
            assert(t[j] == s[j + 1]);
            assert(!is_white_space(s[j + 1]));
        }
        if i < s.len() {
            assert(t[i - 1] == s[i]);
        }
        lemma_word_prefix_at(t, i - 1);
        assert(!is_white_space(s[0]));
        assert(seq![s[0]] + t.take(i - 1) =~= s.take(i));
    }
}

proof fn lemma_trim_start_of_trim(s: Seq<char>)
    ensures
        trim(s).len() == 0 || !is_white_space(trim(s)[0]),
    decreases s.len(),
{
    lemma_trim_start_first(s);
    lemma_trim_end_keeps_first(crate::text::trim_start(s));
}

proof fn lemma_trim_start_first(s: Seq<char>)
    ensures
        crate::text::trim_start(s).len() == 0 || !is_white_space(crate::text::trim_start(s)[0]),
    decreases s.len(),
{
    if s.len() > 0 && is_white_space(s[0]) {
        lemma_trim_start_first(s.drop_first());
    }
}

proof fn lemma_trim_end_keeps_first(s: Seq<char>)
    requires
        s.len() == 0 || !is_white_space(s[0]),
    ensures
        crate::text::trim_end(s).len() == 0 || crate::text::trim_end(s)[0] == s[0],
    decreases s.len(),
{
    if s.len() > 0 && is_white_space(s.last()) {
        let t = s.drop_last();
        if t.len() > 0 {
            assert(t[0] == s[0]);
        }
        lemma_trim_end_keeps_first(t);
    }
}

/// The first word of a text is the first word of the text without its
/// trailing whitespace.
proof fn lemma_word_prefix_of_trim(s: Seq<char>)
    ensures
        word_prefix(trim(s)) == first_word(s),
{
    let a = crate::text::trim_start(s);
    lemma_trim_start_first(s);
    lemma_word_prefix_trim_end(a);
}

proof fn lemma_word_prefix_trim_end(s: Seq<char>)
    ensures
        word_prefix(crate::text::trim_end(s)) == word_prefix(s),
    decreases s.len(),
{
    if s.len() > 0 && is_white_space(s.last()) {
        let t = s.drop_last();
        lemma_word_prefix_trim_end(t);
        lemma_word_prefix_drop_white_last(s);
    }
}

proof fn lemma_word_prefix_drop_white_last(s: Seq<char>)
    requires
        s.len() > 0,
        is_white_space(s.last()),
    ensures
        word_prefix(s.drop_last()) == word_prefix(s),
    decreases s.len(),
{
    if s.len() == 1 {
        assert(s.drop_last() =~= Seq::<char>::empty());
    } else if is_white_space(s[0]) {
    } else {
        let t = s.drop_first();
        assert(t.last() == s.last());
        lemma_word_prefix_drop_white_last(t);
        assert(s.drop_last().drop_first() =~= t.drop_last());
        assert(s.drop_last()[0] == s[0]);
    }
}

/// Checks the form of a key text before `ssh-keygen` sees it. `Ok(false)`:
/// the key is empty, which disables the guest system administrator; `Ok(true)`:
/// the key still has to be checked by `ssh-keygen`.
pub fn check_public_key_form(key: &str) -> (r: Result<bool, InstanceError>)
    ensures
        key@.len() == 0 ==> r == Ok::<bool, InstanceError>(false),
        key@.len() > 0 && key_form_accepted(key@) ==> r == Ok::<bool, InstanceError>(true),
        key@.len() > 0 && !key_form_accepted(key@) ==> (r matches Err(e) && e.kind
            == ErrorKind::InvalidInput && e.message@ == key_form_message()),
{
    let v = chars_of(key);
    if v.len() == 0 {
        return Ok(false);
    }
    let mut control = false;
    let mut i: usize = 0;
    while i < v.len()
        invariant
            v@ == key@,
            i <= v.len(),
            control == exists|j: int| 0 <= j < i && is_control(#[trigger] v@[j]),
        decreases v.len() - i,
    {
        let n = v[i] as u32;
        if n <= 0x1F || (0x7F <= n && n <= 0x9F) {
            control = true;
        }
        i = i + 1;
    }
    let word = first_word_exec(&v);
    let kind = crate::text::string_from_chars(&word);
    let k = kind.as_str();
    let known = str_eq(k, "ssh-ed25519") || str_eq(k, "ssh-rsa") || str_eq(k, "ecdsa-sha2-nistp256")
        || str_eq(k, "ecdsa-sha2-nistp384") || str_eq(k, "ecdsa-sha2-nistp521") || str_eq(
        k,
        "sk-ssh-ed25519@openssh.com",
    ) || str_eq(k, "sk-ecdsa-sha2-nistp256@openssh.com");
    if key.as_bytes().len() > 16384 || control || !known {
        return Err(invalid("Enter one OpenSSH public key (not a private key), or leave it empty."));
    }
    Ok(true)
}

/// The answer to a key that `ssh-keygen` refused.
pub open spec fn invalid_key_message() -> Seq<char> {
    "The SSH public key is invalid. Paste the complete contents of your .pub file."@
}

/// The gateway and key an update asks for, once both have the right form.
pub struct CheckedUpdate {
    pub gateway_ip: Ipv4Address,
    /// The key without surrounding whitespace.
    pub sysadmin_ssh_key: String,
    /// The key still has to be checked by `ssh-keygen`.
    pub needs_keygen: bool,
}

/// Checks an update before anything is saved: the gateway (surrounding
/// whitespace ignored) must be a dotted-decimal IPv4 address, and the key
/// (surrounding whitespace ignored) must be empty or have the form of one
/// OpenSSH public key.
pub fn check_update(input: &UpdateDefaults) -> (r: Result<CheckedUpdate, InstanceError>)
    ensures
        ipv4_of_text(trim(input.gateway_ip@)) is None ==> (r matches Err(e) && e.kind
            == ErrorKind::InvalidInput && e.message@
            == "Gateway must be an IPv4 address, for example 10.0.0.1."@),
        r matches Ok(c) ==> {
            &&& Some(c.gateway_ip) == ipv4_of_text(trim(input.gateway_ip@))
            &&& c.sysadmin_ssh_key@ == trim(input.sysadmin_ssh_key@)
            &&& c.needs_keygen == (c.sysadmin_ssh_key@.len() > 0)
        },
        ipv4_of_text(trim(input.gateway_ip@)) is Some ==> (r is Ok <==> (trim(
            input.sysadmin_ssh_key@,
        ).len() == 0 || key_form_accepted(trim(input.sysadmin_ssh_key@)))),
        ipv4_of_text(trim(input.gateway_ip@)) is Some && trim(input.sysadmin_ssh_key@).len() > 0
            && !key_form_accepted(trim(input.sysadmin_ssh_key@)) ==> (r matches Err(e) && e.message@
            == key_form_message()),
        r matches Err(e) ==> e.kind == ErrorKind::InvalidInput,
{
    let gateway = trim_exec(input.gateway_ip.as_str());
    let gateway_ip = match parse_ipv4(gateway.as_str()) {
        Some(a) => a,
        None => {
            return Err(invalid("Gateway must be an IPv4 address, for example 10.0.0.1."));
        },
    };
    let key = trim_exec(input.sysadmin_ssh_key.as_str());
    let needs_keygen = check_public_key_form(key.as_str())?;
    Ok(CheckedUpdate { gateway_ip, sysadmin_ssh_key: key, needs_keygen })
}

/// The answer to an update made against an outdated revision.
pub open spec fn stale_revision_message() -> Seq<char> {
    "These settings changed since you opened the page. Reload them before saving again."@
}

/// The saved defaults once the store has answered the update: `Some` with the
/// new revision when the update replaced the revision it named, `None` when
/// someone else saved in between (a conflict).
pub fn saved_defaults(update: CheckedUpdate, new_revision: Option<i64>) -> (r: Result<GuestDefaults, InstanceError>)
    ensures
        r is Ok <==> new_revision is Some,
        r matches Ok(d) ==> d.gateway_ip == update.gateway_ip && d.sysadmin_ssh_key@
            == update.sysadmin_ssh_key@ && Some(d.revision) == new_revision,
        r matches Err(e) ==> e.kind == ErrorKind::Conflict && e.message@ == stale_revision_message(),
{
    match new_revision {
        Some(revision) => Ok(
            GuestDefaults {
                gateway_ip: update.gateway_ip,
                sysadmin_ssh_key: update.sysadmin_ssh_key,
                revision,
            },
        ),
        None => Err(
            InstanceError {
                kind: ErrorKind::Conflict,
                message: String::from_str(
                    "These settings changed since you opened the page. Reload them before saving again.",
                ),
            },
        ),
    }
}

/// The defaults as stored: the gateway text must still read as an address.
pub fn defaults_from_store(gateway: &str, sysadmin_ssh_key: String, revision: i64) -> (r: Result<
    GuestDefaults,
    String,
>)
    ensures
        r is Ok <==> ipv4_of_text(gateway@) is Some,
        r matches Ok(d) ==> Some(d.gateway_ip) == ipv4_of_text(gateway@) && d.sysadmin_ssh_key
            == sysadmin_ssh_key && d.revision == revision,
        r matches Err(e) ==> e@ == "Invalid stored guest gateway"@,
{
    match parse_ipv4(gateway) {
        Some(gateway_ip) => Ok(GuestDefaults { gateway_ip, sysadmin_ssh_key, revision }),
        None => Err(String::from_str("Invalid stored guest gateway")),
    }
}

/// What `ssh-keygen` made of a key.
#[derive(Clone, Copy, Debug)]
pub enum KeyCheck {
    Valid,
    Invalid,
    /// `ssh-keygen` did not answer within five seconds.
    TimedOut,
    /// `ssh-keygen` could not be run.
    Unavailable,
}

/// What the caller does next for an update of the guest defaults.
pub enum UpdateAction {
    /// Have `ssh-keygen -l -f /dev/stdin` read the key (on its input, never in
    /// its arguments) within five seconds.
    CheckKey { key: String },
    /// Store `gateway` and `key` as the next revision, only if the stored
    /// revision is still `revision`, and read back the new revision.
    Save { gateway: String, key: String, revision: i64 },
    /// The update is over.
    Finish(Result<GuestDefaults, InstanceError>),
}

/// The answer when `ssh-keygen` did not answer in time.
pub open spec fn keygen_timeout_message() -> Seq<char> {
    "SSH key validation timed out. Please try again."@
}

/// The answer when `ssh-keygen` could not be run.
pub open spec fn keygen_missing_message() -> Seq<char> {
    "Could not validate the SSH key. Check that ssh-keygen is installed on the backend host."@
}

/// The message logged when `actor` saved `revision`.
pub open spec fn saved_message(actor: Seq<char>, revision: int) -> Seq<char> {
    "Guest defaults saved by account "@ + actor + " (revision "@ + int_text(revision) + ")"@
}

/// An update of the guest defaults whose form was checked.
pub struct SettingsUpdate {
    update: CheckedUpdate,
    revision: i64,
    actor: String,
}

impl SettingsUpdate {
    /// The checked gateway and key.
    pub closed spec fn checked(&self) -> CheckedUpdate {
        self.update
    }

    /// The revision the update was made against.
    pub closed spec fn base_revision(&self) -> i64 {
        self.revision
    }

    /// The account that makes the update.
    pub closed spec fn actor(&self) -> Seq<char> {
        self.actor@
    }

    /// The store is asked to save the update.
    fn save(&self, logger: &mut Logger) -> (r: UpdateAction)
        ensures
            appends(old(logger)@, final(logger)@, seq![info("Saving guest defaults"@)]),
            r matches UpdateAction::Save { gateway, key, revision } && gateway@ == ipv4_text(
                self.checked().gateway_ip,
            ) && key@ == self.checked().sysadmin_ssh_key@ && revision == self.base_revision(),
    {
        let ghost l0 = logger@;
        log_message(logger, Severity::Info, "Saving guest defaults");
        proof {
            lemma_appends_one(l0, logger@, Severity::Info, "Saving guest defaults"@);
        }
        UpdateAction::Save {
            gateway: self.update.gateway_ip.to_text(),
            key: self.update.sysadmin_ssh_key.clone(),
            revision: self.revision,
        }
    }

    /// Starts an update by account `actor`: logs the validation and checks
    /// the form of the input. A key that is not empty is then checked by
    /// `ssh-keygen`; an empty one goes straight to the store.
    pub fn start(logger: &mut Logger, input: UpdateDefaults, actor: &str) -> (r: (
        Option<SettingsUpdate>,
        UpdateAction,
    ))
        ensures
            ({
                let gateway = ipv4_of_text(trim(input.gateway_ip@));
                let key = trim(input.sysadmin_ssh_key@);
                if gateway is None || (key.len() > 0 && !key_form_accepted(key)) {
                    &&& r.0 is None
                    &&& r.1 matches UpdateAction::Finish(Err(e)) && e.kind
                        == ErrorKind::InvalidInput && e.message@ == (if gateway is None {
                        "Gateway must be an IPv4 address, for example 10.0.0.1."@
                    } else {
                        key_form_message()
                    })
                    &&& appends(
                        old(logger)@,
                        final(logger)@,
                        seq![info("Validating guest defaults"@)],
                    )
                } else {
                    &&& r.0 matches Some(u) && {
                        &&& Some(u.checked().gateway_ip) == gateway
                        &&& u.checked().sysadmin_ssh_key@ == key
                        &&& u.base_revision() == input.revision
                        &&& u.actor() == actor@
                    }
                    &&& if key.len() > 0 {
                        &&& r.1 matches UpdateAction::CheckKey { key: k } && k@ == key
                        &&& appends(
                            old(logger)@,
                            final(logger)@,
                            seq![info("Validating guest defaults"@)],
                        )
                    } else {
                        &&& r.1 matches UpdateAction::Save { gateway: g, key: k, revision }
                            && g@ == ipv4_text(gateway->0) && k@ == key && revision
                            == input.revision
                        &&& appends(
                            old(logger)@,
                            final(logger)@,
                            seq![
                                info("Validating guest defaults"@),
                                info("Saving guest defaults"@),
                            ],
                        )
                    }
                }
            }),
    {
        let ghost l0 = logger@;
        log_message(logger, Severity::Info, "Validating guest defaults");
        let ghost l1 = logger@;
        proof {
            lemma_appends_one(l0, l1, Severity::Info, "Validating guest defaults"@);
        }
        let checked = match check_update(&input) {
            Ok(c) => c,
            Err(e) => {
                proof {
                    if ipv4_of_text(trim(input.gateway_ip@)) is Some {
                        assert(e.message@ == key_form_message());
                    }
                }
                return (None, UpdateAction::Finish(Err(e)));
            },
        };
        let update = SettingsUpdate {
            update: checked,
            revision: input.revision,
            actor: String::from_str(actor),
        };
        if update.update.needs_keygen {
            let key = update.update.sysadmin_ssh_key.clone();
            (Some(update), UpdateAction::CheckKey { key })
        } else {
            let action = update.save(logger);
            proof {
                lemma_appends_then(
                    l0,
                    l1,
                    logger@,
                    seq![info("Validating guest defaults"@)],
                    info("Saving guest defaults"@),
                );
                assert(seq![info("Validating guest defaults"@)].push(info("Saving guest defaults"@))
                    =~= seq![info("Validating guest defaults"@), info("Saving guest defaults"@)]);
            }
            (Some(update), action)
        }
    }

    /// `ssh-keygen` read the key.
    pub fn key_checked(&self, logger: &mut Logger, check: KeyCheck) -> (r: UpdateAction)
        ensures
            match check {
                KeyCheck::Valid => {
                    &&& r matches UpdateAction::Save { gateway, key, revision } && gateway@
                        == ipv4_text(self.checked().gateway_ip) && key@
                        == self.checked().sysadmin_ssh_key@ && revision == self.base_revision()
                    &&& appends(old(logger)@, final(logger)@, seq![info("Saving guest defaults"@)])
                },
                KeyCheck::Invalid => r matches UpdateAction::Finish(Err(e)) && e.kind
                    == ErrorKind::InvalidInput && e.message@ == invalid_key_message()
                    && final(logger)@ == old(logger)@,
                KeyCheck::TimedOut => r matches UpdateAction::Finish(Err(e)) && e.kind
                    == ErrorKind::Internal && e.message@ == keygen_timeout_message() && final(logger)@
                    == old(logger)@,
                KeyCheck::Unavailable => r matches UpdateAction::Finish(Err(e)) && e.kind
                    == ErrorKind::Internal && e.message@ == keygen_missing_message() && final(logger)@
                    == old(logger)@,
            },
    {
        match check {
            KeyCheck::Valid => self.save(logger),
            KeyCheck::Invalid => UpdateAction::Finish(
                Err(
                    invalid(
                        "The SSH public key is invalid. Paste the complete contents of your .pub file.",
                    ),
                ),
            ),
            KeyCheck::TimedOut => UpdateAction::Finish(
                Err(internal("SSH key validation timed out. Please try again.")),
            ),
            KeyCheck::Unavailable => UpdateAction::Finish(
                Err(
                    internal(
                        "Could not validate the SSH key. Check that ssh-keygen is installed on the backend host.",
                    ),
                ),
            ),
        }
    }

    /// The store answered: the new revision, `None` when the stored revision
    /// was no longer the one the update named, or why it could not save.
    pub fn saved(self, logger: &mut Logger, outcome: Result<Option<i64>, String>) -> (r: Result<
        GuestDefaults,
        InstanceError,
    >)
        ensures
            match outcome {
                Err(_) => r matches Err(e) && e.kind == ErrorKind::Internal && e.message@
                    == "Could not save guest defaults."@ && final(logger)@ == old(logger)@,
                Ok(None) => r matches Err(e) && e.kind == ErrorKind::Conflict && e.message@
                    == stale_revision_message() && final(logger)@ == old(logger)@,
                Ok(Some(revision)) => {
                    &&& r matches Ok(d) && {
                        &&& d.gateway_ip == self.checked().gateway_ip
                        &&& d.sysadmin_ssh_key@ == self.checked().sysadmin_ssh_key@
                        &&& d.revision == revision
                    }
                    &&& appends(
                        old(logger)@,
                        final(logger)@,
                        seq![info(saved_message(self.actor(), revision as int))],
                    )
                },
            },
    {
        let new_revision = match outcome {
            Err(_) => {
                return Err(internal("Could not save guest defaults."));
            },
            Ok(r) => r,
        };
        if let Some(revision) = new_revision {
            let ghost l0 = logger@;
            let mut message = String::from_str("Guest defaults saved by account ");
            message.append(self.actor.as_str());
            message.append(" (revision ");
            append_int_text(&mut message, revision);
            message.append(")");
            log_message(logger, Severity::Info, message.as_str());
            proof {
                lemma_appends_one(l0, logger@, Severity::Info, message@);
            }
        }
        saved_defaults(self.update, new_revision)
    }
}

/// The key types whose public keys pass the form check (and go on to
/// `ssh-keygen`): a non-empty key text of at most 16384 bytes without control
/// characters passes exactly when its first word is one of `ssh-ed25519`,
/// `ssh-rsa`, `ecdsa-sha2-nistp256`, `ecdsa-sha2-nistp384`,
/// `ecdsa-sha2-nistp521`, `sk-ssh-ed25519@openssh.com` or
/// `sk-ecdsa-sha2-nistp256@openssh.com`.
pub proof fn lemma_accepted_key_types(key: Seq<char>)
    requires
        vstd::utf8::encode_utf8(key).len() <= 16384,
        forall|j: int| 0 <= j < key.len() ==> !is_control(#[trigger] key[j]),
    ensures
        key_form_accepted(key) <==> {
            let w = first_word(key);
            ||| w == "ssh-ed25519"@
            ||| w == "ssh-rsa"@
            ||| w == "ecdsa-sha2-nistp256"@
            ||| w == "ecdsa-sha2-nistp384"@
            ||| w == "ecdsa-sha2-nistp521"@
            ||| w == "sk-ssh-ed25519@openssh.com"@
            ||| w == "sk-ecdsa-sha2-nistp256@openssh.com"@
        },
{
}

} // verus!
