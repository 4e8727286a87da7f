//! The in-memory operation log: every message becomes one time-stamped entry.
use vstd::prelude::*;

verus! {

/// How serious a log message is.
#[derive(Clone, Copy, PartialEq, Eq, Debug)]
pub enum Severity {
    Info,
    Warning,
    Error,
    Fatal,
}

/// The text a severity is shown as in log entries.
pub open spec fn severity_text(severity: Severity) -> Seq<char> {
    match severity {
        Severity::Info => "Info"@,
        Severity::Warning => "Warning"@,
        Severity::Error => "Error"@,
        Severity::Fatal => "Fatal"@,
    }
}

impl Severity {
    /// The text this severity is shown as in log entries.
    pub fn text(&self) -> (r: &'static str)
        ensures
            r@ == severity_text(*self),
    {
        match self {
            Severity::Info => "Info",
            Severity::Warning => "Warning",
            Severity::Error => "Error",
            Severity::Fatal => "Fatal",
        }
    }
}

/// The entry written for `message` at `time`: `[ {severity} ][{time}] {message}`.
pub open spec fn log_entry(severity: Severity, time: Seq<char>, message: Seq<char>) -> Seq<char> {
    "[ "@ + severity_text(severity) + " ]["@ + time + "] "@ + message
}

/// The three-letter English abbreviations that chrono writes for `%a`.
pub open spec fn is_short_weekday(s: Seq<char>) -> bool {
    ||| s == "Sun"@
    ||| s == "Mon"@
    ||| s == "Tue"@
    ||| s == "Wed"@
    ||| s == "Thu"@
    ||| s == "Fri"@
    ||| s == "Sat"@
}

/// The three-letter English abbreviations that chrono writes for `%b`.
pub open spec fn is_short_month(s: Seq<char>) -> bool {
    ||| s == "Jan"@
    ||| s == "Feb"@
    ||| s == "Mar"@
    ||| s == "Apr"@
    ||| s == "May"@
    ||| s == "Jun"@
    ||| s == "Jul"@
    ||| s == "Aug"@
    ||| s == "Sep"@
    ||| s == "Oct"@
    ||| s == "Nov"@
    ||| s == "Dec"@
}

/// The form of a time stamp in the log: `%a %b %e %T %Y`, such as
/// `Mon Jan  5 13:04:05 2026`.
pub open spec fn is_log_time(t: Seq<char>) -> bool {
    &&& t.len() >= 24
    &&& is_short_weekday(t.subrange(0, 3))
    &&& is_short_month(t.subrange(4, 7))
    &&& t[3] == ' ' && t[7] == ' ' && t[10] == ' ' && t[19] == ' '
    &&& t[13] == ':' && t[16] == ':'
}

/// The local time in the log's `%a %b %e %T %Y` format (`chrono::Local::now`
/// formatted by chrono's strftime items): weekday and month abbreviations, a
/// space-padded two-character day, `HH:MM:SS`, and the year in at least four
/// characters. Which time it shows is not stated: it depends on the clock and
/// the time zone.
#[verifier::external_body]
fn local_time_text() -> (r: String)
    ensures
        is_log_time(r@),
{
    chrono::Local::now().format("%a %b %e %T %Y").to_string()
}

/// `entry` was written for `message` (a severity and a text) at some time.
pub open spec fn is_entry_for(entry: Seq<char>, message: (Severity, Seq<char>)) -> bool {
    exists|time: Seq<char>| entry == #[trigger] log_entry(message.0, time, message.1)
}

/// `after` is `before` followed by one entry for each of `messages`, in order.
pub open spec fn appends(
    before: Seq<Seq<char>>,
    after: Seq<Seq<char>>,
    messages: Seq<(Severity, Seq<char>)>,
) -> bool {
    &&& after.len() == before.len() + messages.len()
    &&& after.subrange(0, before.len() as int) == before
    &&& forall|i: int|
        0 <= i < messages.len() ==> is_entry_for(after[before.len() + i], #[trigger] messages[i])
}

/// Writing nothing appends no entry.
pub proof fn lemma_appends_nothing(log: Seq<Seq<char>>)
    ensures
        appends(log, log, Seq::empty()),
{
    assert(log.subrange(0, log.len() as int) =~= log);
}

/// One entry pushed for `message` is an append of that message.
pub proof fn lemma_appends_one(
    before: Seq<Seq<char>>,
    after: Seq<Seq<char>>,
    severity: Severity,
    message: Seq<char>,
)
    requires
        exists|time: Seq<char>| after == before.push(#[trigger] log_entry(severity, time, message)),
    ensures
        appends(before, after, seq![(severity, message)]),
{
    let time = choose|time: Seq<char>| after == before.push(#[trigger] log_entry(severity, time, message));
    assert(after.subrange(0, before.len() as int) =~= before);
    let messages = seq![(severity, message)];
    assert forall|i: int| 0 <= i < messages.len() implies is_entry_for(
        after[before.len() + i],
        #[trigger] messages[i],
    ) by {
        assert(i == 0);
        assert(messages[i] == (severity, message));
        assert(after[before.len() + i] == log_entry(messages[i].0, time, messages[i].1));
    }
}

/// Appends made one after the other append their messages in turn.
pub proof fn lemma_appends_chain(
    a: Seq<Seq<char>>,
    b: Seq<Seq<char>>,
    c: Seq<Seq<char>>,
    first: Seq<(Severity, Seq<char>)>,
    second: Seq<(Severity, Seq<char>)>,
)
    requires
        appends(a, b, first),
        appends(b, c, second),
    ensures
        appends(a, c, first + second),
{
    let messages = first + second;
    assert(c.subrange(0, a.len() as int) =~= a) by {
        assert forall|j: int| 0 <= j < a.len() implies c.subrange(0, a.len() as int)[j] == a[j] by {
            assert(c[j] == c.subrange(0, b.len() as int)[j]);
            assert(b[j] == b.subrange(0, a.len() as int)[j]);
        }
    }
    assert forall|i: int| 0 <= i < messages.len() implies is_entry_for(
        c[a.len() + i],
        #[trigger] messages[i],
    ) by {
        if i < first.len() {
            assert(messages[i] == first[i]);
            assert(c[a.len() + i] == c.subrange(0, b.len() as int)[a.len() + i]);
            assert(is_entry_for(b[a.len() + i], first[i]));
        } else {
            let k = i - first.len();
            assert(messages[i] == second[k]);
            assert(is_entry_for(c[b.len() + k], second[k]));
        }
    }
}

/// An append followed by the append of one more message.
pub proof fn lemma_appends_then(
    before: Seq<Seq<char>>,
    middle: Seq<Seq<char>>,
    after: Seq<Seq<char>>,
    messages: Seq<(Severity, Seq<char>)>,
    message: (Severity, Seq<char>),
)
    requires
        appends(before, middle, messages),
        appends(middle, after, seq![message]),
    ensures
        appends(before, after, messages.push(message)),
{
    lemma_appends_chain(before, middle, after, messages, seq![message]);
    assert(messages + seq![message] =~= messages.push(message));
}

/// An append followed by one pushed entry.
pub proof fn lemma_appends_push(
    before: Seq<Seq<char>>,
    middle: Seq<Seq<char>>,
    after: Seq<Seq<char>>,
    messages: Seq<(Severity, Seq<char>)>,
    severity: Severity,
    message: Seq<char>,
)
    requires
        appends(before, middle, messages),
        exists|time: Seq<char>| after == middle.push(#[trigger] log_entry(severity, time, message)),
    ensures
        appends(before, after, messages.push((severity, message))),
{
    lemma_appends_one(middle, after, severity, message);
    lemma_appends_then(before, middle, after, messages, (severity, message));
}

/// The entries of one run of the program, oldest first.
pub struct Logger {
    log: Vec<String>,
}

impl View for Logger {
    type V = Seq<Seq<char>>;

    closed spec fn view(&self) -> Seq<Seq<char>> {
        self.log@.map_values(|entry: String| entry@)
    }
}

impl Logger {
    /// An empty log.
    pub fn new() -> (r: Self)
        ensures
            r@ == Seq::<Seq<char>>::empty(),
    {
        let r = Logger { log: Vec::new() };
        assert(r@ =~= Seq::<Seq<char>>::empty());
        r
    }

    /// Appends the entry for `message` at `time`.
    fn log(&mut self, severity: Severity, time: &str, message: &str)
        ensures
            final(self)@ == old(self)@.push(log_entry(severity, time@, message@)),
    {
        let mut entry = String::new();
        entry.append("[ ");
        entry.append(severity.text());
        entry.append(" ][");
        entry.append(time);
        entry.append("] ");
        entry.append(message);
        self.log.push(entry);
        assert(self@ =~= old(self)@.push(log_entry(severity, time@, message@)));
    }

    /// The number of entries.
    pub fn len(&self) -> (r: usize)
        ensures
            r == self@.len(),
    {
        self.log.len()
    }

    /// The entry at position `index`.
    pub fn entry(&self, index: usize) -> (r: &String)
        requires
            index < self@.len(),
        ensures
            r@ == self@[index as int],
    {
        &self.log[index]
    }

    /// All entries, oldest first.
    pub fn entries(&self) -> (r: &[String])
        ensures
            r@.map_values(|entry: String| entry@) == self@,
    {
        self.log.as_slice()
    }
}

/// Appends one time-stamped entry for `message`; earlier entries are kept.
pub fn log_message(logger: &mut Logger, severity: Severity, message: &str)
    ensures
        exists|time: Seq<char>|
            is_log_time(time) && final(logger)@ == old(logger)@.push(
                #[trigger] log_entry(severity, time, message@),
            ),
{
    let time = local_time_text();
    logger.log(severity, time.as_str(), message);
}

/// `{text:?}`: the text in double quotes with quotes, backslashes and
/// non-printable characters escaped (`<str as Debug>::fmt`).
pub uninterp spec fn debug_text(text: Seq<char>) -> Seq<char>;

/// `format!("{text:?}")`. The result is named: it is a function of `text` alone.
#[verifier::external_body]
fn debug_quoted(text: &str) -> (r: String)
    ensures
        r@ == debug_text(text@),
{
    format!("{text:?}")
}

/// The characters of an optional text.
pub open spec fn text_option(text: Option<&str>) -> Option<Seq<char>> {
    match text {
        Some(t) => Some(t@),
        None => None,
    }
}

/// The message that announces a request.
pub open spec fn request_message(operation: Seq<char>, target: Option<Seq<char>>) -> Seq<char> {
    match target {
        Some(target) => "Request received: "@ + operation + " instance "@ + debug_text(target),
        None => "Request received: "@ + operation + " instances"@,
    }
}

/// The message that reports a failed step.
pub open spec fn failure_message(step: Seq<char>, error: Seq<char>) -> Seq<char> {
    step + " failed: "@ + error
}

/// Tracks the current step of one operation for progress and failure messages.
#[derive(Clone)]
pub struct OperationLog {
    step: String,
}

impl OperationLog {
    /// The step the operation is at.
    pub closed spec fn current_step(&self) -> Seq<char> {
        self.step@
    }

    /// Starts an operation at step `Request` and logs that the request arrived.
    pub fn new(logger: &mut Logger, operation: &str, target: Option<&str>) -> (r: Self)
        ensures
            r.current_step() == "Request"@,
            exists|time: Seq<char>|
                final(logger)@ == old(logger)@.push(
                    #[trigger] log_entry(
                        Severity::Info,
                        time,
                        request_message(operation@, text_option(target)),
                    ),
                ),
    {
        let log = OperationLog { step: String::from_str("Request") };
        let mut message = String::new();
        message.append("Request received: ");
        message.append(operation);
        match target {
            Some(target) => {
                message.append(" instance ");
                let quoted = debug_quoted(target);
                message.append(quoted.as_str());
            },
            None => {
                message.append(" instances");
            },
        }
        assert(message@ =~= request_message(operation@, text_option(target)));
        log.info(logger, message.as_str());
        log
    }

    /// Moves to `step` and logs it.
    pub fn step(&mut self, logger: &mut Logger, step: &str)
        ensures
            final(self).current_step() == step@,
            exists|time: Seq<char>|
                final(logger)@ == old(logger)@.push(
                    #[trigger] log_entry(Severity::Info, time, step@),
                ),
    {
        self.step = String::from_str(step);
        self.info(logger, step);
    }

    /// Logs `message` as information.
    pub fn info(&self, logger: &mut Logger, message: &str)
        ensures
            exists|time: Seq<char>|
                final(logger)@ == old(logger)@.push(
                    #[trigger] log_entry(Severity::Info, time, message@),
                ),
    {
        self.message(logger, Severity::Info, message);
    }

    /// Logs that the current step failed with `error`.
    pub fn failure(&self, logger: &mut Logger, severity: Severity, error: &str)
        ensures
            exists|time: Seq<char>|
                final(logger)@ == old(logger)@.push(
                    #[trigger] log_entry(severity, time, failure_message(self.current_step(), error@)),
                ),
    {
        let mut message = self.step.clone();
        message.append(" failed: ");
        message.append(error);
        assert(message@ =~= failure_message(self.current_step(), error@));
        self.message(logger, severity, message.as_str());
    }

    /// Logs `message` with `severity`.
    pub fn message(&self, logger: &mut Logger, severity: Severity, message: &str)
        ensures
            exists|time: Seq<char>|
                final(logger)@ == old(logger)@.push(#[trigger] log_entry(severity, time, message@)),
    {
        log_message(logger, severity, message);
    }
}

/// The name of the file a run's log is saved in: `LOG-{date}-{count}.txt`,
/// `count` being the first that is not taken yet.
pub fn log_file_name(date: &str, count: u64) -> (r: String)
    ensures
        r@ == "LOG-"@ + date@ + "-"@ + crate::text::nat_text(count as nat) + ".txt"@,
{
    let mut r = String::from_str("LOG-");
    r.append(date);
    r.append("-");
    crate::text::append_u64_text(&mut r, count);
    r.append(".txt");
    r
}

/// The search for the first free log file name of a day: `LOG-{date}-1.txt`,
/// then `-2`, and so on while names are taken.
pub struct LogFileSearch {
    date: String,
    count: u64,
}

impl LogFileSearch {
    /// The day the log is saved for.
    pub closed spec fn date(&self) -> Seq<char> {
        self.date@
    }

    /// The number of the name tried now.
    pub closed spec fn count(&self) -> u64 {
        self.count
    }

    /// Starts at `LOG-{date}-1.txt`.
    pub fn new(date: &str) -> (r: Self)
        ensures
            r.date() == date@,
            r.count() == 1,
    {
        LogFileSearch { date: String::from_str(date), count: 1 }
    }

    /// The name tried now.
    pub fn candidate(&self) -> (r: String)
        ensures
            r@ == "LOG-"@ + self.date() + "-"@ + crate::text::nat_text(self.count() as nat)
                + ".txt"@,
    {
        log_file_name(self.date.as_str(), self.count)
    }

    /// The name tried now is taken: moves on to the next number. `false`
    /// when there is no next number.
    pub fn taken(&mut self) -> (r: bool)
        ensures
            final(self).date() == old(self).date(),
            r == (old(self).count() < u64::MAX),
            r ==> final(self).count() == old(self).count() + 1,
            !r ==> final(self).count() == old(self).count(),
    {
        if self.count < u64::MAX {
            self.count = self.count + 1;
            true
        } else {
            false
        }
    }
}

} // verus!
