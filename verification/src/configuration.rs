//! The configuration with which the device starts: whether there is one, and
//! when it was last saved.

use crate::command::CommandResult;
use crate::error::Error;
use crate::text::{
    after_delimiter, chars_of, contains, copy_range, find_after_delimiter, lemma_no_delimiter,
    occurs_in,
};
use crate::timestamp::{lemma_layout_names_one_time, matches_layout, CivilTime, Timestamp};
use vstd::prelude::*;

verus! {

/// The command that copies the running configuration into the startup configuration.
pub const SAVE_CONFIGURATION_COMMAND: &'static str = "copy running-config startup-config";

/// The command that prints the startup configuration.
pub const SHOW_STARTUP_CONFIGURATION_COMMAND: &'static str = "show startup-config";

/// The command that prints the line of the startup configuration that holds
/// the time at which it was saved.
pub const STARTUP_CONFIGURATION_TIME_COMMAND: &'static str = "show startup-config | grep \"!Time\"";

/// What the shell prints in place of a startup configuration where the device has none.
pub open spec fn no_configuration_notice() -> Seq<char> {
    "No startup configuration"@
}

/// Whether the device has a startup configuration, going by what the shell
/// printed for `SHOW_STARTUP_CONFIGURATION_COMMAND`: it has one unless the
/// output holds the notice that there is none.
pub fn has_startup_configuration(output: &str) -> (r: bool)
    ensures
        r == !occurs_in(output@, no_configuration_notice()),
{
    let hay = chars_of(output);
    let needle = chars_of("No startup configuration");
    !contains(&hay, &needle)
}

/// The time that a line of the form `!Time: Mon Jun 28 13:22:05 2021` names:
/// what follows the first colon and space of the line, read as a time.
pub open spec fn names_time(line: Seq<char>, t: CivilTime) -> bool {
    match after_delimiter(line) {
        Some(rest) => matches_layout(rest, t),
        None => false,
    }
}

/// The time at which the startup configuration was saved, read from the line
/// that the shell printed for `STARTUP_CONFIGURATION_TIME_COMMAND`. A line
/// without a colon and a space behind it is refused, and so is one on which
/// anything but a time follows them.
pub fn get_startup_configuration_date(line: &str) -> (r: Result<Timestamp, Error>)
    ensures
        match r {
            Ok(t) => names_time(line@, t@),
            Err(e) => e == Error::Parse && forall|t: CivilTime| !names_time(line@, t),
        },
{
    let chars = chars_of(line);
    match find_after_delimiter(&chars) {
        Some(at) => {
            let rest = copy_range(&chars, at, chars.len());
            proof {
                assert(chars@.skip(at as int) == chars@.subrange(at as int, chars@.len() as int));
            }
            Timestamp::from_chars(&rest)
        },
        None => Err(Error::Parse),
    }
}

/// Whether what the shell gave back for `SAVE_CONFIGURATION_COMMAND` says
/// that the configuration was saved. The exit code alone decides; what the
/// shell printed is not looked at.
pub fn save_configuration(result: &CommandResult) -> (r: bool)
    ensures
        r == result.succeeded(),
{
    result.success()
}

/// Whether the device has a startup configuration, and when it was last
/// saved. There is a time exactly where there is a configuration.
#[derive(Clone, Copy, Debug, PartialEq, Eq, Structural)]
pub struct ConfigurationStatus {
    present: bool,
    last_modified: Option<Timestamp>,
}

impl View for ConfigurationStatus {
    type V = Option<CivilTime>;

    closed spec fn view(&self) -> Option<CivilTime> {
        match self.last_modified {
            Some(t) => Some(t@),
            None => None,
        }
    }
}

impl ConfigurationStatus {
    #[verifier::type_invariant]
    spec fn well_formed(self) -> bool {
        self.present == (self.last_modified is Some)
    }

    /// The status of a device without a startup configuration.
    pub fn absent() -> (r: ConfigurationStatus)
        ensures
            r@ is None,
    {
        ConfigurationStatus { present: false, last_modified: None }
    }

    /// The status of a device whose startup configuration was saved at `t`.
    pub fn saved_at(t: Timestamp) -> (r: ConfigurationStatus)
        ensures
            r@ == Some(t@),
    {
        ConfigurationStatus { present: true, last_modified: Some(t) }
    }

    /// Whether the device has a startup configuration.
    pub fn present(&self) -> (r: bool)
        ensures
            r == (self@ is Some),
    {
        proof {
            use_type_invariant(self);
        }
        self.present
    }

    /// When the startup configuration was last saved, where there is one.
    pub fn last_modified(&self) -> (r: Option<Timestamp>)
        ensures
            match r {
                Some(t) => self@ == Some(t@),
                None => self@ is None,
            },
    {
        self.last_modified
    }

    /// The status that the shell reports: `output` is what it printed for
    /// `SHOW_STARTUP_CONFIGURATION_COMMAND`, `line` what it printed for
    /// `STARTUP_CONFIGURATION_TIME_COMMAND`. Where `output` holds the notice
    /// that there is no configuration, `line` is not looked at.
    pub fn from_outputs(output: &str, line: &str) -> (r: Result<ConfigurationStatus, Error>)
        ensures
            match r {
                Ok(status) => if occurs_in(output@, no_configuration_notice()) {
                    status@ is None
                } else {
                    status@ matches Some(t) && names_time(line@, t)
                },
                Err(e) => e == Error::Parse && !occurs_in(output@, no_configuration_notice())
                    && forall|t: CivilTime| !names_time(line@, t),
            },
    {
        if has_startup_configuration(output) {
            let t = get_startup_configuration_date(line)?;
            Ok(ConfigurationStatus::saved_at(t))
        } else {
            Ok(ConfigurationStatus::absent())
        }
    }
}

/// A line names one time at most.
pub proof fn lemma_line_names_one_time(line: Seq<char>, t: CivilTime, u: CivilTime)
    requires
        names_time(line, t),
        names_time(line, u),
    ensures
        t == u,
{
    lemma_layout_names_one_time(after_delimiter(line)->0, t, u);
}

/// A line without a colon that a space follows names no time.
pub proof fn lemma_line_needs_delimiter(line: Seq<char>, t: CivilTime)
    requires
        forall|i: int|
            0 <= i < line.len() - 1 ==> !(line[i] == ':' && #[trigger] line[i + 1] == ' '),
    ensures
        !names_time(line, t),
{
    lemma_no_delimiter(line);
}

} // verus!
