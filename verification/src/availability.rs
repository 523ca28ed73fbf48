//! Whether the host can currently use IPv6.
//!
//! The host tells through a disable indicator, read by the caller: the text
//! `0` means that IPv6 is not disabled. Any other text, and a failed read,
//! count as "no IPv6". A detector can be told to pretend that there is no
//! IPv6 at all, and remembers what it found until it is reconfigured.

use vstd::prelude::*;

verus! {

/// Key of the host's IPv6 disable indicator.
pub fn indicator_key() -> (key: &'static str)
    ensures
        key@ == "net.ipv6.conf.all.disable_ipv6"@,
{
    "net.ipv6.conf.all.disable_ipv6"
}

/// Whether the indicator says that IPv6 is usable. An indicator that could
/// not be read is `None`.
pub open spec fn indicator_allows_ipv6(indicator: Option<Seq<char>>) -> bool {
    indicator == Some(seq!['0'])
}

/// IPv6 is usable if nothing forces IPv4 and the indicator allows it.
pub open spec fn ipv6_enabled(force_ipv4_only: bool, indicator: Option<Seq<char>>) -> bool {
    !force_ipv4_only && indicator_allows_ipv6(indicator)
}

/// The view of an optional text.
pub open spec fn text_of(indicator: Option<&str>) -> Option<Seq<char>> {
    match indicator {
        Some(s) => Some(s@),
        None => None,
    }
}

/// Decides from the indicator whether IPv6 is usable; fails safe to `false`.
pub fn is_ipv6_enabled(force_ipv4_only: bool, indicator: Option<&str>) -> (enabled: bool)
    ensures
        enabled == ipv6_enabled(force_ipv4_only, text_of(indicator)),
{
    if force_ipv4_only {
        return false;
    }
    match indicator {
        None => false,
        Some(text) => {
            let n = text.unicode_len();
            if n != 1 {
                return false;
            }
            let c = text.get_char(0);
            proof {
                if c == '0' {
                    assert(text@ =~= seq!['0']);
                } else {
                    assert(text@[0] != seq!['0'][0]);
                }
            }
            c == '0'
        },
    }
}

/// Remembers the answer for the lifetime of the process.
#[derive(Clone, Copy, Debug, PartialEq, Eq, Structural)]
pub struct ProtocolAvailabilityDetector {
    /// Pretend that the host has no IPv6, whatever the indicator says.
    pub force_ipv4_only: bool,
    /// What was found at the last read, if any since the last reconfiguration.
    pub cached: Option<bool>,
}

impl ProtocolAvailabilityDetector {
    /// The answer of a detector to which the indicator is handed.
    pub open spec fn answer(self, indicator: Option<Seq<char>>) -> bool {
        if self.force_ipv4_only {
            false
        } else {
            match self.cached {
                Some(known) => known,
                None => indicator_allows_ipv6(indicator),
            }
        }
    }

    /// The detector after it has answered: unless IPv4 is forced, it
    /// remembers the answer it gave.
    pub open spec fn observed(self, indicator: Option<Seq<char>>) -> ProtocolAvailabilityDetector {
        if self.force_ipv4_only {
            self
        } else {
            ProtocolAvailabilityDetector {
                force_ipv4_only: false,
                cached: Some(self.answer(indicator)),
            }
        }
    }

    /// A detector that has read nothing yet.
    pub fn new(force_ipv4_only: bool) -> (detector: ProtocolAvailabilityDetector)
        ensures
            detector.force_ipv4_only == force_ipv4_only,
            detector.cached is None,
    {
        ProtocolAvailabilityDetector { force_ipv4_only, cached: None }
    }

    /// Whether the indicator has to be read for the next answer.
    pub fn needs_indicator(&self) -> (b: bool)
        ensures
            b == (!self.force_ipv4_only && self.cached is None),
    {
        !self.force_ipv4_only && self.cached.is_none()
    }

    /// Whether IPv6 is usable. The indicator is looked at only if nothing is
    /// forced and nothing is remembered; what it says is then remembered.
    pub fn ipv6_available(&mut self, indicator: Option<&str>) -> (available: bool)
        ensures
            available == old(self).answer(text_of(indicator)),
            *final(self) == old(self).observed(text_of(indicator)),
    {
        if self.force_ipv4_only {
            return false;
        }
        match self.cached {
            Some(known) => known,
            None => {
                let found = is_ipv6_enabled(false, indicator);
                self.cached = Some(found);
                found
            },
        }
    }

    /// Changes the override and forgets what was remembered.
    pub fn reconfigure(&mut self, force_ipv4_only: bool)
        ensures
            final(self).force_ipv4_only == force_ipv4_only,
            final(self).cached is None,
    {
        self.force_ipv4_only = force_ipv4_only;
        self.cached = None;
    }
}

/// Once a detector has answered, it repeats that answer whatever the
/// indicator says later, until it is reconfigured.
pub proof fn lemma_answer_is_remembered(
    detector: ProtocolAvailabilityDetector,
    first: Option<Seq<char>>,
    later: Option<Seq<char>>,
)
    ensures
        detector.observed(first).answer(later) == detector.answer(first),
        detector.observed(first).observed(later) == detector.observed(first),
{
}

/// A failed read never makes IPv6 usable, and the override always wins.
pub proof fn lemma_fails_safe(detector: ProtocolAvailabilityDetector, indicator: Option<Seq<char>>)
    ensures
        detector.force_ipv4_only ==> !detector.answer(indicator),
        detector.cached is None && indicator is None ==> !detector.answer(indicator),
{
}

} // verus!
