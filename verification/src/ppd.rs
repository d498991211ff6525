//! The profile axis: delegated to power-profiles-daemon (PPD), or written to the kernel
//! where there is no PPD.
//!
//! PPD owns the platform profile, and the desktop's power slider is wired to PPD. Writing
//! the file behind its back would be last-writer-wins against the desktop.

use vstd::prelude::*;
use crate::paths::PLATFORM_PROFILE;
use crate::profile::{ppd_name, ppd_named, Ppd};
use crate::sysfs::{FileOp, Op};
use crate::text::{same, trim, trimmed};

verus! {

/// How the PPD axis is being driven.
#[derive(Debug, Clone, Copy, PartialEq, Eq, Structural)]
pub enum Backend {
    /// Delegating to PPD.
    Ppd,
    /// PPD is absent, so the platform profile is written directly, and the desktop's slider
    /// is not in the loop.
    DirectSysfs,
    /// Neither available.
    Absent,
}

impl Backend {
    pub open spec fn spec_text(self) -> Seq<char> {
        match self {
            Backend::Ppd => "ppd"@,
            Backend::DirectSysfs => "platform_profile"@,
            Backend::Absent => "none"@,
        }
    }

    pub fn text(self) -> (r: &'static str)
        ensures
            r@ == self.spec_text(),
    {
        match self {
            Backend::Ppd => "ppd",
            Backend::DirectSysfs => "platform_profile",
            Backend::Absent => "none",
        }
    }
}

/// What to do to switch profile.
#[derive(Debug, Clone, PartialEq, Eq)]
pub enum Switch {
    /// Ask PPD for the profile of this name.
    AskPpd(&'static str),
    /// Write the kernel's file.
    Write(FileOp),
}

/// The profile that one of the kernel's names stands for: its vocabulary is not PPD's.
pub open spec fn acpi_named(s: Seq<char>) -> Option<Ppd> {
    if s == "low-power"@ || s == "quiet"@ {
        Some(Ppd::PowerSaver)
    } else if s == "balanced"@ {
        Some(Ppd::Balanced)
    } else if s == "performance"@ {
        Some(Ppd::Performance)
    } else {
        None
    }
}

/// The kernel's name for a profile.
pub open spec fn acpi_name(p: Ppd) -> Seq<char> {
    match p {
        Ppd::PowerSaver => "low-power"@,
        Ppd::Balanced => "balanced"@,
        Ppd::Performance => "performance"@,
    }
}

/// Which of the two drives the axis: whether PPD answered.
#[derive(Debug, Clone, Copy, PartialEq, Eq, Structural)]
pub struct ProfileAxis {
    connected: bool,
}

impl ProfileAxis {
    pub closed spec fn has_ppd(self) -> bool {
        self.connected
    }

    /// PPD answered.
    pub fn connect(answered: bool) -> (r: Self)
        ensures
            r.has_ppd() == answered,
    {
        Self { connected: answered }
    }

    /// No PPD at all.
    pub fn disconnected() -> (r: Self)
        ensures
            !r.has_ppd(),
    {
        Self { connected: false }
    }

    /// How the axis is driven, given whether the kernel has a platform profile.
    pub fn backend(&self, platform_profile: bool) -> (r: Backend)
        ensures
            r == (if self.has_ppd() {
                Backend::Ppd
            } else if platform_profile {
                Backend::DirectSysfs
            } else {
                Backend::Absent
            }),
    {
        if self.connected {
            Backend::Ppd
        } else if platform_profile {
            Backend::DirectSysfs
        } else {
            Backend::Absent
        }
    }

    /// The active profile, from what PPD reports or, without it, from the kernel's file.
    pub fn active(&self, said: Option<&str>) -> (r: Option<Ppd>)
        ensures
            r == (match said {
                None => None,
                Some(s) => if self.has_ppd() {
                    ppd_named(s@)
                } else {
                    acpi_named(trimmed(s@))
                },
            }),
    {
        match said {
            None => None,
            Some(s) => if self.connected {
                Ppd::parse(s)
            } else {
                let s = trim(s);
                if same(s, "low-power") || same(s, "quiet") {
                    Some(Ppd::PowerSaver)
                } else if same(s, "balanced") {
                    Some(Ppd::Balanced)
                } else if same(s, "performance") {
                    Some(Ppd::Performance)
                } else {
                    None
                }
            },
        }
    }

    /// How to switch to a profile.
    pub fn set(&self, ppd: Ppd) -> (r: Switch)
        ensures
            if self.has_ppd() {
                r matches Switch::AskPpd(n) && n@ == ppd_name(ppd)
            } else {
                r matches Switch::Write(op) && op@ == Op::Write(PLATFORM_PROFILE@, acpi_name(ppd))
            },
    {
        if self.connected {
            Switch::AskPpd(ppd.as_str())
        } else {
            let value = match ppd {
                Ppd::PowerSaver => "low-power",
                Ppd::Balanced => "balanced",
                Ppd::Performance => "performance",
            };
            Switch::Write(FileOp::Write(PLATFORM_PROFILE.to_owned(), value.to_owned()))
        }
    }

    /// What to say where switching failed.
    pub fn failure(&self, ppd: Ppd, why: &str) -> (r: String)
        ensures
            r@ == (if self.has_ppd() {
                "PPD refused "@ + ppd_name(ppd) + ": "@ + why@
            } else {
                "cannot write platform_profile: "@ + why@
            }),
    {
        if self.connected {
            let mut s = "PPD refused ".to_owned();
            s.append(ppd.as_str());
            s.append(": ");
            s.append(why);
            s
        } else {
            let mut s = "cannot write platform_profile: ".to_owned();
            s.append(why);
            s
        }
    }
}

/// What was written to the kernel's file reads back as the same profile.
pub proof fn acpi_names_round_trip(p: Ppd)
    ensures
        acpi_named(acpi_name(p)) == Some(p),
{
    reveal_strlit("low-power");
    reveal_strlit("quiet");
    reveal_strlit("balanced");
    reveal_strlit("performance");
    assert("low-power"@.len() == 9 && "quiet"@.len() == 5 && "balanced"@.len() == 8
        && "performance"@.len() == 11);
}

/// No name stands for a profile but those that the kernel has for it; the fan's own quiet name
/// counts as saving power.
pub proof fn only_the_kernels_names_stand_for_a_profile(s: Seq<char>)
    ensures
        acpi_named(s) == Some(Ppd::PowerSaver) <==> s == "low-power"@ || s == "quiet"@,
        acpi_named(s) == Some(Ppd::Balanced) <==> s == "balanced"@,
        acpi_named(s) == Some(Ppd::Performance) <==> s == "performance"@,
{
    reveal_strlit("low-power");
    reveal_strlit("quiet");
    reveal_strlit("balanced");
    reveal_strlit("performance");
    assert("low-power"@.len() == 9 && "quiet"@.len() == 5 && "balanced"@.len() == 8
        && "performance"@.len() == 11);
}

}
