//! First-run wizard steps. Skipping is allowed at every step.
//!
//! macOS has a `Permissions` step between Welcome and TalkKey for the
//! microphone and Accessibility.

use crate::chars::{cat, str_eq};
use crate::platform::Platform;
use vstd::prelude::*;
use vstd::string::*;

verus! {

#[derive(Debug, Clone, Copy, PartialEq, Eq, Structural)]
pub enum OnboardStep {
    Welcome,
    /// macOS only: microphone and Accessibility grants.
    Permissions,
    TalkKey,
    MicTest,
    Download,
    Done,
}

impl OnboardStep {
    /// The name of a step.
    pub open spec fn name(self) -> Seq<char> {
        match self {
            OnboardStep::Welcome => "welcome"@,
            OnboardStep::Permissions => "permissions"@,
            OnboardStep::TalkKey => "talkkey"@,
            OnboardStep::MicTest => "mictest"@,
            OnboardStep::Download => "download"@,
            OnboardStep::Done => "done"@,
        }
    }

    pub fn as_str(self) -> (r: &'static str)
        ensures
            r@ == self.name(),
    {
        match self {
            OnboardStep::Welcome => "welcome",
            OnboardStep::Permissions => "permissions",
            OnboardStep::TalkKey => "talkkey",
            OnboardStep::MicTest => "mictest",
            OnboardStep::Download => "download",
            OnboardStep::Done => "done",
        }
    }

    pub fn parse(s: &str) -> (r: Option<Self>)
        ensures
            r == step_named(s@),
    {
        if str_eq(s, "welcome") {
            Some(OnboardStep::Welcome)
        } else if str_eq(s, "permissions") {
            Some(OnboardStep::Permissions)
        } else if str_eq(s, "talkkey") {
            Some(OnboardStep::TalkKey)
        } else if str_eq(s, "mictest") {
            Some(OnboardStep::MicTest)
        } else if str_eq(s, "download") {
            Some(OnboardStep::Download)
        } else if str_eq(s, "done") {
            Some(OnboardStep::Done)
        } else {
            None
        }
    }
}

/// The step of a name.
pub open spec fn step_named(s: Seq<char>) -> Option<OnboardStep> {
    if s == "welcome"@ {
        Some(OnboardStep::Welcome)
    } else if s == "permissions"@ {
        Some(OnboardStep::Permissions)
    } else if s == "talkkey"@ {
        Some(OnboardStep::TalkKey)
    } else if s == "mictest"@ {
        Some(OnboardStep::MicTest)
    } else if s == "download"@ {
        Some(OnboardStep::Download)
    } else if s == "done"@ {
        Some(OnboardStep::Done)
    } else {
        None
    }
}

/// Each step is found under its own name.
pub proof fn lemma_step_names(step: OnboardStep)
    ensures
        step_named(step.name()) == Some(step),
{
    reveal_strlit("welcome");
    reveal_strlit("permissions");
    reveal_strlit("talkkey");
    reveal_strlit("mictest");
    reveal_strlit("download");
    reveal_strlit("done");
    assert("welcome"@.len() == 7 && "welcome"@[0] == 'w');
    assert("permissions"@.len() == 11);
    assert("talkkey"@.len() == 7 && "talkkey"@[0] == 't');
    assert("mictest"@.len() == 7 && "mictest"@[0] == 'm');
    assert("download"@.len() == 8);
    assert("done"@.len() == 4);
}

/// The step behind a step.
pub open spec fn step_after(step: OnboardStep, platform: Platform) -> OnboardStep {
    match step {
        OnboardStep::Welcome => if platform == Platform::MacOs {
            OnboardStep::Permissions
        } else {
            OnboardStep::TalkKey
        },
        OnboardStep::Permissions => OnboardStep::TalkKey,
        OnboardStep::TalkKey => OnboardStep::MicTest,
        OnboardStep::MicTest => OnboardStep::Download,
        OnboardStep::Download => OnboardStep::Done,
        OnboardStep::Done => OnboardStep::Done,
    }
}

pub fn next(step: OnboardStep, platform: Platform) -> (r: OnboardStep)
    ensures
        r == step_after(step, platform),
{
    match step {
        OnboardStep::Welcome => if platform == Platform::MacOs {
            OnboardStep::Permissions
        } else {
            OnboardStep::TalkKey
        },
        OnboardStep::Permissions => OnboardStep::TalkKey,
        OnboardStep::TalkKey => OnboardStep::MicTest,
        OnboardStep::MicTest => OnboardStep::Download,
        OnboardStep::Download => OnboardStep::Done,
        OnboardStep::Done => OnboardStep::Done,
    }
}

/// The step before a step.
pub open spec fn step_before(step: OnboardStep, platform: Platform) -> OnboardStep {
    match step {
        OnboardStep::Welcome => OnboardStep::Welcome,
        OnboardStep::Permissions => OnboardStep::Welcome,
        OnboardStep::TalkKey => if platform == Platform::MacOs {
            OnboardStep::Permissions
        } else {
            OnboardStep::Welcome
        },
        OnboardStep::MicTest => OnboardStep::TalkKey,
        OnboardStep::Download => OnboardStep::MicTest,
        OnboardStep::Done => OnboardStep::Download,
    }
}

pub fn prev(step: OnboardStep, platform: Platform) -> (r: OnboardStep)
    ensures
        r == step_before(step, platform),
{
    match step {
        OnboardStep::Welcome => OnboardStep::Welcome,
        OnboardStep::Permissions => OnboardStep::Welcome,
        OnboardStep::TalkKey => if platform == Platform::MacOs {
            OnboardStep::Permissions
        } else {
            OnboardStep::Welcome
        },
        OnboardStep::MicTest => OnboardStep::TalkKey,
        OnboardStep::Download => OnboardStep::MicTest,
        OnboardStep::Done => OnboardStep::Download,
    }
}

/// Whether the wizard of a platform has a step.
pub open spec fn has_step(step: OnboardStep, platform: Platform) -> bool {
    step == OnboardStep::Permissions ==> platform == Platform::MacOs
}

/// Going on and back again, or back and on again, ends at the same step of the
/// wizard, unless the wizard was at its end or its start.
pub proof fn lemma_steps_undo(step: OnboardStep, platform: Platform)
    requires
        has_step(step, platform),
    ensures
        has_step(step_after(step, platform), platform),
        has_step(step_before(step, platform), platform),
        step != OnboardStep::Done ==> step_before(step_after(step, platform), platform) == step,
        step != OnboardStep::Welcome ==> step_after(step_before(step, platform), platform) == step,
{
}

/// The name of the step behind or before the step of a name.
pub fn onboard_step(current: &str, backward: bool, platform: Platform) -> (r: Result<
    &'static str,
    String,
>)
    ensures
        match (r, step_named(current@)) {
            (Ok(s), Some(step)) => s@ == (if backward {
                step_before(step, platform)
            } else {
                step_after(step, platform)
            }).name(),
            (Err(e), None) => e@ == "unknown onboard step: "@ + current@,
            _ => false,
        },
{
    match OnboardStep::parse(current) {
        Some(step) => {
            let to = if backward {
                prev(step, platform)
            } else {
                next(step, platform)
            };
            Ok(to.as_str())
        },
        None => Err(cat("unknown onboard step: ", current)),
    }
}

/// The model that the download step recommends.
pub fn recommended_model_id() -> (r: &'static str)
    ensures
        r@ == "parakeet-v3"@,
{
    "parakeet-v3"
}

} // verus!
