//! Running at logon: the scheduled-task scripts and when to run them.

use vstd::prelude::*;
use vstd::string::*;

use crate::config::StartupConfig;
use crate::text::{chars_of, decimal, push_char, u64_to_decimal};

verus! {

/// A path made safe inside a single-quoted PowerShell string: each `'`
/// doubled.
pub open spec fn ps_quote_escape(s: Seq<char>) -> Seq<char>
    decreases s.len(),
{
    if s.len() == 0 {
        Seq::empty()
    } else {
        ps_quote_escape(s.drop_last()) + (if s.last() == '\'' {
            seq!['\'', '\'']
        } else {
            seq![s.last()]
        })
    }
}

/// Doubles every `'` in `s`.
pub fn escape_single_quotes(s: &str) -> (r: String)
    ensures
        r@ == ps_quote_escape(s@),
{
    let cs = chars_of(s);
    let mut out = String::new();
    let mut i: usize = 0;
    while i < cs.len()
        invariant
            i <= cs.len(),
            cs@ == s@,
            out@ == ps_quote_escape(cs@.take(i as int)),
        decreases cs.len() - i,
    {
        assert(cs@.take(i + 1).drop_last() =~= cs@.take(i as int));
        if cs[i] == '\'' {
            push_char(&mut out, '\'');
            push_char(&mut out, '\'');
        } else {
            push_char(&mut out, cs[i]);
        }
        i = i + 1;
        assert(out@ =~= ps_quote_escape(cs@.take(i as int)));
    }
    assert(cs@.take(cs.len() as int) =~= cs@);
    out
}

/// The PowerShell script that registers the logon task: a logon trigger
/// delayed by `delay_s` seconds (an ISO 8601 duration), an action running
/// the executable, no time limit, allowed on batteries, replacing any task
/// of the same name.
pub open spec fn register_script_spec(exe_path: Seq<char>, delay_s: u32) -> Seq<char> {
    "$t = New-ScheduledTaskTrigger -AtLogOn; $t.Delay = 'PT"@ + decimal(delay_s as nat)
        + "S'; $a = New-ScheduledTaskAction -Execute '\""@ + ps_quote_escape(exe_path)
        + "\"'; $s = New-ScheduledTaskSettingsSet -ExecutionTimeLimit 0 -AllowStartIfOnBatteries $true; Register-ScheduledTask -TaskName 'HideDesktopApps' -Trigger $t -Action $a -Settings $s -Force | Out-Null"@
}

/// The script that registers the app to run at logon.
pub fn register_script(exe_path: &str, delay_s: u32) -> (r: String)
    ensures
        r@ == register_script_spec(exe_path@, delay_s),
{
    let mut s = String::from_str("$t = New-ScheduledTaskTrigger -AtLogOn; $t.Delay = 'PT");
    let d = u64_to_decimal(delay_s as u64);
    s.append(d.as_str());
    s.append("S'; $a = New-ScheduledTaskAction -Execute '\"");
    let e = escape_single_quotes(exe_path);
    s.append(e.as_str());
    s.append(
        "\"'; $s = New-ScheduledTaskSettingsSet -ExecutionTimeLimit 0 -AllowStartIfOnBatteries $true; Register-ScheduledTask -TaskName 'HideDesktopApps' -Trigger $t -Action $a -Settings $s -Force | Out-Null",
    );
    s
}

/// The script that removes the logon task, quietly if it is absent.
pub fn unregister_script() -> (r: String)
    ensures
        r@ == "Unregister-ScheduledTask -TaskName 'HideDesktopApps' -Confirm:$false -ErrorAction SilentlyContinue"@,
{
    String::from_str(
        "Unregister-ScheduledTask -TaskName 'HideDesktopApps' -Confirm:$false -ErrorAction SilentlyContinue",
    )
}

/// The next step in bringing the logon task in line with the settings.
#[derive(Debug, Clone, Copy, PartialEq, Eq, Structural)]
pub enum StartupStep {
    /// Register (or re-register) the task with this delay in seconds.
    Register(u32),
    /// Find out whether the task exists, then ask again.
    QueryRegistration,
    /// Remove the task.
    Unregister,
    /// Nothing to do.
    Nothing,
}

/// The step for the startup settings, given what is known about whether the
/// task exists (`None`: not yet asked). Enabled startup is always
/// re-registered, so the delay follows the settings; disabled startup
/// removes the task only if it exists.
pub fn sync_startup(config: &StartupConfig, registered: Option<bool>) -> (r: StartupStep)
    ensures
        r == (if config.enabled {
            StartupStep::Register(config.delay_s)
        } else {
            match registered {
                None => StartupStep::QueryRegistration,
                Some(true) => StartupStep::Unregister,
                Some(false) => StartupStep::Nothing,
            }
        }),
{
    if config.enabled {
        StartupStep::Register(config.delay_s)
    } else {
        match registered {
            None => StartupStep::QueryRegistration,
            Some(true) => StartupStep::Unregister,
            Some(false) => StartupStep::Nothing,
        }
    }
}

} // verus!
