//! Launcher provisioning decisions.  Provisioning downloads and extracts the
//! launcher archive only when the launcher binary is missing, and writes each
//! companion file (configuration, launch script) only when that file does not
//! exist yet, so user edits survive every later run.

use vstd::prelude::*;

verus! {

/// What already exists under the launcher directory before a run.
#[derive(Clone, Copy, Debug, PartialEq, Eq, Structural)]
pub struct ProvisionState {
    /// The launcher binary is present.
    pub launcher_present: bool,
    /// The launcher configuration file is present.
    pub config_present: bool,
    /// The launch script is present.
    pub script_present: bool,
}

/// The actions one provisioning run performs.
#[derive(Clone, Copy, Debug, PartialEq, Eq, Structural)]
pub struct ProvisionPlan {
    /// Download the launcher archive and extract it.
    pub download_and_extract: bool,
    /// Write the bundled configuration file.
    pub write_config: bool,
    /// Write the bundled launch script.
    pub write_script: bool,
}

/// The plan provisioning follows in state `s`: nothing at all when the
/// binary is already there, and otherwise a download plus a write of each
/// companion file that is still absent.
pub open spec fn provision_plan_spec(s: ProvisionState) -> ProvisionPlan {
    ProvisionPlan {
        download_and_extract: !s.launcher_present,
        write_config: !s.launcher_present && !s.config_present,
        write_script: !s.launcher_present && !s.script_present,
    }
}

/// The state after a plan executed successfully: extraction supplies the
/// binary, and each companion file exists once written.
pub open spec fn provision_after_spec(s: ProvisionState, p: ProvisionPlan) -> ProvisionState {
    ProvisionState {
        launcher_present: s.launcher_present || p.download_and_extract,
        config_present: s.config_present || p.write_config,
        script_present: s.script_present || p.write_script,
    }
}

/// Decide what a provisioning run must do in state `s`.
pub fn plan_provision(s: &ProvisionState) -> (r: ProvisionPlan)
    ensures
        r == provision_plan_spec(*s),
{
    ProvisionPlan {
        download_and_extract: !s.launcher_present,
        write_config: !s.launcher_present && !s.config_present,
        write_script: !s.launcher_present && !s.script_present,
    }
}

/// The state a successful run of `plan` leaves behind.
pub fn apply_provision(s: &ProvisionState, plan: &ProvisionPlan) -> (r: ProvisionState)
    ensures
        r == provision_after_spec(*s, *plan),
{
    ProvisionState {
        launcher_present: s.launcher_present || plan.download_and_extract,
        config_present: s.config_present || plan.write_config,
        script_present: s.script_present || plan.write_script,
    }
}

/// Idempotent provisioning: after any successful run, a second run performs
/// no download and no write at all — in particular, when the launcher binary
/// already exists, no network request is ever made, and companion files that
/// exist (however edited) are never overwritten.
pub proof fn lemma_provision_idempotent(s: ProvisionState)
    ensures
        provision_plan_spec(provision_after_spec(s, provision_plan_spec(s))) == (ProvisionPlan {
            download_and_extract: false,
            write_config: false,
            write_script: false,
        }),
{
}

/// First-run template writes: a companion file is written exactly when the
/// binary is missing (so provisioning runs at all) and that file is absent;
/// a present file is never written, so its contents stay intact.
pub proof fn lemma_first_run_template_write(s: ProvisionState)
    ensures
        provision_plan_spec(s).write_config == (!s.launcher_present && !s.config_present),
        provision_plan_spec(s).write_script == (!s.launcher_present && !s.script_present),
        s.config_present ==> !provision_plan_spec(s).write_config,
        s.script_present ==> !provision_plan_spec(s).write_script,
{
}

} // verus!
