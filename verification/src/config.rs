//! Whether direct connectivity is wanted.

use crate::text::eq_ignore_ascii_case;
use crate::text::only_ascii_case_is_ignored;
use crate::text::same_ignoring_ascii_case;
use crate::text::same_text;
use vstd::prelude::*;

verus! {

/// The environment variable that turns direct connectivity on.
pub const DIRECT_PATH_ENV_VAR: &'static str = "GOOGLE_CLOUD_ENABLE_DIRECT_PATH_XDS";

/// Controls whether direct connectivity (ALTS + DirectPath) is used for
/// gRPC connections to Google Cloud services.
///
/// Direct connectivity enables gRPC requests from Compute Engine VMs to
/// bypass Google Front Ends (GFEs) and route directly to the backend
/// service, reducing latency and connection overhead.
///
/// This requires the application to be running on a Compute Engine VM
/// that is co-located with the target resource's region.
#[derive(Clone, Copy, Debug)]
pub enum DirectConnectivityMode {
    /// Automatically detect if running on GCE and enable direct connectivity
    /// if available. Falls back to standard TLS via GFEs if not on GCE.
    Auto,
    /// Force-enable direct connectivity. Connection will fail if the
    /// environment does not support direct connectivity (e.g., not on GCE).
    Enabled,
    /// Never use direct connectivity. Always use standard TLS via GFEs.
    Disabled,
}

impl Default for DirectConnectivityMode {
    /// Direct connectivity is off unless it is asked for.
    fn default() -> (mode: Self)
        ensures
            mode == DirectConnectivityMode::Disabled,
    {
        DirectConnectivityMode::Disabled
    }
}

/// The value of the environment variable asks for direct connectivity: it is
/// `1`, or `true` in any case.
pub open spec fn asks_for_direct_path(value: Seq<char>) -> bool {
    same_ignoring_ascii_case(value, "true"@) || value == "1"@
}

/// The values of the environment variable that ask for direct connectivity:
/// the digit `1`, and the four letters of `true`, each in either case.
pub proof fn asking_values(v: Seq<char>)
    ensures
        asks_for_direct_path(v) <==> v == "1"@ || (v.len() == 4 && (v[0] == 't' || v[0] == 'T') && (
        v[1] == 'r' || v[1] == 'R') && (v[2] == 'u' || v[2] == 'U') && (v[3] == 'e' || v[3]
            == 'E')),
{
    reveal_strlit("true");
    only_ascii_case_is_ignored(v, "true"@);
    if v.len() == 4 && (v[0] == 't' || v[0] == 'T') && (v[1] == 'r' || v[1] == 'R') && (v[2] == 'u'
        || v[2] == 'U') && (v[3] == 'e' || v[3] == 'E') {
        assert forall|i: int| 0 <= i < v.len() implies {
            ||| #[trigger] v[i] == "true"@[i]
            ||| 'A' <= v[i] <= 'Z' && "true"@[i] as int == v[i] as int + 32
            ||| 'A' <= "true"@[i] <= 'Z' && v[i] as int == "true"@[i] as int + 32
        } by {
            assert(i == 0 || i == 1 || i == 2 || i == 3);
        }
    }
    if asks_for_direct_path(v) && v != "1"@ {
        assert(v[0] == v[0] && v[1] == v[1] && v[2] == v[2] && v[3] == v[3]);
    }
}

/// Resolves the effective direct connectivity mode by checking the explicit
/// configuration first, then falling back to the value of the environment
/// variable [`DIRECT_PATH_ENV_VAR`], where it is set.
pub fn resolve_mode(explicit: Option<&DirectConnectivityMode>, variable: Option<&str>) -> (mode:
    DirectConnectivityMode)
    ensures
        mode == match explicit {
            Some(explicit) => *explicit,
            None => if variable is Some && asks_for_direct_path(variable->0@) {
                DirectConnectivityMode::Auto
            } else {
                DirectConnectivityMode::Disabled
            },
        },
        explicit is None ==> match variable {
            None => mode is Disabled,
            Some(value) => {
                let v = value@;
                if v == "1"@ || (v.len() == 4 && (v[0] == 't' || v[0] == 'T') && (v[1] == 'r' || v[1]
                    == 'R') && (v[2] == 'u' || v[2] == 'U') && (v[3] == 'e' || v[3] == 'E')) {
                    mode is Auto
                } else {
                    mode is Disabled
                }
            },
        },
{
    proof {
        reveal_strlit("true");
        if let Some(value) = variable {
            asking_values(value@);
        }
    }
    if let Some(mode) = explicit {
        return *mode;
    }
    if let Some(value) = variable {
        if eq_ignore_ascii_case(value, "true") || same_text(value, "1") {
            return DirectConnectivityMode::Auto;
        }
    }
    DirectConnectivityMode::Disabled
}

/// Whether the answer of [`should_use_direct_connectivity`] depends on where
/// the process runs, so that this has to be found out first.
pub fn depends_on_gce(mode: &DirectConnectivityMode) -> (depends: bool)
    ensures
        depends == (should_use(*mode, true) != should_use(*mode, false)),
        depends == (mode is Auto),
{
    match mode {
        DirectConnectivityMode::Auto => true,
        _ => false,
    }
}

/// Direct connectivity is to be used in a mode, on a GCE VM or elsewhere.
pub open spec fn should_use(mode: DirectConnectivityMode, on_gce: bool) -> bool {
    match mode {
        DirectConnectivityMode::Disabled => false,
        DirectConnectivityMode::Enabled => true,
        DirectConnectivityMode::Auto => on_gce,
    }
}

/// Determines whether direct connectivity should be used, from the
/// configuration and from whether the process runs on a GCE VM.
pub fn should_use_direct_connectivity(mode: &DirectConnectivityMode, on_gce: bool) -> (r: bool)
    ensures
        r == should_use(*mode, on_gce),
        mode is Disabled ==> !r,
        mode is Enabled ==> r,
        mode is Auto ==> r == on_gce,
{
    match mode {
        DirectConnectivityMode::Disabled => false,
        DirectConnectivityMode::Enabled => true,
        DirectConnectivityMode::Auto => on_gce,
    }
}

/// Direct connectivity is never used where it is turned off, is used everywhere
/// where it is forced, and otherwise is used on a GCE VM and nowhere else.
pub proof fn use_follows_mode(mode: DirectConnectivityMode, on_gce: bool)
    ensures
        should_use(mode, on_gce) <==> mode is Enabled || (mode is Auto && on_gce),
{
}

/// The name of the environment variable.
pub proof fn variable_name()
    ensures
        DIRECT_PATH_ENV_VAR@ == "GOOGLE_CLOUD_ENABLE_DIRECT_PATH_XDS"@,
{
}

} // verus!
