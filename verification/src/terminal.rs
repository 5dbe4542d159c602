//! The terminal helper's execution policy.
//!
//! The terminal may only run what the policy admits: execution enabled,
//! a non-empty command free of refused shell metacharacters, a first
//! word on the allow-list (when one is configured), and a working
//! directory inside the root. The actual process is spawned by the
//! surrounding process from the plan computed here.

use vstd::prelude::*;
use crate::gateway::BridgeError;
use crate::text::strings_view;
use crate::text::spec_trim;

verus! {

broadcast use vstd::std_specs::vec::group_vec_axioms;

/// Everything needed to run an admitted command.
#[derive(Debug)]
pub struct ExecPlan {
    pub binary: String,
    pub args: Vec<String>,
    pub display_command: String,
    pub cwd: String,
    pub timeout_ms: u64,
}

/// The terminal policy.
pub struct TerminalService {
    pub root: String,
    pub allowed_commands: Vec<String>,
    pub disabled: bool,
    pub allow_outside_root: bool,
}

/// A timeout clamped into the allowed window, with the default when
/// absent.
pub open spec fn spec_clamp_timeout(timeout_ms: Option<u64>) -> u64 {
    let raw = timeout_ms.unwrap_or(crate::limits::TERMINAL_TIMEOUT_DEFAULT_MS);
    if raw < crate::limits::TERMINAL_TIMEOUT_MIN_MS {
        crate::limits::TERMINAL_TIMEOUT_MIN_MS
    } else if raw > crate::limits::TERMINAL_TIMEOUT_MAX_MS {
        crate::limits::TERMINAL_TIMEOUT_MAX_MS
    } else {
        raw
    }
}

/// Clamps a requested timeout.
pub fn clamp_exec_timeout(timeout_ms: Option<u64>) -> (r: u64)
    ensures
        r == spec_clamp_timeout(timeout_ms),
{
    let raw = match timeout_ms {
        Some(t) => t,
        None => crate::limits::TERMINAL_TIMEOUT_DEFAULT_MS,
    };
    if raw < crate::limits::TERMINAL_TIMEOUT_MIN_MS {
        crate::limits::TERMINAL_TIMEOUT_MIN_MS
    } else if raw > crate::limits::TERMINAL_TIMEOUT_MAX_MS {
        crate::limits::TERMINAL_TIMEOUT_MAX_MS
    } else {
        raw
    }
}

impl TerminalService {
    pub fn new(
        root: String,
        allowed_commands: Vec<String>,
        disabled: bool,
        allow_outside_root: bool,
    ) -> (r: TerminalService)
        ensures
            r.root == root,
            r.allowed_commands == allowed_commands,
            r.disabled == disabled,
            r.allow_outside_root == allow_outside_root,
    {
        TerminalService { root, allowed_commands, disabled, allow_outside_root }
    }

    /// Admits or refuses a shell request: refused when the terminal is
    /// disabled (forbidden), the trimmed command is empty, it holds a
    /// refused metacharacter, its quoting does not parse, or its first
    /// word is off a non-empty allow-list; otherwise the plan carries the
    /// split words, the original trimmed line for display, the resolved
    /// working directory, and the clamped timeout.
    #[verifier::loop_isolation(false)]
    pub fn plan_shell_command(
        &self,
        command: &str,
        cwd: Option<&str>,
        timeout_ms: Option<u64>,
    ) -> (r: Result<ExecPlan, BridgeError>)
        ensures
            self.disabled ==> (r matches Err(e) && e.code == -32003i64),
            match r {
                Ok(plan) => {
                    &&& !self.disabled
                    &&& spec_trim(command@).len() > 0
                    &&& !crate::sanitize::spec_has_disallowed_control_char(spec_trim(command@))
                    &&& (crate::rollout::spec_shlex_split(spec_trim(command@)) matches Some(words)
                        && words.len() > 0 && plan.binary@ == words[0]
                        && strings_view(plan.args@) == words.skip(1) && (strings_view(
                        self.allowed_commands@,
                    ).len() > 0 ==> strings_view(self.allowed_commands@).contains(words[0])))
                    &&& plan.display_command@ == spec_trim(command@)
                    &&& crate::paths::spec_resolve_cwd(
                        match cwd {
                            Some(c) => Some(c@),
                            None => None,
                        },
                        self.root@,
                        self.allow_outside_root,
                    ) == Ok::<Seq<char>, int>(plan.cwd@)
                    &&& plan.timeout_ms == spec_clamp_timeout(timeout_ms)
                },
                Err(e) => e.code == -32003i64 || e.code == -32602i64,
            },
    {
        if self.disabled {
            return Err(
                BridgeError::forbidden(
                    "terminal_exec_disabled",
                    "Terminal execution is disabled on this bridge.",
                ),
            );
        }
        let trimmed = crate::text::trim_str(command);
        if trimmed.as_str().is_empty() {
            return Err(BridgeError::invalid_params("command must not be empty"));
        }
        if crate::sanitize::contains_disallowed_control_chars(trimmed.as_str()) {
            return Err(
                BridgeError::invalid_params("command contains disallowed control characters"),
            );
        }
        let mut tokens = match crate::rollout::shell_split_command(trimmed.as_str()) {
            Some(tokens) => tokens,
            None => {
                return Err(BridgeError::invalid_params("invalid command quoting"));
            },
        };
        if tokens.len() == 0 {
            return Err(BridgeError::invalid_params("command must not be empty"));
        }
        if self.allowed_commands.len() > 0 {
            let mut found = false;
            let mut i: usize = 0;
            while i < self.allowed_commands.len()
                invariant
                    0 <= i <= self.allowed_commands@.len(),
                    !found ==> forall|j: int|
                        0 <= j < i ==> strings_view(self.allowed_commands@)[j] != tokens@[0]@,
                    found ==> strings_view(self.allowed_commands@).contains(tokens@[0]@),
                decreases self.allowed_commands@.len() - i,
            {
                if crate::json::str_eq(self.allowed_commands[i].as_str(), tokens[0].as_str()) {
                    found = true;
                    proof {
                        assert(strings_view(self.allowed_commands@)[i as int] == tokens@[0]@);
                    }
                    break ;
                }
                i += 1;
            }
            if !found {
                return Err(BridgeError::invalid_params("command is not allowed"));
            }
        }
        let cwd_resolved = match crate::paths::resolve_exec_cwd(
            cwd,
            self.root.as_str(),
            self.allow_outside_root,
        ) {
            Ok(path) => path,
            Err(e) => {
                return Err(e);
            },
        };
        let ghost words = crate::rollout::spec_shlex_split(spec_trim(command@)).unwrap();
        let binary = tokens[0].clone();
        let mut args: Vec<String> = Vec::new();
        let mut k: usize = 1;
        proof {
            assert(strings_view(tokens@) == words);
            assert(words.skip(1).take(0) =~= Seq::<Seq<char>>::empty());
            assert(strings_view(args@) =~= Seq::<Seq<char>>::empty());
        }
        while k < tokens.len()
            invariant
                1 <= k <= tokens@.len(),
                strings_view(tokens@) == words,
                words.len() == tokens@.len(),
                strings_view(args@) =~= words.skip(1).take(k - 1),
            decreases tokens@.len() - k,
        {
            let ghost before_args = strings_view(args@);
            let piece = tokens[k].clone();
            args.push(piece);
            proof {
                assert(strings_view(args@) =~= before_args.push(tokens@[k as int]@));
                assert(words.skip(1).take(k as int) =~= words.skip(1).take(k - 1).push(
                    words[k as int],
                ));
            }
            k += 1;
        }
        proof {
            assert(strings_view(args@) =~= words.skip(1));
        }
        Ok(
            ExecPlan {
                binary,
                args,
                display_command: trimmed,
                cwd: cwd_resolved,
                timeout_ms: clamp_exec_timeout(timeout_ms),
            },
        )
    }
}

} // verus!
