use crate::helper::{helper_flags, select_aur_helper};
use crate::locator::text_of;
use crate::text::chars_of;
use vstd::prelude::*;

verus! {

/// What the program runs with. It is made once from the parsed arguments and only
/// read afterwards.
pub struct RuntimeConfig {
    pub scripts_path: String,
    pub clear_terminal: bool,
    pub verbose: bool,
    pub minimal: bool,
    pub aur_helper_override: Option<String>,
}

/// The arguments ask for more and for less output at once.
#[derive(Clone, Copy, Debug, PartialEq, Eq, Structural)]
pub struct ConflictingFlags;

/// One variable of the environment that the scripts inherit.
pub struct EnvVar {
    pub name: String,
    pub value: String,
}

/// The scripts directory that is used where none is given.
pub open spec fn default_scripts_path() -> Seq<char> {
    "/usr/share/xero-scripts"@
}

/// What a list of variables holds: each name with its value.
pub open spec fn bindings(vars: Seq<EnvVar>) -> Seq<(Seq<char>, Seq<char>)> {
    Seq::new(vars.len(), |i: int| (vars[i].name@, vars[i].value@))
}

/// The value under which the scripts read whether to clear the terminal.
pub open spec fn clear_value(clear: bool) -> Seq<char> {
    if clear {
        "1"@
    } else {
        "0"@
    }
}

/// The environment that the scripts inherit: the scripts directory, whether to
/// clear the terminal, and the helper with its flags once one is chosen.
pub open spec fn environment(
    scripts_path: Seq<char>,
    clear: bool,
    helper: Option<Seq<char>>,
) -> Seq<(Seq<char>, Seq<char>)> {
    let base = seq![("SCRIPTS_PATH"@, scripts_path), ("CLEAR_TERMINAL"@, clear_value(clear))];
    match helper {
        Some(name) => base.push(("AUR_HELPER"@, name + helper_flags())),
        None => base,
    }
}

/// Whether a value of the clear-terminal variable asks for clearing: every value
/// does but `0`, and so does a variable that is not set.
pub open spec fn asks_to_clear(value: Option<Seq<char>>) -> bool {
    match value {
        Some(v) => v != seq!['0'],
        None => true,
    }
}

impl RuntimeConfig {
    /// Builds the configuration from the parsed arguments. Asking for verbose and for
    /// minimal output together is refused.
    pub fn from_flags(
        scripts_path: Option<String>,
        aur_helper: Option<String>,
        verbose: bool,
        minimal: bool,
        do_not_clear: bool,
    ) -> (r: Result<RuntimeConfig, ConflictingFlags>)
        ensures
            r is Err <==> verbose && minimal,
            r matches Ok(c) ==> {
                &&& c.scripts_path@ == match scripts_path {
                    Some(p) => p@,
                    None => default_scripts_path(),
                }
                &&& c.clear_terminal == !do_not_clear
                &&& c.verbose == verbose
                &&& c.minimal == minimal
                &&& c.aur_helper_override == aur_helper
            },
    {
        if verbose && minimal {
            return Err(ConflictingFlags);
        }
        let path = match scripts_path {
            Some(p) => p,
            None => String::from_str("/usr/share/xero-scripts"),
        };
        Ok(
            RuntimeConfig {
                scripts_path: path,
                clear_terminal: !do_not_clear,
                verbose,
                minimal,
                aur_helper_override: aur_helper,
            },
        )
    }

    /// The one variable that is set as soon as the arguments are accepted: whether the
    /// terminal is cleared.
    pub fn clear_setting(&self) -> (r: EnvVar)
        ensures
            r.name@ == "CLEAR_TERMINAL"@,
            r.value@ == clear_value(self.clear_terminal),
    {
        let value = if self.clear_terminal {
            String::from_str("1")
        } else {
            String::from_str("0")
        };
        EnvVar { name: String::from_str("CLEAR_TERMINAL"), value }
    }

    /// The environment handed to the scripts. `helper` is the helper that was chosen,
    /// where one was.
    pub fn child_environment(&self, helper: Option<&str>) -> (r: Vec<EnvVar>)
        ensures
            bindings(r@) == environment(self.scripts_path@, self.clear_terminal, text_of(helper)),
    {
        let mut out: Vec<EnvVar> = Vec::new();
        out.push(
            EnvVar { name: String::from_str("SCRIPTS_PATH"), value: self.scripts_path.clone() },
        );
        out.push(self.clear_setting());
        match helper {
            Some(name) => {
                out.push(
                    EnvVar { name: String::from_str("AUR_HELPER"), value: select_aur_helper(name) },
                );
            },
            None => {},
        }
        assert(bindings(out@) =~= environment(
            self.scripts_path@,
            self.clear_terminal,
            text_of(helper),
        ));
        out
    }
}

/// Whether the terminal is cleared before the menu is drawn, given the value of the
/// clear-terminal variable where it is set.
pub fn should_clear(value: Option<&str>) -> (r: bool)
    ensures
        r == asks_to_clear(text_of(value)),
{
    match value {
        Some(v) => {
            let chars = chars_of(v);
            let zero = chars.len() == 1 && chars[0] == '0';
            assert(zero == (chars@ =~= seq!['0']));
            !zero
        },
        None => true,
    }
}

} // verus!
