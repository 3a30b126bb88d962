//! What the offline commands and the start of the program decide.

use vstd::prelude::*;

use crate::config::{config_reads, problem, warnings_of, Config};
use crate::text;
use crate::text::{decimal, is_blank, views};
use crate::toml_tree::{toml_of, Tree};

verus! {

/// What a strict look at a configuration comes to.
pub struct Checked {
    /// The configuration as it is shown.
    pub shown: String,
    pub warnings: Vec<String>,
    /// What there is to complain of: a single warning is enough.
    pub verdict: Result<(), String>,
}

/// What is said of a file that gave warnings.
pub open spec fn complaint(warnings: nat, path: Seq<char>) -> Seq<char> {
    decimal(warnings) + " warning(s) in "@ + path + "; see above"@
}

/// Looks at the text of a configuration file, strictly. The daemon forgives a
/// wrong setting, since a typo must not keep a controller from starting. Before
/// it is deployed, every warning is fatal.
pub fn check_config(text: &str, path: &str) -> (out: Result<Checked, String>)
    ensures
        match out {
            Ok(checked) => {
                &&& toml_of(text@) matches Ok(Tree::Table(root))
                &&& problem(root) is None
                &&& exists|config: Config| #[trigger]
                    config_reads(root, config) && checked.shown@ == config.shown()
                &&& views(checked.warnings@) == warnings_of(root)
                &&& match checked.verdict {
                    Ok(()) => warnings_of(root).len() == 0,
                    Err(e) => warnings_of(root).len() > 0 && e@ == complaint(
                        warnings_of(root).len(),
                        path@,
                    ),
                }
            },
            Err(e) => match toml_of(text@) {
                Ok(Tree::Table(root)) => problem(root) == Some(e@),
                Ok(_) => false,
                Err(error) => e@ == error,
            },
        },
{
    let (config, warnings) = match Config::from_toml_str(text) {
        Ok(read) => read,
        Err(e) => return Err(e),
    };
    let shown = config.describe();
    assert(views(warnings@).len() == warnings@.len());
    let verdict = if warnings.len() == 0 {
        Ok(())
    } else {
        let mut e = String::new();
        text::push_decimal(&mut e, warnings.len() as u128);
        e.append(" warning(s) in ");
        e.append(path);
        e.append("; see above");
        assert(e@ =~= complaint(warnings@.len(), path@));
        Err(e)
    };
    Ok(Checked { shown, warnings, verdict })
}

/// Which log lines are kept: what the environment asks for, where it asks for
/// anything, and what the configuration says where it does not.
pub fn log_filter(environment: Option<String>, config: &Config) -> (out: String)
    ensures
        out@ == match environment {
            Some(filter) if !is_blank(filter@) => filter@,
            _ => config.log_filter@,
        },
{
    match environment {
        Some(filter) => if text::blank(filter.as_str()) {
            config.log_filter.clone()
        } else {
            filter
        },
        None => config.log_filter.clone(),
    }
}

/// A complaint says how many warnings there are and in which file.
pub proof fn a_complaint_counts_the_warnings(warnings: nat, path: Seq<char>)
    ensures
        ({
            let said = complaint(warnings, path);
            let front = decimal(warnings).len() as int;
            let between = " warning(s) in "@.len() as int;
            &&& said.take(front) == decimal(warnings)
            &&& said.subrange(front, front + between) == " warning(s) in "@
            &&& said.subrange(front + between, front + between + path.len()) == path
            &&& said.skip(front + between + path.len()) == "; see above"@
        }),
{
    let said = complaint(warnings, path);
    let front = decimal(warnings).len() as int;
    let between = " warning(s) in "@.len() as int;
    assert(said.take(front) =~= decimal(warnings));
    assert(said.subrange(front, front + between) =~= " warning(s) in "@);
    assert(said.subrange(front + between, front + between + path.len()) =~= path);
    assert(said.skip(front + between + path.len()) =~= "; see above"@);
}

/// The environment decides which log lines are kept where it says anything, and the
/// configuration where it does not.
pub proof fn the_environment_goes_before_the_configuration(
    environment: Option<String>,
    config: Config,
    out: String,
)
    requires
        call_ensures(log_filter, (environment, &config), out),
    ensures
        environment is None ==> out@ == config.log_filter@,
        environment matches Some(filter) ==> !is_blank(filter@) ==> out@ == filter@,
        environment matches Some(filter) ==> is_blank(filter@) ==> out@ == config.log_filter@,
{
}

/// A file passes a strict look exactly when it gives no warning.
pub proof fn one_warning_fails_a_strict_look(text: &str, path: &str, out: Result<Checked, String>)
    requires
        call_ensures(check_config, (text, path), out),
    ensures
        out matches Ok(checked) ==> (checked.verdict is Ok <==> checked.warnings@.len() == 0),
{
    if let Ok(checked) = out {
        assert(views(checked.warnings@).len() == checked.warnings@.len());
    }
}

} // verus!
