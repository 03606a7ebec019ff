use vstd::prelude::*;

verus! {

/// The path a `conf` command-line argument asks for: absent, present with
/// nothing after it, or present with a value.
pub enum ConfArg {
    Absent,
    PresentWithoutValue,
    PresentWithValue(String),
}

/// The configuration path the program must use, as a view: the `conf`
/// argument's non-empty value wins, then a non-empty environment value,
/// then the default — and a `conf` argument that carries no usable value
/// falls straight back to the default.
pub open spec fn chosen_path(
    default_path: Seq<char>,
    conf_arg: ConfArg,
    env_value: Option<String>,
) -> Seq<char> {
    match conf_arg {
        ConfArg::PresentWithValue(v) => if v@.len() > 0 {
            v@
        } else {
            default_path
        },
        ConfArg::PresentWithoutValue => default_path,
        ConfArg::Absent => match env_value {
            Some(e) => if e@.len() > 0 {
                e@
            } else {
                default_path
            },
            None => default_path,
        },
    }
}

/// Decides which configuration path to use.  The caller reads the command
/// line and the environment; the precedence lives here.
pub fn choose_config_path(default_path: &str, conf_arg: ConfArg, env_value: Option<String>) -> (r:
    String)
    ensures
        r@ == chosen_path(default_path@, conf_arg, env_value),
{
    match conf_arg {
        ConfArg::PresentWithValue(v) => {
            if !v.as_str().is_empty() {
                v
            } else {
                // conf value can not be empty. Just use the default.
                default_path.to_owned()
            }
        },
        ConfArg::PresentWithoutValue => default_path.to_owned(),
        ConfArg::Absent => {
            match env_value {
                Some(e) => {
                    if !e.as_str().is_empty() {
                        e
                    } else {
                        default_path.to_owned()
                    }
                },
                None => default_path.to_owned(),
            }
        },
    }
}

} // verus!
