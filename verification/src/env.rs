//! Settings that come from environment variables.

use crate::error::{outcome, OAuthError, OAuthErrorView};
use crate::text::{
    consists_of, is_white_space, law_trim_end_cuts_class, law_trim_is_final,
    law_trim_leaves_middle, law_trim_start_cuts_class, law_trim_to_nothing, trim, trim_end_matches,
    trim_start, trim_start_matches, CharClass,
};
use vstd::prelude::*;

verus! {

/// An environment variable that was looked up.
#[derive(Debug, PartialEq, Eq)]
pub struct EnvVar {
    /// Name of the variable.
    pub name: String,
    /// Its value, if it is set and is valid Unicode.
    pub value: Option<String>,
}

/// Value of the variable `name` among those looked up; of two entries for one
/// name, the first counts.
pub open spec fn env_value(env: Seq<EnvVar>, name: Seq<char>) -> Option<Seq<char>>
    decreases env.len(),
{
    if env.len() == 0 {
        None
    } else if env.first().name@ == name {
        match env.first().value {
            Some(value) => Some(value@),
            None => None,
        }
    } else {
        env_value(env.drop_first(), name)
    }
}

/// The setting that a variable with this value gives: the value without the
/// white space around it, which has to leave something.
pub open spec fn env_setting(name: Seq<char>, value: Option<Seq<char>>) -> Result<
    Seq<char>,
    OAuthErrorView,
> {
    match value {
        None => Err(OAuthErrorView::EnvVarNotSet { name }),
        Some(value) => if trim(value, CharClass::WhiteSpace).len() == 0 {
            Err(OAuthErrorView::EnvVarEmpty { name })
        } else {
            Ok(trim(value, CharClass::WhiteSpace))
        },
    }
}

/// Whether `setting` stands at `start` in `value`, between nothing but white
/// space, with no white space at its own ends.
pub open spec fn is_middle_at(value: Seq<char>, setting: Seq<char>, start: int) -> bool {
    &&& 0 <= start
    &&& start + setting.len() <= value.len()
    &&& setting.len() > 0
    &&& setting == value.subrange(start, start + setting.len())
    &&& !is_white_space(setting[0])
    &&& !is_white_space(setting[setting.len() - 1])
    &&& forall|i: int|
        0 <= i < value.len() && !(start <= i < start + setting.len()) ==> is_white_space(
            #[trigger] value[i],
        )
}

/// Whether `setting` is what is left of `value` without the white space around
/// it.
pub open spec fn is_middle(value: Seq<char>, setting: Seq<char>) -> bool {
    exists|start: int| #[trigger] is_middle_at(value, setting, start)
}

/// The value of `name` among the variables looked up.
fn find_env_var<'a>(env: &'a [EnvVar], name: &str) -> (value: Option<&'a str>)
    ensures
        match value {
            Some(value) => env_value(env@, name@) == Some(value@),
            None => env_value(env@, name@) is None,
        },
{
    let wanted = name.to_owned();
    let mut at: usize = 0;
    assert(env@.skip(0) =~= env@);
    while at < env.len()
        invariant
            at <= env.len(),
            wanted@ == name@,
            env_value(env@, name@) == env_value(env@.skip(at as int), name@),
        decreases env.len() - at,
    {
        if env[at].name == wanted {
            return match &env[at].value {
                Some(value) => Some(value.as_str()),
                None => None,
            };
        }
        assert(env@.skip(at as int).drop_first() =~= env@.skip(at + 1));
        at = at + 1;
    }
    None
}

/// Reads the required variable `name`, without the white space around its value.
pub fn read_env_var(env: &[EnvVar], name: &str) -> (r: Result<String, OAuthError>)
    ensures
        outcome(r) == env_setting(name@, env_value(env@, name@)),
        // the value that counts is that of the first entry with the name
        (forall|i: int| 0 <= i < env@.len() ==> (#[trigger] env@[i]).name@ != name@) ==> (
        r matches Err(OAuthError::EnvVarNotSet { name: unset }) && unset@ == name@),
        forall|i: int|
            0 <= i < env@.len() && (#[trigger] env@[i]).name@ == name@ && (forall|j: int|
                0 <= j < i ==> (#[trigger] env@[j]).name@ != name@) ==> match env@[i].value {
                None => r matches Err(OAuthError::EnvVarNotSet { name: unset }) && unset@ == name@,
                Some(value) => match r {
                    Ok(setting) => is_middle(value@, setting@),
                    Err(OAuthError::EnvVarEmpty { name: empty }) => empty@ == name@ && forall|
                        k: int,
                    |
                        0 <= k < value@.len() ==> is_white_space(#[trigger] value@[k]),
                    Err(_) => false,
                },
            },
{
    proof {
        assert((forall|i: int| 0 <= i < env@.len() ==> (#[trigger] env@[i]).name@ != name@)
            ==> env_value(env@, name@) is None) by {
            if forall|i: int| 0 <= i < env@.len() ==> (#[trigger] env@[i]).name@ != name@ {
                law_absent_variable_has_no_value(env@, name@);
            }
        }
        assert forall|i: int|
            0 <= i < env@.len() && (#[trigger] env@[i]).name@ == name@ && (forall|j: int|
                0 <= j < i ==> (#[trigger] env@[j]).name@ != name@) implies env_value(env@, name@)
            == match env@[i].value {
            Some(value) => Some(value@),
            None => None,
        } by {
            law_first_entry_counts(env@, i, name@);
        }
        if let Some(value) = env_value(env@, name@) {
            let (front, back) = law_setting_is_middle(name@, value);
            law_setting_is_trimmed(name@, Some(value));
            if env_setting(name@, Some(value)) is Err {
                assert forall|k: int| 0 <= k < value.len() implies is_white_space(
                    #[trigger] value[k],
                ) by {
                    assert(CharClass::WhiteSpace.has(value[k]));
                }
            }
        }
    }
    match find_env_var(env, name) {
        None => Err(OAuthError::EnvVarNotSet { name: name.to_owned() }),
        Some(value) => {
            let setting = trim_end_matches(
                trim_start_matches(value, CharClass::WhiteSpace),
                CharClass::WhiteSpace,
            );
            if setting.is_empty() {
                Err(OAuthError::EnvVarEmpty { name: name.to_owned() })
            } else {
                Ok(setting.to_owned())
            }
        },
    }
}

/// Of the entries for a name, the first one counts.
pub proof fn law_first_entry_counts(env: Seq<EnvVar>, i: int, name: Seq<char>)
    requires
        0 <= i < env.len(),
        env[i].name@ == name,
        forall|j: int| 0 <= j < i ==> (#[trigger] env[j]).name@ != name,
    ensures
        env_value(env, name) == match env[i].value {
            Some(value) => Some(value@),
            None => None,
        },
    decreases env.len(),
{
    if i > 0 {
        assert(env[0].name@ != name);
        assert forall|j: int| 0 <= j < i - 1 implies (#[trigger] env.drop_first()[j]).name@
            != name by {
            assert(env[j + 1].name@ != name);
        }
        law_first_entry_counts(env.drop_first(), i - 1, name);
    }
}

/// A variable without an entry has no value.
pub proof fn law_absent_variable_has_no_value(env: Seq<EnvVar>, name: Seq<char>)
    requires
        forall|i: int| 0 <= i < env.len() ==> (#[trigger] env[i]).name@ != name,
    ensures
        env_value(env, name) is None,
    decreases env.len(),
{
    if env.len() > 0 {
        assert(env[0].name@ != name);
        assert forall|i: int| 0 <= i < env.drop_first().len() implies (
        #[trigger] env.drop_first()[i]).name@ != name by {
            assert(env[i + 1].name@ != name);
        }
        law_absent_variable_has_no_value(env.drop_first(), name);
    }
}

/// A value in white space gives what is between the white space, all of it: the
/// value is white space in front, the setting, and white space behind.
pub proof fn law_setting_is_middle(name: Seq<char>, value: Seq<char>) -> (around: (
    Seq<char>,
    Seq<char>,
))
    ensures
        env_setting(name, Some(value)) matches Ok(setting) ==> {
            &&& value == around.0 + setting + around.1
            &&& forall|i: int| 0 <= i < around.0.len() ==> is_white_space(#[trigger] around.0[i])
            &&& forall|i: int| 0 <= i < around.1.len() ==> is_white_space(#[trigger] around.1[i])
            &&& is_middle(value, setting)
        },
{
    let left = trim_start(value, CharClass::WhiteSpace);
    let front = law_trim_start_cuts_class(value, CharClass::WhiteSpace);
    let back = law_trim_end_cuts_class(left, CharClass::WhiteSpace);
    if let Ok(setting) = env_setting(name, Some(value)) {
        assert(front + setting + back =~= value);
        assert forall|i: int| 0 <= i < front.len() implies is_white_space(#[trigger] front[i]) by {
            assert(CharClass::WhiteSpace.has(front[i]));
        }
        assert forall|i: int| 0 <= i < back.len() implies is_white_space(#[trigger] back[i]) by {
            assert(CharClass::WhiteSpace.has(back[i]));
        }
        law_trim_is_final(value, CharClass::WhiteSpace);
        let start = front.len() as int;
        assert(value.subrange(start, start + setting.len()) =~= setting);
        assert(is_middle_at(value, setting, start));
    }
    (front, back)
}

/// What stands between white space is the setting, whatever it is.
pub proof fn law_middle_is_setting(
    name: Seq<char>,
    front: Seq<char>,
    setting: Seq<char>,
    back: Seq<char>,
)
    requires
        forall|i: int| 0 <= i < front.len() ==> is_white_space(#[trigger] front[i]),
        forall|i: int| 0 <= i < back.len() ==> is_white_space(#[trigger] back[i]),
        setting.len() > 0,
        !is_white_space(setting[0]),
        !is_white_space(setting[setting.len() - 1]),
    ensures
        env_setting(name, Some(front + setting + back)) == Ok::<Seq<char>, OAuthErrorView>(setting),
{
    law_trim_leaves_middle(front, setting, back, CharClass::WhiteSpace);
}

/// Whether `entry` is the first entry for a name: its place, the white space in
/// front of its setting, the setting, and the white space behind it.
pub open spec fn is_entry(
    env: Seq<EnvVar>,
    name: Seq<char>,
    entry: (int, Seq<char>, Seq<char>, Seq<char>),
) -> bool {
    let (place, front, setting, back) = entry;
    &&& 0 <= place < env.len()
    &&& env[place].name@ == name
    &&& forall|i: int| 0 <= i < place ==> (#[trigger] env[i]).name@ != name
    &&& env[place].value matches Some(value)
    &&& value@ == front + setting + back
    &&& forall|i: int| 0 <= i < front.len() ==> is_white_space(#[trigger] front[i])
    &&& forall|i: int| 0 <= i < back.len() ==> is_white_space(#[trigger] back[i])
    &&& setting.len() > 0
    &&& !is_white_space(setting[0])
    &&& !is_white_space(setting[setting.len() - 1])
}

/// The first entry for a name gives the setting.
pub proof fn law_entry_gives_setting(
    env: Seq<EnvVar>,
    name: Seq<char>,
    entry: (int, Seq<char>, Seq<char>, Seq<char>),
)
    requires
        is_entry(env, name, entry),
    ensures
        env_setting(name, env_value(env, name)) == Ok::<Seq<char>, OAuthErrorView>(entry.2),
{
    law_first_entry_counts(env, entry.0, name);
    law_middle_is_setting(name, entry.1, entry.2, entry.3);
}

/// A variable that is not set, and one that holds white space only, are errors
/// that name it.
pub proof fn law_missing_setting_names_variable(name: Seq<char>, blank: Seq<char>)
    requires
        forall|i: int| 0 <= i < blank.len() ==> is_white_space(#[trigger] blank[i]),
    ensures
        env_setting(name, None) == Err::<Seq<char>, OAuthErrorView>(
            OAuthErrorView::EnvVarNotSet { name },
        ),
        env_setting(name, Some(blank)) == Err::<Seq<char>, OAuthErrorView>(
            OAuthErrorView::EnvVarEmpty { name },
        ),
{
    law_trim_to_nothing(blank, CharClass::WhiteSpace);
    assert(consists_of(blank, CharClass::WhiteSpace));
}

/// A variable gives a setting exactly if it holds more than white space, and
/// the setting then has no white space at either end.
pub proof fn law_setting_is_trimmed(name: Seq<char>, value: Option<Seq<char>>)
    ensures
        env_setting(name, value) is Ok <==> (value matches Some(v) && !consists_of(
            v,
            CharClass::WhiteSpace,
        )),
        env_setting(name, value) matches Ok(setting) ==> {
            &&& setting.len() > 0
            &&& !CharClass::WhiteSpace.has(setting.first())
            &&& !CharClass::WhiteSpace.has(setting.last())
            &&& env_setting(name, Some(setting)) == Ok::<Seq<char>, OAuthErrorView>(setting)
        },
{
    if let Some(v) = value {
        law_trim_to_nothing(v, CharClass::WhiteSpace);
        law_trim_is_final(v, CharClass::WhiteSpace);
    }
}

} // verus!
