//! The environment that an agent process gets, and what its diagnostic output is reduced to.
//!
//! An agent does not inherit the bot's environment, which holds credentials. It gets a baseline,
//! the variables configured for it, and those that it is configured to inherit.

use vstd::prelude::*;
use vstd::slice::slice_subrange;
use vstd::string::*;
use crate::text;

verus! {

/// An environment variable.
#[derive(Debug, Clone, PartialEq, Eq)]
pub struct EnvVar {
    pub key: String,
    pub value: String,
}

/// A variable's name and setting.
pub type EnvModel = (Seq<char>, Seq<char>);

pub open spec fn env_models(vars: Seq<EnvVar>) -> Seq<EnvModel> {
    vars.map_values(|v: EnvVar| (v.key@, v.value@))
}

/// Whether two names are one, with or without regard to the case of ASCII letters.
pub open spec fn same_name(a: Seq<char>, b: Seq<char>, any_case: bool) -> bool {
    if any_case {
        text::ascii_lowered(a) == text::ascii_lowered(b)
    } else {
        a == b
    }
}

/// The setting of the first variable called `key`, with or without regard to case.
pub open spec fn setting_in(vars: Seq<EnvModel>, key: Seq<char>, any_case: bool) -> Option<
    Seq<char>,
>
    decreases vars.len(),
{
    if vars.len() == 0 {
        None
    } else if same_name(vars[0].0, key, any_case) {
        Some(vars[0].1)
    } else {
        setting_in(vars.skip(1), key, any_case)
    }
}

/// The setting of the variable called exactly `key`.
pub open spec fn setting(vars: Seq<EnvModel>, key: Seq<char>) -> Option<Seq<char>> {
    setting_in(vars, key, false)
}

/// The bot's own setting of a variable. Windows finds it without regard to case: it lists the
/// search path as `Path`, say. Only ASCII letters are taken to differ in case.
pub open spec fn own_setting(process: Seq<EnvModel>, key: Seq<char>, windows: bool) -> Option<
    Seq<char>,
> {
    setting_in(process, key, windows)
}

/// A configured value. `${NAME}` stands for the bot's own variable of that name, and for nothing
/// where it has none.
pub open spec fn expanded(value: Seq<char>, process: Seq<EnvModel>, windows: bool) -> Seq<char> {
    if text::begins_with(value, "${"@) && text::finishes_with(value, "}"@) {
        match own_setting(process, value.subrange(2, value.len() - 1), windows) {
            Some(found) => found,
            None => Seq::empty(),
        }
    } else {
        value
    }
}

/// The configured variables with their values expanded.
pub open spec fn expanded_vars(
    explicit: Seq<EnvModel>,
    process: Seq<EnvModel>,
    windows: bool,
) -> Seq<EnvModel> {
    explicit.map_values(|v: EnvModel| (v.0, expanded(v.1, process, windows)))
}

/// The configured variables, then those of the bot that are to be inherited, and the names of
/// the latter. A name that is set already is not inherited.
pub open spec fn merged_env(
    explicit: Seq<EnvModel>,
    inherit: Seq<Seq<char>>,
    process: Seq<EnvModel>,
    windows: bool,
) -> (Seq<EnvModel>, Seq<Seq<char>>)
    decreases inherit.len(),
{
    if inherit.len() == 0 {
        (expanded_vars(explicit, process, windows), Seq::empty())
    } else {
        let (vars, names) = merged_env(explicit, inherit.drop_last(), process, windows);
        let key = inherit.last();
        match own_setting(process, key, windows) {
            Some(value) => if setting(vars, key) is None {
                (vars.push((key, value)), names.push(key))
            } else {
                (vars, names)
            },
            None => (vars, names),
        }
    }
}

/// Whether two names are one.
fn is_same_name(a: &str, b: &str, any_case: bool) -> (r: bool)
    ensures
        r == same_name(a@, b@, any_case),
{
    if any_case {
        let a_lowered = text::to_ascii_lowercase(text::to_chars(a).as_slice());
        let b_lowered = text::to_ascii_lowercase(text::to_chars(b).as_slice());
        text::same_str(a_lowered.as_slice(), text::from_chars(b_lowered.as_slice()).as_str())
    } else {
        text::str_eq(a, b)
    }
}

/// Finds the setting of a variable, with or without regard to case.
fn lookup_in<'a>(vars: &'a Vec<EnvVar>, key: &str, any_case: bool) -> (r: Option<&'a str>)
    ensures
        match r {
            Some(value) => setting_in(env_models(vars@), key@, any_case) == Some(value@),
            None => setting_in(env_models(vars@), key@, any_case) is None,
        },
{
    let ghost models = env_models(vars@);
    let mut i: usize = 0;
    assert(models.skip(0) =~= models);
    while i < vars.len()
        invariant
            i <= vars@.len(),
            models == env_models(vars@),
            setting_in(models, key@, any_case) == setting_in(
                models.skip(i as int),
                key@,
                any_case,
            ),
        decreases vars@.len() - i,
    {
        assert(models.skip(i as int)[0] == models[i as int]);
        assert(models.skip(i as int).skip(1) =~= models.skip(i + 1));
        if is_same_name(vars[i].key.as_str(), key, any_case) {
            return Some(vars[i].value.as_str());
        }
        i = i + 1;
    }
    None
}

/// Finds the setting of the variable called exactly `key`.
pub fn lookup<'a>(vars: &'a Vec<EnvVar>, key: &str) -> (r: Option<&'a str>)
    ensures
        match r {
            Some(value) => setting(env_models(vars@), key@) == Some(value@),
            None => setting(env_models(vars@), key@) is None,
        },
{
    lookup_in(vars, key, false)
}

/// Expands a configured value.
pub fn expand_env(value: &str, process: &Vec<EnvVar>, windows: bool) -> (r: String)
    ensures
        r@ == expanded(value@, env_models(process@), windows),
{
    let chars = text::to_chars(value);
    if text::starts_with_str(chars.as_slice(), "${") && text::ends_with_str(chars.as_slice(), "}") {
        proof {
            reveal_strlit("${");
            reveal_strlit("}");
            if chars@.len() == 2 {
                assert(chars@.subrange(0, 2)[1] == chars@.subrange(1, 2)[0]);
            }
        }
        let key = text::from_chars(slice_subrange(chars.as_slice(), 2, chars.len() - 1));
        match lookup_in(process, key.as_str(), windows) {
            Some(found) => String::from_str(found),
            None => {
                let empty = String::new();
                assert(empty@ =~= Seq::empty());
                empty
            },
        }
    } else {
        String::from_str(value)
    }
}

/// Expands the configured variables.
fn expand_vars(explicit: &Vec<EnvVar>, process: &Vec<EnvVar>, windows: bool) -> (r: Vec<EnvVar>)
    ensures
        env_models(r@) == expanded_vars(env_models(explicit@), env_models(process@), windows),
{
    let mut result: Vec<EnvVar> = Vec::new();
    let mut i: usize = 0;
    while i < explicit.len()
        invariant
            i <= explicit@.len(),
            result@.len() == i,
            forall|j: int|
                0 <= j < i ==> (#[trigger] result@[j]).key@ == explicit@[j].key@
                    && result@[j].value@ == expanded(
                    explicit@[j].value@,
                    env_models(process@),
                    windows,
                ),
        decreases explicit@.len() - i,
    {
        let var = EnvVar {
            key: explicit[i].key.clone(),
            value: expand_env(explicit[i].value.as_str(), process, windows),
        };
        result.push(var);
        i = i + 1;
    }
    assert(env_models(result@) =~= expanded_vars(
        env_models(explicit@),
        env_models(process@),
        windows,
    ));
    result
}

/// Builds the variables that an agent is configured to have. The second result names those that
/// were inherited. An explicit setting takes precedence over an inherited one.
pub fn build_agent_env(
    explicit: &Vec<EnvVar>,
    inherit_keys: &Vec<String>,
    process: &Vec<EnvVar>,
    windows: bool,
) -> (r: (Vec<EnvVar>, Vec<String>))
    ensures
        (env_models(r.0@), text::strings(r.1@)) == merged_env(
            env_models(explicit@),
            text::strings(inherit_keys@),
            env_models(process@),
            windows,
        ),
{
    let mut result = expand_vars(explicit, process, windows);
    let mut inherited: Vec<String> = Vec::new();
    let mut i: usize = 0;
    assert(text::strings(inherited@) =~= Seq::empty());
    assert(text::strings(inherit_keys@.take(0)) =~= Seq::empty());
    while i < inherit_keys.len()
        invariant
            i <= inherit_keys@.len(),
            (env_models(result@), text::strings(inherited@)) == merged_env(
                env_models(explicit@),
                text::strings(inherit_keys@.take(i as int)),
                env_models(process@),
                windows,
            ),
        decreases inherit_keys@.len() - i,
    {
        let key = inherit_keys[i].as_str();
        let ghost next = text::strings(inherit_keys@.take(i + 1));
        assert(next.drop_last() =~= text::strings(inherit_keys@.take(i as int)));
        assert(next.last() == key@);
        let ghost vars = result@;
        let ghost names = inherited@;
        if lookup(&result, key).is_none() {
            match lookup_in(process, key, windows) {
                Some(value) => {
                    let var = EnvVar { key: String::from_str(key), value: String::from_str(value) };
                    result.push(var);
                    inherited.push(String::from_str(key));
                    assert(env_models(result@) =~= env_models(vars).push((key@, value@)));
                    assert(text::strings(inherited@) =~= text::strings(names).push(key@));
                },
                None => {},
            }
        }
        i = i + 1;
    }
    assert(inherit_keys@.take(inherit_keys@.len() as int) =~= inherit_keys@);
    (result, inherited)
}

/// The bot's own setting of a variable, or a default.
pub open spec fn setting_or(
    process: Seq<EnvModel>,
    key: Seq<char>,
    default: Seq<char>,
    windows: bool,
) -> EnvModel {
    match own_setting(process, key, windows) {
        Some(value) => (key, value),
        None => (key, default),
    }
}

/// The variables that every agent gets. The real home directory is kept so that agents find
/// their credentials; Windows needs a few more for basic functionality.
pub open spec fn baseline_env(working_dir: Seq<char>, process: Seq<EnvModel>, windows: bool) -> Seq<
    EnvModel,
> {
    let home = setting_or(process, "HOME"@, working_dir, windows);
    let path = setting_or(process, "PATH"@, "/usr/local/bin:/usr/bin:/bin"@, windows);
    if windows {
        let common = seq![
            home,
            path,
            setting_or(process, "USERPROFILE"@, working_dir, windows),
            setting_or(process, "USERNAME"@, "agent"@, windows),
        ];
        let with_root = match own_setting(process, "SystemRoot"@, windows) {
            Some(value) => common.push(("SystemRoot"@, value)),
            None => common,
        };
        match own_setting(process, "SystemDrive"@, windows) {
            Some(value) => with_root.push(("SystemDrive"@, value)),
            None => with_root,
        }
    } else {
        seq![home, path, setting_or(process, "USER"@, "agent"@, windows)]
    }
}

fn var_or(process: &Vec<EnvVar>, key: &str, default: &str, windows: bool) -> (r: EnvVar)
    ensures
        (r.key@, r.value@) == setting_or(env_models(process@), key@, default@, windows),
{
    let value = match lookup_in(process, key, windows) {
        Some(value) => String::from_str(value),
        None => String::from_str(default),
    };
    EnvVar { key: String::from_str(key), value }
}

fn push_var(vars: &mut Vec<EnvVar>, var: EnvVar)
    ensures
        env_models(final(vars)@) == env_models(old(vars)@).push((var.key@, var.value@)),
{
    let ghost before = vars@;
    vars.push(var);
    assert(env_models(vars@) =~= env_models(before).push((var.key@, var.value@)));
}

/// The environment of an agent process: its variables in the order in which they are set, so
/// that of two settings of one variable the later one holds.
pub fn agent_environment(
    working_dir: &str,
    explicit: &Vec<EnvVar>,
    inherit_keys: &Vec<String>,
    process: &Vec<EnvVar>,
    windows: bool,
) -> (r: (Vec<EnvVar>, Vec<String>))
    ensures
        ({
            let (merged, inherited) = merged_env(
                env_models(explicit@),
                text::strings(inherit_keys@),
                env_models(process@),
                windows,
            );
            &&& env_models(r.0@) == baseline_env(working_dir@, env_models(process@), windows)
                + merged
            &&& text::strings(r.1@) == inherited
        }),
{
    let mut vars: Vec<EnvVar> = Vec::new();
    assert(env_models(vars@) =~= Seq::empty());
    push_var(&mut vars, var_or(process, "HOME", working_dir, windows));
    push_var(&mut vars, var_or(process, "PATH", "/usr/local/bin:/usr/bin:/bin", windows));
    if windows {
        push_var(&mut vars, var_or(process, "USERPROFILE", working_dir, windows));
        push_var(&mut vars, var_or(process, "USERNAME", "agent", windows));
        if let Some(value) = lookup_in(process, "SystemRoot", windows) {
            push_var(
                &mut vars,
                EnvVar { key: String::from_str("SystemRoot"), value: String::from_str(value) },
            );
        }
        if let Some(value) = lookup_in(process, "SystemDrive", windows) {
            push_var(
                &mut vars,
                EnvVar { key: String::from_str("SystemDrive"), value: String::from_str(value) },
            );
        }
    } else {
        push_var(&mut vars, var_or(process, "USER", "agent", windows));
    }
    let ghost baseline = baseline_env(working_dir@, env_models(process@), windows);
    assert(env_models(vars@) =~= baseline);
    let (mut merged, inherited) = build_agent_env(explicit, inherit_keys, process, windows);
    let ghost before = vars@;
    let ghost added = merged@;
    vars.append(&mut merged);
    assert(env_models(vars@) =~= env_models(before) + env_models(added));
    (vars, inherited)
}

/// Explicit settings take precedence: a name that is configured is never inherited, and what is
/// inherited is what the bot itself has.
pub proof fn lemma_explicit_takes_precedence(
    explicit: Seq<EnvModel>,
    inherit: Seq<Seq<char>>,
    process: Seq<EnvModel>,
    windows: bool,
    key: Seq<char>,
)
    ensures
        ({
            let (vars, names) = merged_env(explicit, inherit, process, windows);
            &&& setting(explicit, key) matches Some(value) ==> setting(vars, key) == Some(
                expanded(value, process, windows),
            ) && !names.contains(key)
            &&& names.contains(key) ==> own_setting(process, key, windows) is Some && setting(
                vars,
                key,
            ) == own_setting(process, key, windows)
            &&& setting(explicit, key) is None && own_setting(process, key, windows) is None
                ==> setting(vars, key) is None
        }),
    decreases inherit.len(),
{
    let (vars, names) = merged_env(explicit, inherit, process, windows);
    if inherit.len() == 0 {
        lemma_expanded_setting(explicit, process, windows, key);
    } else {
        lemma_explicit_takes_precedence(explicit, inherit.drop_last(), process, windows, key);
        let (before, names_before) = merged_env(
            explicit,
            inherit.drop_last(),
            process,
            windows,
        );
        let last = inherit.last();
        let own = own_setting(process, last, windows);
        if own is Some && setting(before, last) is None {
            lemma_setting_push(before, (last, own->0), key);
            if names.contains(key) {
                let i = choose|i: int| 0 <= i < names.len() && names[i] == key;
                if i < names_before.len() {
                    assert(names_before[i] == key);
                    assert(names_before.contains(key));
                }
            }
        }
    }
}

/// The names of the variables that every agent can get.
pub open spec fn baseline_names(windows: bool) -> Seq<Seq<char>> {
    if windows {
        seq!["HOME"@, "PATH"@, "USERPROFILE"@, "USERNAME"@, "SystemRoot"@, "SystemDrive"@]
    } else {
        seq!["HOME"@, "PATH"@, "USER"@]
    }
}

/// Whether a variable is set, with or without regard to case.
pub open spec fn names_variable(vars: Seq<EnvModel>, key: Seq<char>, any_case: bool) -> bool {
    exists|i: int| 0 <= i < vars.len() && same_name((#[trigger] vars[i]).0, key, any_case)
}

/// Whether a name is among others, with or without regard to case.
pub open spec fn lists_name(names: Seq<Seq<char>>, key: Seq<char>, any_case: bool) -> bool {
    exists|i: int| 0 <= i < names.len() && same_name(#[trigger] names[i], key, any_case)
}

/// Nothing leaks: a variable that is neither configured nor to be inherited nor part of the
/// baseline is not set for an agent, whatever the bot itself has. That holds of names with
/// regard to case and without.
pub proof fn lemma_nothing_leaks(
    working_dir: Seq<char>,
    explicit: Seq<EnvModel>,
    inherit: Seq<Seq<char>>,
    process: Seq<EnvModel>,
    windows: bool,
    key: Seq<char>,
    any_case: bool,
)
    requires
        !names_variable(explicit, key, any_case),
        !lists_name(inherit, key, any_case),
        !lists_name(baseline_names(windows), key, any_case),
    ensures
        ({
            let vars = baseline_env(working_dir, process, windows) + merged_env(
                explicit,
                inherit,
                process,
                windows,
            ).0;
            !names_variable(vars, key, any_case) && setting_in(vars, key, any_case) is None
        }),
{
    let baseline = baseline_env(working_dir, process, windows);
    let merged = merged_env(explicit, inherit, process, windows).0;
    let vars = baseline + merged;
    assert forall|i: int| 0 <= i < vars.len() implies !same_name(
        (#[trigger] vars[i]).0,
        key,
        any_case,
    ) by {
        if i < baseline.len() {
            let at = lemma_baseline_names(working_dir, process, windows, i);
            assert(!same_name(baseline_names(windows)[at], key, any_case));
        } else {
            lemma_merged_names(explicit, inherit, process, windows, key, any_case);
            assert(vars[i] == merged[i - baseline.len()]);
        }
    }
    lemma_unnamed_is_unset(vars, key, any_case);
}

/// Where the name of a variable of the baseline stands among its names.
proof fn lemma_baseline_names(
    working_dir: Seq<char>,
    process: Seq<EnvModel>,
    windows: bool,
    i: int,
) -> (at: int)
    requires
        0 <= i < baseline_env(working_dir, process, windows).len(),
    ensures
        0 <= at < baseline_names(windows).len(),
        baseline_names(windows)[at] == baseline_env(working_dir, process, windows)[i].0,
{
    if !windows || i < 4 {
        i
    } else if i == 4 && own_setting(process, "SystemRoot"@, windows) is Some {
        4
    } else {
        5
    }
}

proof fn lemma_merged_names(
    explicit: Seq<EnvModel>,
    inherit: Seq<Seq<char>>,
    process: Seq<EnvModel>,
    windows: bool,
    key: Seq<char>,
    any_case: bool,
)
    requires
        !names_variable(explicit, key, any_case),
        !lists_name(inherit, key, any_case),
    ensures
        !names_variable(merged_env(explicit, inherit, process, windows).0, key, any_case),
    decreases inherit.len(),
{
    let vars = merged_env(explicit, inherit, process, windows).0;
    if inherit.len() == 0 {
        assert forall|i: int| 0 <= i < vars.len() implies !same_name(
            (#[trigger] vars[i]).0,
            key,
            any_case,
        ) by {
            assert(!same_name(explicit[i].0, key, any_case));
        }
    } else {
        let earlier = inherit.drop_last();
        assert(!same_name(inherit[inherit.len() - 1], key, any_case));
        assert forall|i: int| 0 <= i < earlier.len() implies !same_name(
            #[trigger] earlier[i],
            key,
            any_case,
        ) by {
            assert(earlier[i] == inherit[i]);
        }
        lemma_merged_names(explicit, earlier, process, windows, key, any_case);
        let before = merged_env(explicit, earlier, process, windows).0;
        assert forall|i: int| 0 <= i < vars.len() implies !same_name(
            (#[trigger] vars[i]).0,
            key,
            any_case,
        ) by {
            if i < before.len() {
                assert(vars[i] == before[i]);
            }
        }
    }
}

proof fn lemma_unnamed_is_unset(vars: Seq<EnvModel>, key: Seq<char>, any_case: bool)
    requires
        !names_variable(vars, key, any_case),
    ensures
        setting_in(vars, key, any_case) is None,
    decreases vars.len(),
{
    if vars.len() > 0 {
        let rest = vars.skip(1);
        assert(!same_name(vars[0].0, key, any_case));
        assert forall|i: int| 0 <= i < rest.len() implies !same_name(
            (#[trigger] rest[i]).0,
            key,
            any_case,
        ) by {
            assert(rest[i] == vars[i + 1]);
        }
        lemma_unnamed_is_unset(rest, key, any_case);
    }
}

proof fn lemma_expanded_setting(
    explicit: Seq<EnvModel>,
    process: Seq<EnvModel>,
    windows: bool,
    key: Seq<char>,
)
    ensures
        setting(expanded_vars(explicit, process, windows), key) == match setting(explicit, key) {
            Some(value) => Some(expanded(value, process, windows)),
            None => None,
        },
    decreases explicit.len(),
{
    if explicit.len() > 0 {
        lemma_expanded_setting(explicit.skip(1), process, windows, key);
        assert(expanded_vars(explicit, process, windows).skip(1) =~= expanded_vars(
            explicit.skip(1),
            process,
            windows,
        ));
    }
}

proof fn lemma_setting_push(vars: Seq<EnvModel>, var: EnvModel, key: Seq<char>)
    ensures
        setting(vars.push(var), key) == match setting(vars, key) {
            Some(value) => Some(value),
            None => if var.0 == key {
                Some(var.1)
            } else {
                None
            },
        },
    decreases vars.len(),
{
    if vars.len() > 0 {
        lemma_setting_push(vars.skip(1), var, key);
        assert(vars.push(var).skip(1) =~= vars.skip(1).push(var));
    } else {
        assert(vars.push(var).skip(1) =~= Seq::empty());
        assert(setting(Seq::empty(), key) is None);
    }
}

/// Whether `c` is a control character.
pub open spec fn is_control(c: char) -> bool {
    c <= '\u{1f}' || '\u{7f}' <= c <= '\u{9f}'
}

/// `s` without its control characters, tabs excepted.
pub open spec fn without_control(s: Seq<char>) -> Seq<char>
    decreases s.len(),
{
    if s.len() == 0 {
        Seq::empty()
    } else if !is_control(s.last()) || s.last() == '\t' {
        without_control(s.drop_last()).push(s.last())
    } else {
        without_control(s.drop_last())
    }
}

/// Reduces a line of an agent's diagnostic output to what is logged of it, if anything is.
pub fn sanitize_diagnostic_line(line: &str) -> (r: Option<String>)
    ensures
        ({
            let kept = without_control(text::trimmed_white(line@));
            match r {
                Some(s) => s@ == kept && kept.len() > 0,
                None => kept.len() == 0,
            }
        }),
{
    let chars = text::to_chars(line);
    let trimmed = text::trim_white(chars.as_slice());
    let mut kept: Vec<char> = Vec::new();
    let mut i: usize = 0;
    assert(trimmed@.take(0) =~= Seq::empty());
    while i < trimmed.len()
        invariant
            i <= trimmed@.len(),
            kept@ == without_control(trimmed@.take(i as int)),
        decreases trimmed@.len() - i,
    {
        let c = trimmed[i];
        let control = c <= '\u{1f}' || ('\u{7f}' <= c && c <= '\u{9f}');
        assert(trimmed@.take(i + 1).drop_last() =~= trimmed@.take(i as int));
        if !control || c == '\t' {
            kept.push(c);
        }
        i = i + 1;
    }
    assert(trimmed@.take(trimmed@.len() as int) =~= trimmed@);
    if kept.len() == 0 {
        None
    } else {
        Some(text::from_chars(kept.as_slice()))
    }
}

/// The process group that is signalled to terminate an agent: none unless the agent has one of
/// its own.
pub fn termination_target(child_pgid: Option<i32>) -> (r: Option<i32>)
    ensures
        r == match child_pgid {
            Some(pid) => if pid > 0 {
                Some(pid)
            } else {
                None
            },
            None => None,
        },
{
    match child_pgid {
        Some(pid) => if pid > 0 {
            Some(pid)
        } else {
            None
        },
        None => None,
    }
}

} // verus!
