//! The environment that an agent is started in, and the lines of its diagnostics.

use vstd::prelude::*;
use vstd::string::*;
use crate::acp::environment;
use crate::acp::environment::{EnvModel, EnvVar};
use crate::text;

verus! {

/// Whether the variable at an index is the first that goes by a name.
pub open spec fn first_named(vars: Seq<EnvVar>, i: int, name: Seq<char>) -> bool {
    &&& 0 <= i < vars.len()
    &&& vars[i].key@ == name
    &&& forall|j: int| 0 <= j < i ==> (#[trigger] vars[j]).key@ != name
}

/// Whether no variable goes by a name.
pub open spec fn unnamed(vars: Seq<EnvVar>, name: Seq<char>) -> bool {
    forall|j: int| 0 <= j < vars.len() ==> (#[trigger] vars[j]).key@ != name
}

proof fn lemma_first_setting(vars: Seq<EnvVar>, i: int, name: Seq<char>)
    requires
        first_named(vars, i, name),
    ensures
        environment::setting_in(environment::env_models(vars), name, false) == Some(vars[i].value@),
    decreases vars.len(),
{
    let models = environment::env_models(vars);
    assert(models[0] == (vars[0].key@, vars[0].value@));
    if i > 0 {
        let rest = vars.skip(1);
        assert(environment::env_models(rest) =~= models.skip(1));
        assert forall|j: int| 0 <= j < i - 1 implies (#[trigger] rest[j]).key@ != name by {
            assert(vars[j + 1].key@ != name);
        }
        lemma_first_setting(rest, i - 1, name);
    }
}

proof fn lemma_no_setting(vars: Seq<EnvVar>, name: Seq<char>)
    requires
        unnamed(vars, name),
    ensures
        environment::setting_in(environment::env_models(vars), name, false) is None,
    decreases vars.len(),
{
    let models = environment::env_models(vars);
    if vars.len() > 0 {
        assert(models[0] == (vars[0].key@, vars[0].value@));
        let rest = vars.skip(1);
        assert(environment::env_models(rest) =~= models.skip(1));
        assert forall|j: int| 0 <= j < rest.len() implies (#[trigger] rest[j]).key@ != name by {
            assert(vars[j + 1].key@ != name);
        }
        lemma_no_setting(rest, name);
    }
}

/// A variable is looked up by its whole name; the first of that name counts.
pub proof fn lemma_variables_are_looked_up(vars: &Vec<EnvVar>, key: &str, i: int, r: Option<&str>)
    requires
        call_ensures(environment::lookup, (vars, key), r),
    ensures
        first_named(vars@, i, key@) ==> r is Some && r->0@ == vars@[i].value@,
        unnamed(vars@, key@) ==> r is None,
{
    if first_named(vars@, i, key@) {
        lemma_first_setting(vars@, i, key@);
    }
    if unnamed(vars@, key@) {
        lemma_no_setting(vars@, key@);
    }
}

/// A value in `${` and `}` stands for the bot's own variable of the name between them, and for
/// nothing where there is none.
pub proof fn lemma_references_are_followed(
    value: &str,
    name: Seq<char>,
    process: &Vec<EnvVar>,
    i: int,
    r: String,
)
    requires
        call_ensures(environment::expand_env, (value, process, false), r),
        value@ == "${"@ + name + "}"@,
    ensures
        first_named(process@, i, name) ==> r@ == process@[i].value@,
        unnamed(process@, name) ==> r@.len() == 0,
{
    reveal_strlit("${");
    reveal_strlit("}");
    assert(value@.subrange(2, value@.len() - 1) =~= name);
    assert(value@.take(2) =~= "${"@);
    assert(value@.skip(value@.len() - 1) =~= "}"@);
    assert(text::begins_with(value@, "${"@));
    assert(text::finishes_with(value@, "}"@));
    if first_named(process@, i, name) {
        lemma_first_setting(process@, i, name);
    }
    if unnamed(process@, name) {
        lemma_no_setting(process@, name);
    }
}

/// Any other value stands for itself.
pub proof fn lemma_other_values_are_plain(
    value: &str,
    process: &Vec<EnvVar>,
    windows: bool,
    r: String,
)
    requires
        call_ensures(environment::expand_env, (value, process, windows), r),
        value@.len() < 3 || value@[0] != '$' || value@[1] != '{' || value@.last() != '}',
    ensures
        r@ == value@,
{
    reveal_strlit("${");
    reveal_strlit("}");
    if text::begins_with(value@, "${"@) && text::finishes_with(value@, "}"@) {
        assert("${"@[0] == '$' && "${"@[1] == '{');
        assert("}"@[0] == '}');
        assert(value@.len() >= 2);
        assert(value@[0] == '$' && value@[1] == '{');
        assert(value@.last() == '}');
        assert(value@.len() >= 3);
    }
}

/// Windows takes names that differ in the case of ASCII letters for one name, and nothing else
/// does.
pub proof fn lemma_names_differ_in_case_on_windows_only(a: Seq<char>, b: Seq<char>)
    ensures
        environment::same_name(a, b, false) <==> a == b,
        environment::same_name(a, b, true) <==> text::ascii_lowered(a) == text::ascii_lowered(b),
        environment::same_name(a, a, true),
{
}

/// The configured variables come first, in their order and each with its value expanded. Behind
/// them stand inherited ones, whose names are told.
pub proof fn lemma_configured_variables_are_set(
    explicit: &Vec<EnvVar>,
    keys: &Vec<String>,
    process: &Vec<EnvVar>,
    windows: bool,
    r: (Vec<EnvVar>, Vec<String>),
    i: int,
    value: &str,
    full: String,
)
    requires
        call_ensures(environment::build_agent_env, (explicit, keys, process, windows), r),
        0 <= i < explicit@.len(),
        value@ == explicit@[i].value@,
        call_ensures(environment::expand_env, (value, process, windows), full),
    ensures
        r.0@.len() == explicit@.len() + r.1@.len(),
        r.0@[i].key@ == explicit@[i].key@,
        r.0@[i].value@ == full@,
{
    let e = environment::env_models(explicit@);
    let p = environment::env_models(process@);
    lemma_merged_layout(e, text::strings(keys@), p, windows);
    let merged = environment::merged_env(e, text::strings(keys@), p, windows);
    assert(environment::env_models(r.0@) == merged.0);
    assert(text::strings(r.1@) == merged.1);
    assert(environment::env_models(r.0@).len() == r.0@.len());
    assert(text::strings(r.1@).len() == r.1@.len());
    assert(e[i] == (explicit@[i].key@, explicit@[i].value@));
    assert(environment::env_models(r.0@)[i] == (r.0@[i].key@, r.0@[i].value@));
    assert(merged.0[i] == environment::expanded_vars(e, p, windows)[i]);
}

proof fn lemma_merged_layout(
    e: Seq<EnvModel>,
    keys: Seq<Seq<char>>,
    p: Seq<EnvModel>,
    windows: bool,
)
    ensures
        ({
            let merged = environment::merged_env(e, keys, p, windows);
            &&& merged.0.len() == e.len() + merged.1.len()
            &&& merged.0.take(e.len() as int) == environment::expanded_vars(e, p, windows)
            &&& forall|k: int|
                0 <= k < merged.1.len() ==> {
                    let var = merged.0[e.len() + k];
                    &&& var.0 == #[trigger] merged.1[k]
                    &&& keys.contains(merged.1[k])
                    &&& environment::own_setting(p, merged.1[k], windows) == Some(var.1)
                }
        }),
    decreases keys.len(),
{
    let merged = environment::merged_env(e, keys, p, windows);
    let own = environment::expanded_vars(e, p, windows);
    if keys.len() == 0 {
        assert(merged.0.take(e.len() as int) =~= own);
    } else {
        let before = environment::merged_env(e, keys.drop_last(), p, windows);
        lemma_merged_layout(e, keys.drop_last(), p, windows);
        assert(merged.0.take(e.len() as int) =~= before.0.take(e.len() as int));
        assert forall|k: int| 0 <= k < merged.1.len() implies {
            let var = merged.0[e.len() + k];
            &&& var.0 == #[trigger] merged.1[k]
            &&& keys.contains(merged.1[k])
            &&& environment::own_setting(p, merged.1[k], windows) == Some(var.1)
        } by {
            if k < before.1.len() {
                assert(before.1[k] == merged.1[k]);
                assert(merged.0[e.len() + k] == before.0[e.len() + k]);
                let w = choose|w: int|
                    0 <= w < keys.drop_last().len() && keys.drop_last()[w] == before.1[k];
                assert(keys[w] == merged.1[k]);
            } else {
                assert(merged.1[k] == keys.last());
                assert(keys[keys.len() - 1] == merged.1[k]);
            }
        }
    }
}

/// What is inherited was asked for and is set in the bot's own environment, and has its value
/// there.
pub proof fn lemma_inherited_variables_are_the_bots(
    explicit: &Vec<EnvVar>,
    keys: &Vec<String>,
    process: &Vec<EnvVar>,
    r: (Vec<EnvVar>, Vec<String>),
    k: int,
    i: int,
)
    requires
        call_ensures(environment::build_agent_env, (explicit, keys, process, false), r),
        0 <= k < r.1@.len(),
    ensures
        text::strings(keys@).contains(r.1@[k]@),
        r.0@[explicit@.len() + k].key@ == r.1@[k]@,
        first_named(process@, i, r.1@[k]@) ==> r.0@[explicit@.len() + k].value@
            == process@[i].value@,
        !unnamed(process@, r.1@[k]@),
{
    let e = environment::env_models(explicit@);
    let p = environment::env_models(process@);
    lemma_merged_layout(e, text::strings(keys@), p, false);
    let merged = environment::merged_env(e, text::strings(keys@), p, false);
    assert(environment::env_models(r.0@) == merged.0);
    assert(text::strings(r.1@) == merged.1);
    assert(environment::env_models(r.0@).len() == r.0@.len());
    assert(text::strings(r.1@).len() == r.1@.len());
    assert(merged.1[k] == r.1@[k]@);
    let at = explicit@.len() + k;
    assert(environment::env_models(r.0@)[at] == (r.0@[at].key@, r.0@[at].value@));
    if first_named(process@, i, r.1@[k]@) {
        lemma_first_setting(process@, i, r.1@[k]@);
    }
    if unnamed(process@, r.1@[k]@) {
        lemma_no_setting(process@, r.1@[k]@);
    }
}

proof fn lemma_setting_is_there(vars: Seq<EnvModel>, key: Seq<char>)
    ensures
        environment::setting(vars, key) is Some <==> exists|i: int|
            0 <= i < vars.len() && (#[trigger] vars[i]).0 == key,
    decreases vars.len(),
{
    if vars.len() > 0 {
        let rest = vars.skip(1);
        lemma_setting_is_there(rest, key);
        if vars[0].0 != key {
            if exists|i: int| 0 <= i < rest.len() && (#[trigger] rest[i]).0 == key {
                let i = choose|i: int| 0 <= i < rest.len() && (#[trigger] rest[i]).0 == key;
                assert(vars[i + 1].0 == key);
            }
            if exists|i: int| 0 <= i < vars.len() && (#[trigger] vars[i]).0 == key {
                let i = choose|i: int| 0 <= i < vars.len() && (#[trigger] vars[i]).0 == key;
                assert(rest[i - 1].0 == key);
            }
        }
    }
}

proof fn lemma_merged_holds(
    e: Seq<EnvModel>,
    keys: Seq<Seq<char>>,
    p: Seq<EnvModel>,
    windows: bool,
    key: Seq<char>,
)
    requires
        keys.contains(key),
        environment::own_setting(p, key, windows) is Some,
    ensures
        environment::setting(environment::merged_env(e, keys, p, windows).0, key) is Some,
    decreases keys.len(),
{
    let merged = environment::merged_env(e, keys, p, windows);
    let before = environment::merged_env(e, keys.drop_last(), p, windows);
    lemma_setting_is_there(merged.0, key);
    lemma_setting_is_there(before.0, key);
    if keys.last() == key {
        if environment::setting(before.0, key) is None {
            assert(merged.0.last().0 == key);
        }
    } else {
        let w = choose|w: int| 0 <= w < keys.len() && keys[w] == key;
        assert(keys.drop_last()[w] == key);
        lemma_merged_holds(e, keys.drop_last(), p, windows, key);
        let i = choose|i: int| 0 <= i < before.0.len() && (#[trigger] before.0[i]).0 == key;
        assert(merged.0[i] == before.0[i]);
    }
}

/// A variable that is to be inherited and that the bot has is set, by the configuration or by
/// inheritance.
pub proof fn lemma_requested_variables_are_set(
    explicit: &Vec<EnvVar>,
    keys: &Vec<String>,
    process: &Vec<EnvVar>,
    r: (Vec<EnvVar>, Vec<String>),
    key: Seq<char>,
    i: int,
)
    requires
        call_ensures(environment::build_agent_env, (explicit, keys, process, false), r),
        text::strings(keys@).contains(key),
        first_named(process@, i, key),
    ensures
        !unnamed(r.0@, key),
{
    let e = environment::env_models(explicit@);
    let p = environment::env_models(process@);
    lemma_first_setting(process@, i, key);
    lemma_merged_holds(e, text::strings(keys@), p, false, key);
    if unnamed(r.0@, key) {
        lemma_no_setting(r.0@, key);
    }
}

/// Every agent gets a home directory, a search path and a user name: the bot's own, or the
/// working directory, the usual path and `agent`. Behind them stands what is configured and
/// inherited.
pub proof fn lemma_agents_have_a_home(
    dir: &str,
    explicit: &Vec<EnvVar>,
    keys: &Vec<String>,
    process: &Vec<EnvVar>,
    r: (Vec<EnvVar>, Vec<String>),
    i: int,
)
    requires
        call_ensures(environment::agent_environment, (dir, explicit, keys, process, false), r),
    ensures
        r.0@.len() >= 3,
        r.0@[0].key@ == "HOME"@,
        r.0@[1].key@ == "PATH"@,
        r.0@[2].key@ == "USER"@,
        unnamed(process@, "HOME"@) ==> r.0@[0].value@ == dir@,
        unnamed(process@, "PATH"@) ==> r.0@[1].value@ == "/usr/local/bin:/usr/bin:/bin"@,
        unnamed(process@, "USER"@) ==> r.0@[2].value@ == "agent"@,
        first_named(process@, i, "HOME"@) ==> r.0@[0].value@ == process@[i].value@,
        first_named(process@, i, "PATH"@) ==> r.0@[1].value@ == process@[i].value@,
        first_named(process@, i, "USER"@) ==> r.0@[2].value@ == process@[i].value@,
{
    let models = environment::env_models(r.0@);
    let base = environment::baseline_env(dir@, environment::env_models(process@), false);
    assert(base.len() == 3);
    assert(models.len() == r.0@.len());
    assert(models[0] == base[0] && models[1] == base[1] && models[2] == base[2]);
    assert(models[0] == (r.0@[0].key@, r.0@[0].value@));
    assert(models[1] == (r.0@[1].key@, r.0@[1].value@));
    assert(models[2] == (r.0@[2].key@, r.0@[2].value@));
    if first_named(process@, i, "HOME"@) {
        lemma_first_setting(process@, i, "HOME"@);
    }
    if first_named(process@, i, "PATH"@) {
        lemma_first_setting(process@, i, "PATH"@);
    }
    if first_named(process@, i, "USER"@) {
        lemma_first_setting(process@, i, "USER"@);
    }
    if unnamed(process@, "HOME"@) {
        lemma_no_setting(process@, "HOME"@);
    }
    if unnamed(process@, "PATH"@) {
        lemma_no_setting(process@, "PATH"@);
    }
    if unnamed(process@, "USER"@) {
        lemma_no_setting(process@, "USER"@);
    }
}

/// On Windows an agent of a bot without variables gets the working directory for its home and its
/// profile, and `agent` for its name.
pub proof fn lemma_windows_agents_have_a_profile(
    dir: &str,
    explicit: &Vec<EnvVar>,
    keys: &Vec<String>,
    process: &Vec<EnvVar>,
    r: (Vec<EnvVar>, Vec<String>),
)
    requires
        call_ensures(environment::agent_environment, (dir, explicit, keys, process, true), r),
        process@.len() == 0,
    ensures
        r.0@.len() >= 4,
        r.0@[0].key@ == "HOME"@ && r.0@[0].value@ == dir@,
        r.0@[1].key@ == "PATH"@ && r.0@[1].value@ == "/usr/local/bin:/usr/bin:/bin"@,
        r.0@[2].key@ == "USERPROFILE"@ && r.0@[2].value@ == dir@,
        r.0@[3].key@ == "USERNAME"@ && r.0@[3].value@ == "agent"@,
{
    let models = environment::env_models(r.0@);
    let p = environment::env_models(process@);
    assert(p.len() == 0);
    let base = environment::baseline_env(dir@, p, true);
    assert(models.len() == r.0@.len());
    assert forall|k: int| 0 <= k < 4 implies models[k] == #[trigger] base[k] by {}
    assert(base[0] == models[0] && base[1] == models[1] && base[2] == models[2] && base[3]
        == models[3]);
    assert(models[0] == (r.0@[0].key@, r.0@[0].value@));
    assert(models[1] == (r.0@[1].key@, r.0@[1].value@));
    assert(models[2] == (r.0@[2].key@, r.0@[2].value@));
    assert(models[3] == (r.0@[3].key@, r.0@[3].value@));
}

/// Whether a character may stand in a line of diagnostics.
pub open spec fn printable(c: char) -> bool {
    c == '\t' || 32 <= c as u32 <= 126 || c as u32 >= 160
}

proof fn lemma_printable_is_kept(s: Seq<char>, c: char)
    ensures
        environment::without_control(s.push(c)) == if printable(c) {
            environment::without_control(s).push(c)
        } else {
            environment::without_control(s)
        },
{
    assert(s.push(c).drop_last() =~= s);
}

proof fn lemma_all_printable(s: Seq<char>)
    ensures
        forall|i: int|
            0 <= i < environment::without_control(s).len() ==> printable(
                #[trigger] environment::without_control(s)[i],
            ),
        (forall|i: int| 0 <= i < s.len() ==> printable(#[trigger] s[i]))
            ==> environment::without_control(s) == s,
    decreases s.len(),
{
    if s.len() > 0 {
        lemma_all_printable(s.drop_last());
        assert(s.drop_last().push(s.last()) =~= s);
        lemma_printable_is_kept(s.drop_last(), s.last());
        if forall|i: int| 0 <= i < s.len() ==> printable(#[trigger] s[i]) {
            assert forall|i: int| 0 <= i < s.drop_last().len() implies printable(
                #[trigger] s.drop_last()[i],
            ) by {
                assert(printable(s[i]));
            }
        }
    }
}

/// A control character in a line of diagnostics makes no difference.
pub proof fn lemma_control_characters_make_no_difference(a: Seq<char>, c: char, b: Seq<char>)
    ensures
        !printable(c) ==> environment::without_control(a.push(c) + b)
            == environment::without_control(a + b),
    decreases b.len(),
{
    if b.len() == 0 {
        assert(a.push(c) + b =~= a.push(c));
        assert(a + b =~= a);
        lemma_printable_is_kept(a, c);
    } else {
        let shorter = b.drop_last();
        assert(a.push(c) + b =~= (a.push(c) + shorter).push(b.last()));
        assert(a + b =~= (a + shorter).push(b.last()));
        lemma_control_characters_make_no_difference(a, c, shorter);
        lemma_printable_is_kept(a.push(c) + shorter, b.last());
        lemma_printable_is_kept(a + shorter, b.last());
    }
}

/// A line of diagnostics is shown without control characters and without white space around it.
/// One that holds neither is shown as it is, unless it is empty: then nothing is.
pub proof fn lemma_diagnostics_are_printable(line: &str, r: Option<String>)
    requires
        call_ensures(environment::sanitize_diagnostic_line, (line,), r),
    ensures
        r is Some ==> r->0@.len() > 0 && forall|i: int|
            0 <= i < r->0@.len() ==> printable(#[trigger] r->0@[i]),
        r is Some ==> r->0@ == environment::without_control(text::trimmed_white(line@)),
        (forall|i: int| 0 <= i < line@.len() ==> printable(#[trigger] line@[i]))
            && text::trimmed_white(line@) == line@ && line@.len() > 0 ==> r is Some && r->0@
            == line@,
        text::trimmed_white(line@).len() == 0 ==> r is None,
{
    lemma_all_printable(text::trimmed_white(line@));
}

/// Only a process group with a positive number is terminated, and it is the child's.
pub proof fn lemma_only_the_child_is_terminated(child: Option<i32>, r: Option<i32>)
    requires
        call_ensures(environment::termination_target, (child,), r),
    ensures
        r is Some ==> r == child && r->0 >= 1,
        r is None ==> child is None || child->0 <= 0,
{
}

/// Whether the variable at an index is the first whose name is the same but for the case of its
/// ASCII letters.
pub open spec fn first_alike(vars: Seq<EnvVar>, i: int, name: Seq<char>) -> bool {
    &&& 0 <= i < vars.len()
    &&& text::ascii_lowered(vars[i].key@) == text::ascii_lowered(name)
    &&& forall|j: int|
        0 <= j < i ==> text::ascii_lowered((#[trigger] vars[j]).key@) != text::ascii_lowered(name)
}

/// Whether no variable has such a name.
pub open spec fn none_alike(vars: Seq<EnvVar>, name: Seq<char>) -> bool {
    forall|j: int|
        0 <= j < vars.len() ==> text::ascii_lowered((#[trigger] vars[j]).key@)
            != text::ascii_lowered(name)
}

proof fn lemma_first_alike(vars: Seq<EnvVar>, i: int, name: Seq<char>)
    requires
        first_alike(vars, i, name),
    ensures
        environment::setting_in(environment::env_models(vars), name, true) == Some(vars[i].value@),
    decreases vars.len(),
{
    let models = environment::env_models(vars);
    assert(models[0] == (vars[0].key@, vars[0].value@));
    if i > 0 {
        let rest = vars.skip(1);
        assert(environment::env_models(rest) =~= models.skip(1));
        assert(text::ascii_lowered(vars[0].key@) != text::ascii_lowered(name));
        assert forall|j: int| 0 <= j < i - 1 implies text::ascii_lowered((#[trigger] rest[j]).key@)
            != text::ascii_lowered(name) by {
            assert(text::ascii_lowered(vars[j + 1].key@) != text::ascii_lowered(name));
        }
        lemma_first_alike(rest, i - 1, name);
    }
}

proof fn lemma_none_alike(vars: Seq<EnvVar>, name: Seq<char>)
    requires
        none_alike(vars, name),
    ensures
        environment::setting_in(environment::env_models(vars), name, true) is None,
    decreases vars.len(),
{
    let models = environment::env_models(vars);
    if vars.len() > 0 {
        assert(models[0] == (vars[0].key@, vars[0].value@));
        let rest = vars.skip(1);
        assert(environment::env_models(rest) =~= models.skip(1));
        assert(text::ascii_lowered(vars[0].key@) != text::ascii_lowered(name));
        assert forall|j: int| 0 <= j < rest.len() implies text::ascii_lowered(
            (#[trigger] rest[j]).key@,
        ) != text::ascii_lowered(name) by {
            assert(text::ascii_lowered(vars[j + 1].key@) != text::ascii_lowered(name));
        }
        lemma_none_alike(rest, name);
    }
}

/// On Windows the bot's own variables are found whatever the case of their names.
pub proof fn lemma_windows_finds_names_in_any_case(
    value: &str,
    name: Seq<char>,
    process: &Vec<EnvVar>,
    i: int,
    r: String,
)
    requires
        call_ensures(environment::expand_env, (value, process, true), r),
        value@ == "${"@ + name + "}"@,
    ensures
        first_alike(process@, i, name) ==> r@ == process@[i].value@,
        none_alike(process@, name) ==> r@.len() == 0,
{
    reveal_strlit("${");
    reveal_strlit("}");
    assert(value@.subrange(2, value@.len() - 1) =~= name);
    assert(value@.take(2) =~= "${"@);
    assert(value@.skip(value@.len() - 1) =~= "}"@);
    assert(text::begins_with(value@, "${"@));
    assert(text::finishes_with(value@, "}"@));
    if first_alike(process@, i, name) {
        lemma_first_alike(process@, i, name);
    }
    if none_alike(process@, name) {
        lemma_none_alike(process@, name);
    }
}

/// On Windows an agent gets the directory and the drive of the system, in this order behind its
/// profile and name, where the bot has them.
pub proof fn lemma_windows_agents_find_their_system(
    dir: &str,
    explicit: &Vec<EnvVar>,
    keys: &Vec<String>,
    process: &Vec<EnvVar>,
    r: (Vec<EnvVar>, Vec<String>),
    i: int,
    j: int,
    k: int,
)
    requires
        call_ensures(environment::agent_environment, (dir, explicit, keys, process, true), r),
    ensures
        first_alike(process@, k, "USERPROFILE"@) ==> r.0@[2].value@ == process@[k].value@,
        first_alike(process@, k, "PATH"@) ==> r.0@[1].value@ == process@[k].value@,
        first_alike(process@, k, "HOME"@) ==> r.0@[0].value@ == process@[k].value@,
        first_alike(process@, k, "USERNAME"@) ==> r.0@[3].value@ == process@[k].value@,
        first_alike(process@, i, "SystemRoot"@) && first_alike(process@, j, "SystemDrive"@) ==> {
            &&& r.0@.len() >= 6
            &&& r.0@[4].key@ == "SystemRoot"@ && r.0@[4].value@ == process@[i].value@
            &&& r.0@[5].key@ == "SystemDrive"@ && r.0@[5].value@ == process@[j].value@
        },
        first_alike(process@, i, "SystemRoot"@) && none_alike(process@, "SystemDrive"@) ==> {
            &&& r.0@.len() >= 5
            &&& r.0@[4].key@ == "SystemRoot"@ && r.0@[4].value@ == process@[i].value@
        },
        none_alike(process@, "SystemRoot"@) && first_alike(process@, j, "SystemDrive"@) ==> {
            &&& r.0@.len() >= 5
            &&& r.0@[4].key@ == "SystemDrive"@ && r.0@[4].value@ == process@[j].value@
        },
{
    let models = environment::env_models(r.0@);
    let p = environment::env_models(process@);
    let base = environment::baseline_env(dir@, p, true);
    assert(models.len() == r.0@.len());
    assert forall|n: int| 0 <= n < base.len() implies #[trigger] models[n] == base[n] by {}
    assert forall|n: int| 0 <= n < models.len() implies #[trigger] models[n] == (
        r.0@[n].key@,
        r.0@[n].value@,
    ) by {}
    assert(base.len() >= 4);
    assert(models[0] == base[0] && models[1] == base[1] && models[2] == base[2] && models[3]
        == base[3]);
    if first_alike(process@, k, "USERPROFILE"@) {
        lemma_first_alike(process@, k, "USERPROFILE"@);
    }
    if first_alike(process@, k, "PATH"@) {
        lemma_first_alike(process@, k, "PATH"@);
    }
    if first_alike(process@, k, "HOME"@) {
        lemma_first_alike(process@, k, "HOME"@);
    }
    if first_alike(process@, k, "USERNAME"@) {
        lemma_first_alike(process@, k, "USERNAME"@);
    }
    if first_alike(process@, i, "SystemRoot"@) {
        lemma_first_alike(process@, i, "SystemRoot"@);
        assert(base.len() >= 5);
        assert(models[4] == base[4]);
    }
    if first_alike(process@, j, "SystemDrive"@) {
        lemma_first_alike(process@, j, "SystemDrive"@);
    }
    if none_alike(process@, "SystemRoot"@) {
        lemma_none_alike(process@, "SystemRoot"@);
    }
    if none_alike(process@, "SystemDrive"@) {
        lemma_none_alike(process@, "SystemDrive"@);
    }
    if base.len() >= 5 {
        assert(models[4] == base[4]);
    }
    if base.len() >= 6 {
        assert(models[5] == base[5]);
    }
}

} // verus!
