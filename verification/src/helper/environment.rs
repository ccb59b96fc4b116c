//! The environment of a command: each variable once, in the order of their names.

use vstd::prelude::*;
use vstd::string::*;

use crate::backend::{BackendError, BackendErrorView, EnvironmentComponent};
use crate::text::{chars_of, join3, not_after, quote, same_text};

verus! {

/// Splits a variable from its value.
pub open spec fn split_at_equals(text: Seq<char>) -> Option<(Seq<char>, Seq<char>)> {
    let at = crate::text::find_char(text, 0, '=');
    if at < text.len() {
        Some((text.subrange(0, at), text.subrange(at + 1, text.len() as int)))
    } else {
        None
    }
}

/// A variable as it is written in an argument; what is wrong with it otherwise.
pub open spec fn env_of(text: Seq<char>) -> Result<(Seq<char>, Seq<char>), Seq<char>> {
    match split_at_equals(text) {
        None => Err("environment values must use KEY=VALUE"@),
        Some((key, value)) => if key.len() == 0 || text.contains('\0') {
            Err("environment keys and values must be non-empty and NUL-free"@)
        } else {
            Ok((key, value))
        },
    }
}

/// Reads a variable from an argument.
pub fn parse_env(input: &str) -> (parsed: Result<(String, String), String>)
    ensures
        match parsed {
            Ok(pair) => env_of(input@) == Ok::<(Seq<char>, Seq<char>), Seq<char>>(
                (pair.0@, pair.1@),
            ),
            Err(error) => env_of(input@) == Err::<(Seq<char>, Seq<char>), Seq<char>>(error@),
        },
{
    let characters = chars_of(input);
    let mut at: usize = 0;
    while at < characters.len() && characters[at] != '='
        invariant
            at <= characters@.len(),
            characters@ == input@,
            crate::text::find_char(input@, 0, '=') == crate::text::find_char(
                input@,
                at as int,
                '=',
            ),
        decreases characters@.len() - at,
    {
        at += 1;
    }
    if at >= characters.len() {
        return Err("environment values must use KEY=VALUE".to_owned());
    }
    if at == 0 {
        return Err("environment keys and values must be non-empty and NUL-free".to_owned());
    }
    let mut i: usize = 0;
    while i < characters.len()
        invariant
            0 < at < characters@.len(),
            i <= characters@.len(),
            characters@ == input@,
            crate::text::find_char(input@, 0, '=') == at,
            forall|j: int| 0 <= j < i ==> input@[j] != '\0',
        decreases characters@.len() - i,
    {
        if characters[i] == '\0' {
            assert(input@[i as int] == '\0');
            return Err("environment keys and values must be non-empty and NUL-free".to_owned());
        }
        i += 1;
    }
    Ok(
        (
            input.substring_char(0, at).to_owned(),
            input.substring_char(at + 1, characters.len()).to_owned(),
        ),
    )
}

pub open spec fn pair_views(pairs: Seq<(String, String)>) -> Seq<(Seq<char>, Seq<char>)> {
    pairs.map_values(|pair: (String, String)| (pair.0@, pair.1@))
}

/// A variable put into an environment that is in order: it takes the place of an earlier one of
/// the same name.
pub open spec fn put(environment: Seq<(Seq<char>, Seq<char>)>, pair: (Seq<char>, Seq<char>)) -> Seq<
    (Seq<char>, Seq<char>),
>
    decreases environment.len(),
{
    if environment.len() == 0 {
        seq![pair]
    } else if environment.last().0 == pair.0 {
        environment.drop_last().push(pair)
    } else if crate::text::text_le(environment.last().0, pair.0) {
        environment.push(pair)
    } else {
        put(environment.drop_last(), pair).push(environment.last())
    }
}

/// The environment that some variables make.
pub open spec fn environment_of(pairs: Seq<(Seq<char>, Seq<char>)>) -> Seq<(Seq<char>, Seq<char>)>
    decreases pairs.len(),
{
    if pairs.len() == 0 {
        Seq::empty()
    } else {
        put(environment_of(pairs.drop_last()), pairs.last())
    }
}

/// The variables of an environment as they are handed to a process.
pub open spec fn lines_of(environment: Seq<(Seq<char>, Seq<char>)>) -> Seq<Seq<char>> {
    environment.map_values(|pair: (Seq<char>, Seq<char>)| pair.0 + "="@ + pair.1)
}

fn insert_pair(environment: &mut Vec<(String, String)>, key: &str, value: &str)
    ensures
        pair_views(final(environment)@) == put(pair_views(old(environment)@), (key@, value@)),
{
    let ghost before = pair_views(environment@);
    let ghost pair = (key@, value@);
    let mut place: usize = environment.len();
    assert(before.subrange(0, place as int) =~= before);
    assert(put(before, pair) =~= put(before.subrange(0, place as int), pair) + before.subrange(
        place as int,
        before.len() as int,
    ));
    while place > 0 && !same_text(environment[place - 1].0.as_str(), key) && !not_after(
        environment[place - 1].0.as_str(),
        key,
    )
        invariant
            place <= environment@.len(),
            before == pair_views(environment@),
            pair == (key@, value@),
            put(before, pair) == put(before.subrange(0, place as int), pair) + before.subrange(
                place as int,
                before.len() as int,
            ),
        decreases place,
    {
        proof {
            let taken = before.subrange(0, place as int);
            assert(taken.last() == before[place - 1]);
            assert(taken.drop_last() =~= before.subrange(0, place - 1));
            assert(put(before.subrange(0, place - 1), pair).push(before[place - 1])
                + before.subrange(place as int, before.len() as int) =~= put(
                before.subrange(0, place - 1),
                pair,
            ) + before.subrange(place - 1, before.len() as int));
        }
        place -= 1;
    }
    let ghost taken = before.subrange(0, place as int);
    let ghost rest = before.subrange(place as int, before.len() as int);
    proof {
        if place > 0 {
            assert(taken.last() == before[place - 1]);
            assert(taken.drop_last() =~= before.subrange(0, place - 1));
        }
    }
    if place > 0 && same_text(environment[place - 1].0.as_str(), key) {
        environment.set(place - 1, (key.to_owned(), value.to_owned()));
        assert(pair_views(environment@) =~= taken.drop_last().push(pair) + rest);
    } else {
        environment.insert(place, (key.to_owned(), value.to_owned()));
        assert(pair_views(environment@) =~= taken.push(pair) + rest);
        assert(taken.len() == 0 ==> taken.push(pair) =~= seq![pair]);
    }
}

/// Makes the environment of a command.
pub fn effective_environment(pairs: &Vec<(String, String)>) -> (lines: Vec<String>)
    ensures
        crate::text::strings(lines@) == lines_of(environment_of(pair_views(pairs@))),
{
    let ghost views = pair_views(pairs@);
    let mut environment: Vec<(String, String)> = Vec::new();
    let mut i: usize = 0;
    assert(views.subrange(0, 0) =~= Seq::empty());
    assert(pair_views(environment@) =~= Seq::empty());
    while i < pairs.len()
        invariant
            i <= pairs@.len(),
            views == pair_views(pairs@),
            pair_views(environment@) == environment_of(views.subrange(0, i as int)),
        decreases pairs@.len() - i,
    {
        proof {
            let longer = views.subrange(0, i + 1);
            assert(longer.drop_last() =~= views.subrange(0, i as int));
            assert(longer.last() == (pairs@[i as int].0@, pairs@[i as int].1@));
        }
        insert_pair(&mut environment, pairs[i].0.as_str(), pairs[i].1.as_str());
        i += 1;
    }
    assert(views.subrange(0, i as int) =~= views);
    let ghost ordered = pair_views(environment@);
    let mut lines: Vec<String> = Vec::new();
    let mut j: usize = 0;
    assert(crate::text::strings(lines@) =~= lines_of(ordered).subrange(0, 0));
    while j < environment.len()
        invariant
            j <= environment@.len(),
            ordered == pair_views(environment@),
            crate::text::strings(lines@) == lines_of(ordered).subrange(0, j as int),
        decreases environment@.len() - j,
    {
        let ghost before = lines@;
        let line = join3(environment[j].0.as_str(), "=", environment[j].1.as_str());
        let ghost text = line@;
        lines.push(line);
        j += 1;
        assert(crate::text::strings(lines@) =~= crate::text::strings(before).push(text));
        assert(lines_of(ordered).subrange(0, j as int) =~= lines_of(ordered).subrange(
            0,
            j - 1,
        ).push(text));
    }
    assert(lines_of(ordered).subrange(0, j as int) =~= lines_of(ordered));
    lines
}

/// A variable of the host.
#[derive(Debug)]
pub struct HostVariable {
    /// The name, or what can be shown of one that is not Unicode.
    pub name: Result<String, String>,
    /// The value; `None` where it is not Unicode.
    pub value: Option<String>,
}

/// Why a variable of the host cannot be handed on, if it cannot.
pub open spec fn variable_complaint(variable: HostVariable) -> Option<BackendErrorView> {
    match variable.name {
        Err(shown) => Some(
            BackendErrorView::NonUnicodeEnvironment {
                variable: shown@,
                component: EnvironmentComponent::Name,
            },
        ),
        Ok(name) => match variable.value {
            None => Some(
                BackendErrorView::NonUnicodeEnvironment {
                    variable: crate::text::quoted_text(name@),
                    component: EnvironmentComponent::Value,
                },
            ),
            Some(_) => None,
        },
    }
}

/// The complaint about the first variable that cannot be handed on, from a position on.
pub open spec fn inherited_complaint(inherited: Seq<HostVariable>, from: int) -> Option<
    BackendErrorView,
>
    decreases inherited.len() - from,
{
    if 0 <= from < inherited.len() {
        match variable_complaint(inherited[from]) {
            Some(complaint) => Some(complaint),
            None => inherited_complaint(inherited, from + 1),
        }
    } else {
        None
    }
}

/// The variables of the host, all of which can be handed on.
pub open spec fn inherited_pairs(inherited: Seq<HostVariable>) -> Seq<(Seq<char>, Seq<char>)> {
    inherited.map_values(|variable: HostVariable| (variable.name->Ok_0@, variable.value->0@))
}

/// The environment of a run: the variables of the host that it inherits, and its own, which take
/// the place of those.  A variable of the host that is not Unicode is neither dropped nor altered:
/// the run is refused.
pub fn merge_environment(inherited: &Vec<HostVariable>, explicit: &Vec<(String, String)>) -> (merged:
    Result<Vec<(String, String)>, BackendError>)
    ensures
        match merged {
            Ok(environment) => {
                &&& inherited_complaint(inherited@, 0) is None
                &&& pair_views(environment@) == environment_of(
                    inherited_pairs(inherited@) + pair_views(explicit@),
                )
            },
            Err(error) => inherited_complaint(inherited@, 0) == Some(error@),
        },
{
    let ghost host = inherited_pairs(inherited@);
    let ghost own = pair_views(explicit@);
    let mut environment: Vec<(String, String)> = Vec::new();
    let mut i: usize = 0;
    assert(host.subrange(0, 0) =~= Seq::empty());
    assert(pair_views(environment@) =~= Seq::empty());
    while i < inherited.len()
        invariant
            i <= inherited@.len(),
            host == inherited_pairs(inherited@),
            inherited_complaint(inherited@, 0) == inherited_complaint(inherited@, i as int),
            pair_views(environment@) == environment_of(host.subrange(0, i as int)),
        decreases inherited@.len() - i,
    {
        let variable = &inherited[i];
        let name: &str = match &variable.name {
            Ok(name) => name.as_str(),
            Err(shown) => {
                return Err(
                    BackendError::NonUnicodeEnvironment {
                        variable: shown.as_str().to_owned(),
                        component: EnvironmentComponent::Name,
                    },
                );
            },
        };
        let value: &str = match &variable.value {
            Some(value) => value.as_str(),
            None => {
                return Err(
                    BackendError::NonUnicodeEnvironment {
                        variable: quote(name),
                        component: EnvironmentComponent::Value,
                    },
                );
            },
        };
        proof {
            let longer = host.subrange(0, i + 1);
            assert(longer.drop_last() =~= host.subrange(0, i as int));
            assert(longer.last() == (name@, value@));
        }
        insert_pair(&mut environment, name, value);
        i += 1;
    }
    let mut j: usize = 0;
    assert(host + own.subrange(0, 0) =~= host.subrange(0, i as int));
    while j < explicit.len()
        invariant
            j <= explicit@.len(),
            own == pair_views(explicit@),
            pair_views(environment@) == environment_of(host + own.subrange(0, j as int)),
        decreases explicit@.len() - j,
    {
        proof {
            let longer = host + own.subrange(0, j + 1);
            assert(longer.drop_last() =~= host + own.subrange(0, j as int));
            assert(longer.last() == (explicit@[j as int].0@, explicit@[j as int].1@));
        }
        insert_pair(&mut environment, explicit[j].0.as_str(), explicit[j].1.as_str());
        j += 1;
    }
    assert(own.subrange(0, j as int) =~= own);
    Ok(environment)
}

/// Whether the names of an environment ascend, and none occurs twice.
pub open spec fn ascending(environment: Seq<(Seq<char>, Seq<char>)>) -> bool {
    forall|i: int, j: int|
        0 <= i < j < environment.len() ==> crate::text::text_le(
            (#[trigger] environment[i]).0,
            (#[trigger] environment[j]).0,
        ) && environment[i].0 != environment[j].0
}

/// An environment names each variable once, in the order of their names, with the value that was
/// given last.
pub proof fn law_environment_names_each_variable_once(
    pairs: Seq<(Seq<char>, Seq<char>)>,
    key: Seq<char>,
    value: Seq<char>,
)
    ensures
        ascending(environment_of(pairs)),
        environment_of(pairs).contains((key, value)) <==> exists|i: int|
            0 <= i < pairs.len() && #[trigger] pairs[i] == (key, value) && forall|j: int|
                i < j < pairs.len() ==> (#[trigger] pairs[j]).0 != key,
    decreases pairs.len(),
{
    if pairs.len() == 0 {
        assert(environment_of(pairs) =~= Seq::empty());
    } else {
        let shorter = pairs.drop_last();
        let last = pairs.last();
        law_environment_names_each_variable_once(shorter, key, value);
        lemma_put(environment_of(shorter), last, key, value);
        let n = pairs.len() - 1;
        assert(pairs[n] == last);
        assert forall|i: int| 0 <= i < n implies shorter[i] == #[trigger] pairs[i] by {}
        if last.0 == key {
            if environment_of(pairs).contains((key, value)) {
                assert(pairs[n] == (key, value));
            }
            if exists|i: int|
                0 <= i < pairs.len() && #[trigger] pairs[i] == (key, value) && forall|j: int|
                    i < j < pairs.len() ==> (#[trigger] pairs[j]).0 != key {
                let i = choose|i: int|
                    0 <= i < pairs.len() && #[trigger] pairs[i] == (key, value) && forall|j: int|
                        i < j < pairs.len() ==> (#[trigger] pairs[j]).0 != key;
                if i < n {
                    assert(pairs[n].0 != key);
                }
            }
        } else {
            if environment_of(shorter).contains((key, value)) {
                let i = choose|i: int|
                    0 <= i < shorter.len() && #[trigger] shorter[i] == (key, value) && forall|
                        j: int,
                    |
                        i < j < shorter.len() ==> (#[trigger] shorter[j]).0 != key;
                assert(pairs[i] == (key, value));
                assert forall|j: int| i < j < pairs.len() implies (#[trigger] pairs[j]).0
                    != key by {
                    if j < n {
                        assert(shorter[j].0 != key);
                    }
                }
            }
            if exists|i: int|
                0 <= i < pairs.len() && #[trigger] pairs[i] == (key, value) && forall|j: int|
                    i < j < pairs.len() ==> (#[trigger] pairs[j]).0 != key {
                let i = choose|i: int|
                    0 <= i < pairs.len() && #[trigger] pairs[i] == (key, value) && forall|j: int|
                        i < j < pairs.len() ==> (#[trigger] pairs[j]).0 != key;
                assert(i < n);
                assert(shorter[i] == (key, value));
                assert forall|j: int| i < j < shorter.len() implies (#[trigger] shorter[j]).0
                    != key by {
                    assert(pairs[j].0 != key);
                }
            }
        }
    }
}

proof fn lemma_put(
    environment: Seq<(Seq<char>, Seq<char>)>,
    pair: (Seq<char>, Seq<char>),
    key: Seq<char>,
    value: Seq<char>,
)
    requires
        ascending(environment),
    ensures
        ascending(put(environment, pair)),
        forall|i: int|
            0 <= i < put(environment, pair).len() ==> {
                ||| (#[trigger] put(environment, pair)[i]) == pair
                ||| environment.contains(put(environment, pair)[i])
            },
        put(environment, pair).contains((key, value)) <==> (if pair.0 == key {
            pair.1 == value
        } else {
            environment.contains((key, value))
        }),
    decreases environment.len(),
{
    let after = put(environment, pair);
    if environment.len() == 0 {
        assert(after =~= seq![pair]);
        assert(after[0] == pair);
        if pair == (key, value) {
            assert(after.contains((key, value)));
        }
    } else {
        let n = environment.len() - 1;
        let shorter = environment.drop_last();
        let last = environment.last();
        assert(environment[n] == last);
        assert forall|i: int| 0 <= i < n implies shorter[i] == #[trigger] environment[i] by {}
        if last.0 == pair.0 {
            assert(after =~= shorter.push(pair));
            assert(after[n] == pair);
            assert forall|i: int| 0 <= i < after.len() implies {
                ||| (#[trigger] after[i]) == pair
                ||| environment.contains(after[i])
            } by {
                if i < n {
                    assert(after[i] == environment[i]);
                }
            }
            assert forall|i: int, j: int| 0 <= i < j < after.len() implies crate::text::text_le(
                (#[trigger] after[i]).0,
                (#[trigger] after[j]).0,
            ) && after[i].0 != after[j].0 by {
                assert(after[i].0 == environment[i].0 && after[j].0 == environment[j].0);
            }
            lemma_same_name(environment, shorter, pair, key, value, n);
        } else if crate::text::text_le(last.0, pair.0) {
            assert(after =~= environment.push(pair));
            assert(after[n + 1] == pair);
            assert forall|i: int| 0 <= i < after.len() implies {
                ||| (#[trigger] after[i]) == pair
                ||| environment.contains(after[i])
            } by {
                if i <= n {
                    assert(after[i] == environment[i]);
                }
            }
            assert forall|i: int, j: int| 0 <= i < j < after.len() implies crate::text::text_le(
                (#[trigger] after[i]).0,
                (#[trigger] after[j]).0,
            ) && after[i].0 != after[j].0 by {
                assert(after[i] == environment[i]);
                if j == n + 1 {
                    lemma_below_last(environment, pair, i);
                } else {
                    assert(after[j] == environment[j]);
                }
            }
            lemma_new_name(environment, pair, key, value);
        } else {
            lemma_put(shorter, pair, key, value);
            let inner = put(shorter, pair);
            assert(after =~= inner.push(last));
            crate::text::lemma_text_le_total(last.0, pair.0);
            assert forall|i: int| 0 <= i < after.len() implies {
                ||| (#[trigger] after[i]) == pair
                ||| environment.contains(after[i])
            } by {
                if i < inner.len() {
                    assert(after[i] == inner[i]);
                    if inner[i] != pair {
                        let k = choose|k: int| 0 <= k < shorter.len() && shorter[k] == inner[i];
                        assert(environment[k] == inner[i]);
                    }
                } else {
                    assert(after[i] == environment[n]);
                }
            }
            assert forall|i: int, j: int| 0 <= i < j < after.len() implies crate::text::text_le(
                (#[trigger] after[i]).0,
                (#[trigger] after[j]).0,
            ) && after[i].0 != after[j].0 by {
                assert(after[i] == inner[i]);
                if j < inner.len() {
                    assert(after[j] == inner[j]);
                } else {
                    assert(after[j] == last);
                    if inner[i] != pair {
                        let k = choose|k: int| 0 <= k < shorter.len() && shorter[k] == inner[i];
                        assert(environment[k] == inner[i]);
                        assert(crate::text::text_le(environment[k].0, environment[n].0));
                    }
                }
            }
            if inner.contains((key, value)) {
                let k = choose|k: int| 0 <= k < inner.len() && inner[k] == (key, value);
                assert(after[k] == (key, value));
            }
            if shorter.contains((key, value)) {
                let k = choose|k: int| 0 <= k < shorter.len() && shorter[k] == (key, value);
                assert(environment[k] == (key, value));
            }
            if last == (key, value) {
                assert(after[inner.len() as int] == (key, value));
            }
            if after.contains((key, value)) {
                let k = choose|k: int| 0 <= k < after.len() && after[k] == (key, value);
                if k < inner.len() {
                    assert(inner[k] == (key, value));
                }
            }
            if environment.contains((key, value)) {
                let k = choose|k: int| 0 <= k < environment.len() && environment[k] == (key, value);
                if k < n {
                    assert(shorter[k] == (key, value));
                }
            }
        }
    }
}

proof fn lemma_below_last(
    environment: Seq<(Seq<char>, Seq<char>)>,
    pair: (Seq<char>, Seq<char>),
    i: int,
)
    requires
        ascending(environment),
        0 <= i < environment.len(),
        environment.last().0 != pair.0,
        crate::text::text_le(environment.last().0, pair.0),
    ensures
        crate::text::text_le(environment[i].0, pair.0),
        environment[i].0 != pair.0,
{
    let n = environment.len() - 1;
    if i < n {
        assert(crate::text::text_le(environment[i].0, environment[n].0));
        crate::text::lemma_text_le_transitive(environment[i].0, environment[n].0, pair.0);
        if environment[i].0 == pair.0 {
            crate::text::lemma_text_le_antisymmetric(environment[n].0, pair.0);
        }
    }
}

proof fn lemma_new_name(
    environment: Seq<(Seq<char>, Seq<char>)>,
    pair: (Seq<char>, Seq<char>),
    key: Seq<char>,
    value: Seq<char>,
)
    requires
        ascending(environment),
        environment.len() > 0,
        environment.last().0 != pair.0,
        crate::text::text_le(environment.last().0, pair.0),
    ensures
        environment.push(pair).contains((key, value)) <==> (if pair.0 == key {
            pair.1 == value
        } else {
            environment.contains((key, value))
        }),
{
    let after = environment.push(pair);
    let n = environment.len() as int;
    assert(after[n] == pair);
    if environment.contains((key, value)) {
        let k = choose|k: int| 0 <= k < environment.len() && environment[k] == (key, value);
        assert(after[k] == (key, value));
        lemma_below_last(environment, pair, k);
    }
    if after.contains((key, value)) {
        let k = choose|k: int| 0 <= k < after.len() && after[k] == (key, value);
        if k < n {
            assert(environment[k] == (key, value));
            lemma_below_last(environment, pair, k);
        }
    }
}

proof fn lemma_same_name(
    environment: Seq<(Seq<char>, Seq<char>)>,
    shorter: Seq<(Seq<char>, Seq<char>)>,
    pair: (Seq<char>, Seq<char>),
    key: Seq<char>,
    value: Seq<char>,
    n: int,
)
    requires
        ascending(environment),
        n == environment.len() - 1,
        n >= 0,
        shorter == environment.drop_last(),
        environment.last().0 == pair.0,
    ensures
        shorter.push(pair).contains((key, value)) <==> (if pair.0 == key {
            pair.1 == value
        } else {
            environment.contains((key, value))
        }),
{
    let after = shorter.push(pair);
    assert(after[n] == pair);
    if after.contains((key, value)) {
        let k = choose|k: int| 0 <= k < after.len() && after[k] == (key, value);
        if k < n {
            assert(environment[k] == (key, value));
            assert(environment[k].0 != environment[n].0);
        }
    }
    if pair.0 != key && environment.contains((key, value)) {
        let k = choose|k: int| 0 <= k < environment.len() && environment[k] == (key, value);
        if k < n {
            assert(after[k] == (key, value));
        }
    }
}

/// A variable that a run names itself has the value that the run gives it last, whatever the host
/// says of it, and one that only the host names has the host's.
pub proof fn law_explicit_values_win(
    inherited: Seq<(Seq<char>, Seq<char>)>,
    explicit: Seq<(Seq<char>, Seq<char>)>,
    key: Seq<char>,
    value: Seq<char>,
)
    ensures
        (exists|i: int| 0 <= i < explicit.len() && (#[trigger] explicit[i]).0 == key) ==> (
        environment_of(inherited + explicit).contains((key, value)) <==> environment_of(
            explicit,
        ).contains((key, value))),
        (forall|i: int| 0 <= i < explicit.len() ==> (#[trigger] explicit[i]).0 != key) ==> (
        environment_of(inherited + explicit).contains((key, value)) <==> environment_of(
            inherited,
        ).contains((key, value))),
    decreases explicit.len(),
{
    if explicit.len() == 0 {
        assert(inherited + explicit =~= inherited);
    } else {
        let shorter = explicit.drop_last();
        let last = explicit.last();
        let all = inherited + explicit;
        assert(all.drop_last() =~= inherited + shorter);
        assert(all.last() == last);
        law_explicit_values_win(inherited, shorter, key, value);
        law_environment_names_each_variable_once(inherited + shorter, key, value);
        law_environment_names_each_variable_once(shorter, key, value);
        lemma_put(environment_of(inherited + shorter), last, key, value);
        lemma_put(environment_of(shorter), last, key, value);
        assert(explicit[explicit.len() - 1] == last);
        assert forall|i: int| 0 <= i < shorter.len() implies #[trigger] shorter[i]
            == explicit[i] by {}
        if last.0 != key {
            if exists|i: int| 0 <= i < explicit.len() && (#[trigger] explicit[i]).0 == key {
                let i = choose|i: int|
                    0 <= i < explicit.len() && (#[trigger] explicit[i]).0 == key;
                assert(shorter[i].0 == key);
            }
        }
    }
}

} // verus!
