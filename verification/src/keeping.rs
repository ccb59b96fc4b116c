//! What is kept and for how long: output, prepared sandboxes, the records of a budget, and the
//! variables of an environment.

use vstd::prelude::*;

use crate::backend::{BackendErrorView, OutputChannel};
use crate::budget::{
    elapsed_spec, micros_spec, stage_closed, BudgetStep, BudgetView, RunStage, StageError,
    StageEventKind, TimeoutPolicy,
};
use crate::helper::environment::{
    env_of, inherited_complaint, inherited_pairs, lines_of, variable_complaint, HostVariable,
};
use crate::libkrun::network::{
    bounded_tail, cidrs_of, gateway, gateway_complaint, guest, is_gateway_policy, patterns_of,
};
use crate::net::{IpAddr, Ipv4Addr};
use crate::output::{OutputBufferView, OutputReadError};
use crate::policy::config::{
    config_complaint, guest_addresses_valid, CidrView, ConfigView, PolicyLimits,
};
use crate::policy::domain::PatternView;
use crate::policy::PolicyMode;
use crate::pool::{
    count_keys, count_with_key, first_with_key, unexpired, PoolView, UnitView,
};
use crate::time::saturating_nanos;

verus! {

/// Output goes on where it ended, and what is dropped of it is no more than what the limit asks
/// for.
pub proof fn law_output_goes_on_where_it_ended(
    buffer: OutputBufferView,
    channel: OutputChannel,
    data: Seq<u8>,
)
    requires
        buffer.wf(),
    ensures
        ({
            let after = buffer.pushed(channel, data);
            &&& after.next == buffer.next + data.len()
            &&& after.limit == buffer.limit
            &&& after.earliest >= buffer.earliest
            &&& after.next - after.earliest <= buffer.limit
            &&& after.earliest > buffer.earliest ==> after.next - after.earliest == buffer.limit
        }),
{
}

/// A read ends behind as many bytes as were asked for, or at the end of what there is.
pub proof fn law_reads_give_what_was_asked_for(buffer: OutputBufferView, cursor: int, max_bytes: int)
    requires
        cursor <= buffer.next,
        max_bytes >= 0,
    ensures
        buffer.read_end(cursor, max_bytes) <= cursor + max_bytes,
        buffer.read_end(cursor, max_bytes) <= buffer.next,
        buffer.read_end(cursor, max_bytes) == cursor + max_bytes || buffer.read_end(
            cursor,
            max_bytes,
        ) == buffer.next,
        max_bytes > 0 && cursor < buffer.next ==> buffer.read_end(cursor, max_bytes) > cursor,
{
}

/// A prepared unit waits until its time comes, and not beyond: what is left of units is what is
/// left of each, in their order.
pub proof fn law_units_wait_until_their_time<K, V>(
    units: Seq<UnitView<K, V>>,
    unit: UnitView<K, V>,
    now: int,
)
    ensures
        unit.expires_at > now ==> unexpired(units.push(unit), now) == unexpired(units, now).push(
            unit,
        ),
        unit.expires_at <= now ==> unexpired(units.push(unit), now) == unexpired(units, now),
        unexpired(Seq::<UnitView<K, V>>::empty(), now).len() == 0,
{
    assert(units.push(unit).drop_last() =~= units);
}

/// The unit that has waited longest under a key is the one that is leased.
pub proof fn law_oldest_unit_is_leased<K, V>(
    units: Seq<UnitView<K, V>>,
    key: K,
    from: int,
    at: int,
)
    requires
        0 <= from <= at <= units.len(),
        forall|i: int| from <= i < at ==> (#[trigger] units[i]).key != key,
        at < units.len() ==> units[at].key == key,
    ensures
        first_with_key(units, key, from) == at,
    decreases at - from,
{
    if from < at {
        assert(units[from].key != key);
        law_oldest_unit_is_leased(units, key, from + 1, at);
    }
}

/// A unit that was put into a pool without any of its key is what the next lease under that key
/// gives, as long as its time has not come.
pub proof fn law_lease_gives_what_was_put_in<K, V>(pool: PoolView<K, V>, unit: UnitView<K, V>, now: int)
    requires
        unit.expires_at > now,
        forall|i: int| 0 <= i < pool.units.len() ==> (#[trigger] pool.units[i]).key != unit.key,
    ensures
        ({
            let filled = PoolView { config: pool.config, units: pool.units.push(unit) };
            let left = filled.pruned(now);
            let at = first_with_key(left.units, unit.key, 0);
            &&& left.has_unit(unit.key)
            &&& left.units[at] == unit
            &&& left.without_first(unit.key).units == unexpired(pool.units, now)
        }),
{
    law_units_wait_until_their_time(pool.units, unit, now);
    let earlier = unexpired(pool.units, now);
    let left = earlier.push(unit);
    lemma_unexpired_are_units(pool.units, now);
    assert forall|i: int| 0 <= i < earlier.len() implies (#[trigger] left[i]).key != unit.key by {
        assert(left[i] == earlier[i]);
        assert(pool.units.contains(earlier[i]));
    }
    law_oldest_unit_is_leased(left, unit.key, 0, earlier.len() as int);
    assert(left.remove(earlier.len() as int) =~= earlier);
}

proof fn lemma_unexpired_are_units<K, V>(units: Seq<UnitView<K, V>>, now: int)
    ensures
        forall|i: int|
            0 <= i < unexpired(units, now).len() ==> units.contains(
                #[trigger] unexpired(units, now)[i],
            ),
    decreases units.len(),
{
    if units.len() > 0 {
        let shorter = units.drop_last();
        lemma_unexpired_are_units(shorter, now);
        let left = unexpired(units, now);
        let earlier = unexpired(shorter, now);
        assert forall|i: int| 0 <= i < left.len() implies units.contains(#[trigger] left[i]) by {
            if i < earlier.len() {
                assert(left[i] == earlier[i]);
                let j = choose|j: int| 0 <= j < shorter.len() && shorter[j] == earlier[i];
                assert(units[j] == left[i]);
            } else {
                assert(units[units.len() - 1] == left[i]);
            }
        }
    }
}

/// Units are counted under their own key, each once, and the keys of units are counted once each.
pub proof fn law_units_are_counted<K, V>(units: Seq<UnitView<K, V>>, key: K)
    ensures
        count_with_key(units, key) == units.filter(|unit: UnitView<K, V>| unit.key == key).len(),
        count_keys(units) == units.map_values(|unit: UnitView<K, V>| unit.key).to_set().len(),
        count_with_key(units, key) > 0 <==> exists|i: int|
            0 <= i < units.len() && (#[trigger] units[i]).key == key,
    decreases units.len(),
{
    reveal(Seq::filter);
    let keys = units.map_values(|unit: UnitView<K, V>| unit.key);
    if units.len() == 0 {
        assert(keys.to_set() =~= Set::empty());
    } else {
        let shorter = units.drop_last();
        let last = units.last();
        law_units_are_counted(shorter, key);
        law_units_are_counted(shorter, last.key);
        let earlier = shorter.map_values(|unit: UnitView<K, V>| unit.key);
        assert(keys =~= earlier.push(last.key));
        vstd::seq_lib::seq_to_set_is_finite(earlier);
        assert(keys.to_set() =~= earlier.to_set().insert(last.key)) by {
            assert forall|other: K| keys.to_set().contains(other) <==> earlier.to_set().insert(
                last.key,
            ).contains(other) by {
                if keys.contains(other) {
                    let i = choose|i: int| 0 <= i < keys.len() && keys[i] == other;
                    if i < earlier.len() {
                        assert(earlier[i] == other);
                    }
                }
                if earlier.contains(other) {
                    let i = choose|i: int| 0 <= i < earlier.len() && earlier[i] == other;
                    assert(keys[i] == other);
                }
                assert(keys[keys.len() - 1] == last.key);
            }
        }
        if earlier.contains(last.key) {
            let i = choose|i: int| 0 <= i < earlier.len() && earlier[i] == last.key;
            assert(shorter[i].key == last.key);
        } else if count_with_key(shorter, last.key) > 0 {
            let i = choose|i: int| 0 <= i < shorter.len() && (#[trigger] shorter[i]).key == last.key;
            assert(earlier[i] == last.key);
        }
        assert(units[units.len() - 1] == last);
        if count_with_key(shorter, key) > 0 {
            let i = choose|i: int| 0 <= i < shorter.len() && (#[trigger] shorter[i]).key == key;
            assert(units[i].key == key);
        }
        if exists|i: int| 0 <= i < units.len() && (#[trigger] units[i]).key == key {
            let i = choose|i: int| 0 <= i < units.len() && (#[trigger] units[i]).key == key;
            if i < shorter.len() {
                assert(shorter[i].key == key);
            }
        }
    }
}

/// Times are added as they are, as long as there are that long ones.
pub proof fn law_times_are_added(left: int, right: int)
    requires
        0 <= left <= crate::time::MAX_NANOS,
        0 <= right <= crate::time::MAX_NANOS,
    ensures
        saturating_nanos(left, right) <= left + right,
        saturating_nanos(left, right) >= left && saturating_nanos(left, right) >= right,
        saturating_nanos(left, right) < left + right ==> saturating_nanos(left, right)
            == crate::time::MAX_NANOS,
        saturating_nanos(left, right) == saturating_nanos(right, left),
{
}

/// The time between two points is told in whole microseconds.
pub proof fn law_times_are_told_in_microseconds(from: int, now: int)
    requires
        0 <= from,
        now - from < 1_000_000_000_000_000_000,
    ensures
        now >= from ==> micros_spec(elapsed_spec(from, now)) * 1000 <= now - from < micros_spec(
            elapsed_spec(from, now),
        ) * 1000 + 1000,
        now < from ==> micros_spec(elapsed_spec(from, now)) == 0,
{
}

/// What happens to a stage is recorded once, at its time since the start of the run; of what is
/// started, progress is told.
pub proof fn law_stage_events_are_recorded(
    budget: BudgetView,
    kind: StageEventKind,
    stage: RunStage,
    now: int,
)
    ensures
        ({
            let after = budget.with_event(kind, stage, now);
            &&& after.events.len() == budget.events.len() + 1
            &&& after.events.subrange(0, budget.events.len() as int) == budget.events
            &&& after.events.last().kind == kind
            &&& after.events.last().stage == stage
            &&& after.events.last().elapsed_micros == micros_spec(
                elapsed_spec(budget.started, now),
            )
            &&& after.timings == budget.timings
            &&& after.failure_stage == budget.failure_stage
            &&& kind == StageEventKind::Started && budget.progress is Some ==> after.progress
                == Some(budget.progress->0.push(stage))
            &&& kind != StageEventKind::Started || budget.progress is None ==> after.progress
                == budget.progress
        }),
{
    let after = budget.with_event(kind, stage, now);
    assert(after.events.subrange(0, budget.events.len() as int) =~= budget.events);
}

/// A stage that ends is timed from its start to its end, and its end is recorded as what it was;
/// only one that failed can become the failed stage of the run.
pub proof fn law_ended_stages_are_timed(budget: BudgetView, stage: RunStage, began: int, now: int)
    ensures
        ({
            let done = budget.completed(stage, began, now);
            let failed = budget.failed(stage, began, now);
            &&& done.timings.len() == budget.timings.len() + 1
            &&& done.timings.last().stage == stage
            &&& done.timings.last().elapsed_micros == micros_spec(elapsed_spec(began, now))
            &&& failed.timings == done.timings
            &&& done.events.len() == budget.events.len() + 1
            &&& failed.events.len() == budget.events.len() + 1
            &&& done.events.last().kind == StageEventKind::Completed
            &&& failed.events.last().kind == StageEventKind::Failed
            &&& done.events.last().stage == stage && failed.events.last().stage == stage
            &&& done.failure_stage == budget.failure_stage
            &&& budget.failure_stage is None ==> failed.failure_stage == Some(stage)
            &&& budget.failure_stage is Some ==> failed.failure_stage == budget.failure_stage
        }),
{
}

/// A stage can be started before the deadline and not from then on, and without a deadline always.
pub proof fn law_deadlines_end_a_run(budget: BudgetView, stage: RunStage, now: int)
    ensures
        budget.deadline is None ==> !budget.is_over(now),
        budget.deadline matches Some(deadline) ==> (budget.is_over(now) <==> deadline <= now),
        !budget.is_over(now) ==> budget.after(BudgetStep::Asked { stage, now }) == budget,
        !budget.is_over(now) ==> budget.after(BudgetStep::Started { stage, now }).events.len()
            == budget.events.len() + 1,
        budget.is_over(now) ==> {
            &&& budget.after(BudgetStep::Started { stage, now }).events == budget.events
            &&& budget.after(BudgetStep::Started { stage, now }).failure_stage is Some
            &&& budget.after(BudgetStep::Asked { stage, now }).failure_stage is Some
        },
{
}

/// A stage ends with its own result exactly where that comes before the deadline; else it has run
/// out of time, whatever its result.
pub proof fn law_results_count_before_the_deadline<T, E>(
    before: BudgetView,
    after: BudgetView,
    stage: RunStage,
    began: int,
    result: Result<T, E>,
    done: int,
    outcome: Result<T, StageError<E>>,
)
    requires
        stage_closed(before, after, stage, began, result, done, outcome),
    ensures
        before.is_over(done) ==> {
            &&& outcome matches Err(StageError::Timeout(error))
            &&& error.stage == stage && before.limit == Some(error.limit@)
            &&& after.events.last().kind == StageEventKind::Failed
            &&& after.failure_stage is Some
        },
        !before.is_over(done) ==> match result {
            Ok(value) => outcome == Ok::<T, StageError<E>>(value) && after.events.last().kind
                == StageEventKind::Completed,
            Err(source) => outcome == Err::<T, StageError<E>>(StageError::Failed { stage, source })
                && after.events.last().kind == StageEventKind::Failed,
        },
        after.timings.len() == before.timings.len() + 1,
        after.deadline == before.deadline,
{
}

/// The end of what was written is kept: as much of it as the limit allows.
pub proof fn law_tails_are_the_end(bytes: Seq<u8>, limit: int)
    requires
        limit >= 0,
    ensures
        bounded_tail(bytes, limit).is_suffix_of(bytes),
        bounded_tail(bytes, limit).len() == (if bytes.len() <= limit {
            bytes.len() as int
        } else {
            limit
        }),
{
}

/// A variable is read from its name and its value with an equals sign between them; the value may
/// hold more of them.
pub proof fn law_variables_are_read(key: Seq<char>, value: Seq<char>)
    requires
        forall|i: int| 0 <= i < key.len() ==> #[trigger] key[i] != '=',
    ensures
        ({
            let text = key + seq!['='] + value;
            &&& key.len() > 0 && !text.contains('\0') ==> env_of(text) == Ok::<
                (Seq<char>, Seq<char>),
                Seq<char>,
            >((key, value))
            &&& key.len() == 0 || text.contains('\0') ==> env_of(text) is Err
        }),
        env_of(key) is Err,
{
    let text = key + seq!['='] + value;
    let at = key.len() as int;
    assert forall|i: int| 0 <= i < at implies #[trigger] text[i] != '=' by {
        assert(text[i] == key[i]);
    }
    lemma_equals(text, 0, at);
    lemma_equals(key, 0, at);
    assert(text.subrange(0, at) =~= key);
    assert(text.subrange(at + 1, text.len() as int) =~= value);
}

proof fn lemma_equals(text: Seq<char>, from: int, at: int)
    requires
        0 <= from <= at <= text.len(),
        forall|i: int| from <= i < at ==> #[trigger] text[i] != '=',
        at < text.len() ==> text[at] == '=',
    ensures
        crate::text::find_char(text, from, '=') == at,
    decreases at - from,
{
    if from < at {
        assert(text[from] != '=');
        lemma_equals(text, from + 1, at);
    }
}

/// Every variable is handed on in a line of its own, from which it can be read back.
pub proof fn law_variables_are_handed_on(environment: Seq<(Seq<char>, Seq<char>)>, i: int)
    requires
        0 <= i < environment.len(),
        environment[i].0.len() > 0,
        forall|j: int|
            0 <= j < environment[i].0.len() ==> #[trigger] environment[i].0[j] != '=',
        !environment[i].0.contains('\0'),
        !environment[i].1.contains('\0'),
    ensures
        lines_of(environment).len() == environment.len(),
        env_of(lines_of(environment)[i]) == Ok::<(Seq<char>, Seq<char>), Seq<char>>(environment[i]),
{
    reveal_strlit("=");
    assert("="@ =~= seq!['=']);
    let key = environment[i].0;
    let value = environment[i].1;
    let text = key + seq!['='] + value;
    assert(!text.contains('\0')) by {
        if text.contains('\0') {
            let j = choose|j: int| 0 <= j < text.len() && text[j] == '\0';
            if j < key.len() {
                assert(key[j] == '\0');
            } else if j > key.len() {
                assert(value[j - key.len() - 1] == '\0');
            }
        }
    }
    law_variables_are_read(key, value);
    assert(environment[i] == (key, value));
}

/// A host's environment is taken exactly where all of it is Unicode, each variable with its value;
/// the first variable that is not is named.
pub proof fn law_host_variables_are_taken_whole(inherited: Seq<HostVariable>, from: int, at: int)
    requires
        0 <= from <= at <= inherited.len(),
        forall|i: int|
            from <= i < at ==> (#[trigger] inherited[i]).name is Ok && inherited[i].value is Some,
    ensures
        at == inherited.len() ==> inherited_complaint(inherited, from) is None,
        at < inherited.len() && (inherited[at].name is Err || inherited[at].value is None)
            ==> inherited_complaint(inherited, from) == variable_complaint(inherited[at])
            && inherited_complaint(inherited, from) is Some,
        inherited_pairs(inherited).len() == inherited.len(),
        forall|i: int|
            from <= i < at ==> (#[trigger] inherited_pairs(inherited)[i]).0
                == inherited[i].name->Ok_0@ && inherited_pairs(inherited)[i].1
                == inherited[i].value->0@,
    decreases at - from,
{
    if from < at {
        assert(inherited[from].name is Ok && inherited[from].value is Some);
        law_host_variables_are_taken_whole(inherited, from + 1, at);
    }
}

/// What cannot be handed on is named: a name that is not Unicode as it can be shown, and a value by
/// its variable.
pub proof fn law_bad_variables_are_named(variable: HostVariable)
    ensures
        variable_complaint(variable) is None <==> variable.name is Ok && variable.value is Some,
        variable.name matches Err(shown) ==> {
            &&& variable_complaint(variable) matches Some(
                BackendErrorView::NonUnicodeEnvironment { variable: named, component },
            )
            &&& named == shown@
            &&& component == crate::backend::EnvironmentComponent::Name
        },
        variable.name matches Ok(name) ==> variable.value is None ==> {
            &&& variable_complaint(variable) matches Some(
                BackendErrorView::NonUnicodeEnvironment { variable: named, component },
            )
            &&& component == crate::backend::EnvironmentComponent::Value
        },
{
}

/// Limits are safe exactly within their bounds: some state but not too much of it, room for a
/// hello in every buffer and for every buffer in the whole, and some time for everything.
pub proof fn law_safe_limits_are_accepted(limits: PolicyLimits)
    ensures
        limits.valid() <==> {
            &&& 1 <= limits.max_flows <= 16384
            &&& 1 <= limits.max_pending_dns <= 16384
            &&& 1 <= limits.max_dns_bindings <= 16384
            &&& 512 <= limits.max_tls_buffer_per_flow <= 65536
            &&& limits.max_tls_buffer_per_flow <= limits.max_total_tls_bytes
            &&& limits.max_total_tls_bytes <= 16777216
            &&& limits.flow_ttl@ != 0 && limits.pending_tls_ttl@ != 0
            &&& limits.dns_query_ttl@ != 0 && limits.max_dns_ttl@ != 0
        },
        limits.valid() <==> limits.complaint() is None,
{
}

/// A policy is accepted exactly where its limits are safe and its lists are not too long, and where
/// rules come with the mode that applies them.
pub proof fn law_bounded_policies_are_accepted(
    mode: PolicyMode,
    cidrs: nat,
    domains: nat,
    dns_servers: Set<IpAddr>,
    arp_targets: Set<Ipv4Addr>,
    control_addresses: Set<IpAddr>,
    limits: PolicyLimits,
)
    ensures
        config_complaint(
            mode,
            cidrs,
            domains,
            dns_servers,
            arp_targets,
            control_addresses,
            limits,
        ) is None <==> {
            &&& limits.valid()
            &&& cidrs <= crate::policy::config::MAX_CIDRS
            &&& domains <= crate::policy::config::MAX_DOMAINS
            &&& dns_servers.len() <= 16 && arp_targets.len() <= 16 && control_addresses.len() <= 16
            &&& cidrs > 0 || domains > 0 ==> mode == PolicyMode::Allowlist
        },
{
}

/// A guest's addresses are those of hosts: neither none nor all of them.
pub proof fn law_guests_have_host_addresses(addresses: Set<Ipv4Addr>)
    ensures
        guest_addresses_valid(addresses) <==> addresses.len() <= 16 && forall|address: Ipv4Addr|
            #[trigger] addresses.contains(address) ==> address.bits != 0 && address.bits
                != 0xffff_ffff,
{
    assert forall|address: Ipv4Addr| #[trigger] addresses.contains(address) && (address.bits == 0
        || address.bits == 0xffff_ffff) implies !guest_addresses_valid(addresses) by {
        assert(address == Ipv4Addr { bits: 0 } || address == Ipv4Addr { bits: 0xffff_ffff });
    }
    if !guest_addresses_valid(addresses) && addresses.len() <= 16 {
        assert(addresses.contains(Ipv4Addr { bits: 0 }) || addresses.contains(
            Ipv4Addr { bits: 0xffff_ffff },
        ));
    }
}

/// The blocks of a run are read one by one, in their order; the first that cannot be read is named.
pub proof fn law_blocks_are_read_in_order(
    texts: Seq<(Seq<char>, Seq<u8>)>,
    upto: nat,
    cidrs: Seq<CidrView>,
)
    requires
        upto < texts.len(),
        cidrs_of(texts, upto) == Ok::<Seq<CidrView>, Seq<char>>(cidrs),
    ensures
        upto == 0 ==> cidrs.len() == 0,
        match crate::policy::config::cidr_of(texts[upto as int].1) {
            Ok(cidr) => cidrs_of(texts, upto + 1) == Ok::<Seq<CidrView>, Seq<char>>(
                cidrs.push(cidr),
            ),
            Err(error) => {
                &&& cidrs_of(texts, upto + 1) matches Err(message)
                &&& ("invalid network CIDR "@ + texts[upto as int].0).is_prefix_of(message)
                &&& error.is_suffix_of(message)
            },
        },
{
    assert((upto + 1 - 1) as nat == upto);
}

/// The name rules of a run are read one by one, in their order; the first that cannot be read is
/// named.
pub proof fn law_name_rules_are_read_in_order(
    texts: Seq<(Seq<char>, Seq<u8>)>,
    upto: nat,
    patterns: Seq<PatternView>,
)
    requires
        upto < texts.len(),
        patterns_of(texts, upto) == Ok::<Seq<PatternView>, Seq<char>>(patterns),
    ensures
        upto == 0 ==> patterns.len() == 0,
        match crate::policy::domain::pattern_of(texts[upto as int].1) {
            Some(pattern) => patterns_of(texts, upto + 1) == Ok::<Seq<PatternView>, Seq<char>>(
                patterns.push(pattern),
            ),
            None => {
                &&& patterns_of(texts, upto + 1) matches Err(message)
                &&& ("invalid network domain pattern "@ + texts[upto as int].0).is_prefix_of(
                    message,
                )
            },
        },
{
    assert((upto + 1 - 1) as nat == upto);
}

/// The rules and ports of a run are accepted exactly within their bounds, and no port is zero.
pub proof fn law_bounded_rules_are_accepted(cidrs: nat, domains: nat, ports: Set<u16>)
    ensures
        gateway_complaint(cidrs, domains, ports) is None <==> {
            &&& cidrs <= crate::policy::config::MAX_CIDRS
            &&& domains <= crate::policy::config::MAX_DOMAINS
            &&& ports.len() <= 32
            &&& !ports.contains(0u16)
        },
{
}

/// What is kept in a table is there until its time comes, with its value.
pub proof fn law_values_are_kept_until_their_time<K, T: crate::table::Expiring>(
    map: Map<K, T::V>,
    key: K,
    now: int,
)
    ensures
        crate::table::live::<K, T>(map, now).contains_key(key) <==> map.contains_key(key) && now
            < T::expiry(map[key]),
        crate::table::live::<K, T>(map, now).contains_key(key) ==> crate::table::live::<K, T>(
            map,
            now,
        )[key] == map[key],
{
}

/// A read is answered exactly where its position is one of the output: neither one that is no longer
/// kept nor one that the output has not come to.  That output was dropped is told of every read.
pub proof fn law_reads_are_answered_at_kept_positions(
    buffer: OutputBufferView,
    cursor: u64,
    max_bytes: int,
)
    requires
        buffer.wf(),
        max_bytes >= 0,
    ensures
        match buffer.read_of(cursor, max_bytes) {
            Ok((page, end, truncated)) => {
                &&& buffer.earliest <= cursor <= buffer.next
                &&& crate::output::gapless(page, cursor as int, end)
                &&& end == cursor + max_bytes || end == buffer.next
                &&& end <= cursor + max_bytes
                &&& truncated <==> buffer.earliest > 0
            },
            Err(OutputReadError::CursorExpired { requested, earliest }) => cursor < buffer.earliest
                && requested == cursor && earliest == buffer.earliest,
            Err(OutputReadError::CursorAhead { requested, next }) => cursor > buffer.next
                && requested == cursor && next == buffer.next,
        },
{
    if buffer.earliest <= cursor <= buffer.next {
        crate::output::law_read_gives_back_what_was_kept(buffer, cursor as int, max_bytes);
    }
}

/// A run has as much time as its limit says, from its start, and without a limit always more.
pub proof fn law_runs_have_the_time_of_their_limit(
    millis: u64,
    start: int,
    stage: RunStage,
    now: int,
)
    requires
        0 <= start <= now,
        start + millis * 1_000_000 <= crate::time::MAX_NANOS,
    ensures
        ({
            let budget = BudgetView::begun(TimeoutPolicy::Limited(millis), start);
            let free = BudgetView::begun(TimeoutPolicy::Unlimited, start);
            &&& budget.consistent() && free.consistent()
            &&& budget.started == start && free.started == start
            &&& budget.limit == Some(millis * 1_000_000)
            &&& match budget.left(stage, now) {
                Ok(Some(left)) => left > 0 && (now - start) + left == millis * 1_000_000,
                Ok(None) => false,
                Err((named, limit)) => {
                    &&& now - start >= millis * 1_000_000
                    &&& named == stage && limit == millis * 1_000_000
                },
            }
            &&& free.left(stage, now) == Ok::<Option<int>, (RunStage, int)>(None)
            &&& budget.events.len() == 0 && budget.timings.len() == 0
            &&& budget.failure_stage is None
        }),
{
}

/// The time that is left is what is missing to the deadline, whatever was recorded meanwhile.
pub proof fn law_time_left_reaches_to_the_deadline(budget: BudgetView, stage: RunStage, now: int)
    ensures
        budget.left(stage, now) is Err <==> budget.is_over(now),
        budget.left(stage, now) matches Ok(Some(left)) ==> budget.deadline == Some(now + left),
        budget.left(stage, now) == Ok::<Option<int>, (RunStage, int)>(None) ==> budget.deadline
            is None,
{
}

/// A unit goes into a pool that has room, behind the others, with the whole idle time before it; a
/// full pool takes none.
pub proof fn law_units_go_in_with_their_time<K, V>(pool: PoolView<K, V>, key: K, value: V, now: int)
    requires
        0 <= now,
        now + pool.config.idle_ttl@ <= crate::time::MAX_NANOS,
    ensures
        pool.filled(key, value, now) is None <==> unexpired(pool.units, now).len()
            >= pool.config.max_size,
        pool.filled(key, value, now) matches Some(after) ==> {
            &&& after.config == pool.config
            &&& after.units.len() == unexpired(pool.units, now).len() + 1
            &&& after.units.drop_last() == unexpired(pool.units, now)
            &&& after.units.last().key == key && after.units.last().value == value
            &&& after.units.last().expires_at == now + pool.config.idle_ttl@
        },
{
    if pool.filled(key, value, now) is Some {
        assert((pool.filled(key, value, now)->0).units.drop_last() =~= unexpired(pool.units, now));
    }
}

/// What a lease gives was put in under its key, waits no longer, and is the first of its kind; a
/// lease that gives nothing finds nothing under its key.
pub proof fn law_leases_give_the_first_of_their_key<K, V>(pool: PoolView<K, V>, key: K, now: int)
    ensures
        ({
            let units = unexpired(pool.units, now);
            let (value, after) = pool.leased(key, now);
            &&& value is None <==> forall|i: int|
                0 <= i < units.len() ==> (#[trigger] units[i]).key != key
            &&& value is None ==> after.units == units
            &&& value matches Some(given) ==> exists|at: int|
                {
                    &&& 0 <= at < units.len()
                    &&& (#[trigger] units[at]).key == key && units[at].value == given
                    &&& forall|i: int| 0 <= i < at ==> (#[trigger] units[i]).key != key
                    &&& after.units == units.remove(at)
                }
            &&& after.config == pool.config
        }),
{
    let units = unexpired(pool.units, now);
    let at = first_with_key(units, key, 0);
    lemma_first(units, key, 0);
    if at < units.len() {
        assert(units[at].key == key);
    }
}

proof fn lemma_first<K, V>(units: Seq<UnitView<K, V>>, key: K, from: int)
    requires
        0 <= from <= units.len(),
    ensures
        from <= first_with_key(units, key, from) <= units.len(),
        first_with_key(units, key, from) < units.len() ==> units[first_with_key(
            units,
            key,
            from,
        )].key == key,
        forall|i: int|
            from <= i < first_with_key(units, key, from) ==> (#[trigger] units[i]).key != key,
    decreases units.len() - from,
{
    if from < units.len() && units[from].key != key {
        lemma_first(units, key, from + 1);
    }
}

/// As many units are missing as the target is above what waits under the key, and never more than
/// the pool can hold.
pub proof fn law_missing_units_reach_the_target<K, V>(
    pool: PoolView<K, V>,
    key: K,
    target: int,
    now: int,
)
    requires
        target >= 0,
    ensures
        ({
            let waiting = count_with_key(unexpired(pool.units, now), key);
            let missing = pool.lacking(key, target, now);
            &&& missing >= 0
            &&& missing > 0 ==> waiting + missing <= target && waiting + missing
                <= pool.config.max_size
            &&& waiting + missing >= target || waiting + missing >= pool.config.max_size
        }),
{
}

/// A slot can be taken as long as fewer sessions are active than may be, and counts from then on.
pub proof fn law_slots_can_be_taken_up_to_the_limit(registry: crate::sdk::RegistryView)
    ensures
        registry.acquired() is Some <==> registry.active() < registry.maximum,
        registry.acquired() matches Some(after) ==> {
            &&& after.active() == registry.active() + 1
            &&& after.entries == registry.entries && after.maximum == registry.maximum
            &&& after.next_generation == registry.next_generation
        },
{
}

/// The policy of a run stands behind the gateway: names are asked for there and nowhere else, it is
/// the one neighbour and no target of the guest's own connections, and nothing is open but what the
/// rules and the ports say.
pub proof fn law_runs_stand_behind_the_gateway(
    config: ConfigView,
    cidrs: Seq<CidrView>,
    domains: Seq<PatternView>,
    ports: Set<u16>,
    address: Ipv4Addr,
)
    requires
        is_gateway_policy(config, cidrs, domains, ports),
    ensures
        config.mode == PolicyMode::Allowlist,
        config.cidrs == cidrs && config.domains == domains && config.published_tcp_ports == ports,
        gateway().octets_spec() == seq![192u8, 168u8, 127u8, 1u8],
        guest().octets_spec() == seq![192u8, 168u8, 127u8, 2u8],
        config.dns_servers.contains(IpAddr::V4(address)) <==> address == gateway(),
        config.arp_targets.contains(address) <==> address == gateway(),
        config.control_addresses.contains(IpAddr::V4(address)) <==> address == gateway(),
        config.guest_ipv4_addresses.contains(address) <==> address == guest(),
        config.limits.valid(),
{
    assert(gateway().octets_spec() =~= seq![192u8, 168u8, 127u8, 1u8]);
    assert(guest().octets_spec() =~= seq![192u8, 168u8, 127u8, 2u8]);
}

} // verus!
