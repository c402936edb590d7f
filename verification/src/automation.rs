//! Decisions of the automation engine: which rules a reading concerns, rule
//! debouncing, how condition results combine, and what an action sends.

use vstd::prelude::*;
use vstd::string::*;

use crate::models::automation::{AutomationRule, LogicalOperator, SwitchAction};
use crate::text::str_eq;

verus! {

/// Minimum time between two triggers of the same rule, in seconds.
pub const DEBOUNCE_SECONDS: i64 = 60;

/// Nanoseconds per second.
pub const NANOS_PER_SECOND: i64 = 1_000_000_000;

/// Last trigger time of each rule, as nanoseconds since the Unix epoch.
pub struct TriggerLog {
    entries: Vec<(String, i64)>,
    debounce_seconds: i64,
}

/// The rule ids of a trigger log are pairwise distinct.
pub open spec fn keys_unique(s: Seq<(String, i64)>) -> bool {
    forall|i: int, j: int| 0 <= i < j < s.len() ==> (#[trigger] s[i]).0@ != (#[trigger] s[j]).0@
}

/// Trigger time recorded for `id`.
pub open spec fn spec_lookup(s: Seq<(String, i64)>, id: Seq<char>) -> Option<i64> {
    if exists|i: int| 0 <= i < s.len() && (#[trigger] s[i]).0@ == id {
        Some(s[choose|i: int| 0 <= i < s.len() && (#[trigger] s[i]).0@ == id].1)
    } else {
        None
    }
}

/// `now` falls within the debounce window that started at `last`. (Whole
/// seconds elapsed, truncated toward zero, below `debounce_seconds` is the
/// same condition as this one on nanoseconds.)
pub open spec fn within_debounce(last: i64, now: i64, debounce_seconds: i64) -> bool {
    now - last < debounce_seconds * NANOS_PER_SECOND as int
}

proof fn lemma_lookup_at(s: Seq<(String, i64)>, i: int)
    requires
        keys_unique(s),
        0 <= i < s.len(),
    ensures
        spec_lookup(s, s[i].0@) == Some(s[i].1),
{
    let id = s[i].0@;
    assert(exists|k: int| 0 <= k < s.len() && (#[trigger] s[k]).0@ == id);
    let c = choose|k: int| 0 <= k < s.len() && (#[trigger] s[k]).0@ == id;
    if c != i {
        if c < i {
            assert(s[c].0@ != s[i].0@);
        } else {
            assert(s[i].0@ != s[c].0@);
        }
    }
}

proof fn lemma_lookup_absent(s: Seq<(String, i64)>, id: Seq<char>)
    requires
        forall|k: int| 0 <= k < s.len() ==> (#[trigger] s[k]).0@ != id,
    ensures
        spec_lookup(s, id) is None,
{
}

proof fn lemma_lookup_via(s: Seq<(String, i64)>, id: Seq<char>)
    requires
        keys_unique(s),
    ensures
        spec_lookup(s, id) is Some <==> exists|k: int| 0 <= k < s.len() && (#[trigger] s[k]).0@ == id,
        forall|k: int| 0 <= k < s.len() && (#[trigger] s[k]).0@ == id ==> spec_lookup(s, id) == Some(s[k].1),
{
    assert forall|k: int| 0 <= k < s.len() && (#[trigger] s[k]).0@ == id implies spec_lookup(s, id) == Some(
        s[k].1,
    ) by {
        lemma_lookup_at(s, k);
    }
}

impl TriggerLog {
    /// The log's invariant: one entry per rule.
    pub closed spec fn wf(&self) -> bool {
        keys_unique(self.entries@)
    }

    /// Recorded trigger time of `id`.
    pub closed spec fn last(&self, id: Seq<char>) -> Option<i64> {
        spec_lookup(self.entries@, id)
    }

    /// Debounce interval in seconds.
    pub closed spec fn debounce(&self) -> i64 {
        self.debounce_seconds
    }

    /// An empty log with the engine's debounce interval.
    pub fn new() -> (r: Self)
        ensures
            r.wf(),
            r.debounce() == DEBOUNCE_SECONDS,
            forall|id: Seq<char>| r.last(id) is None,
    {
        TriggerLog { entries: Vec::new(), debounce_seconds: DEBOUNCE_SECONDS }
    }

    fn position(&self, rule_id: &str) -> (r: Option<usize>)
        requires
            self.wf(),
        ensures
            match r {
                Some(i) => i < self.entries@.len() && self.entries@[i as int].0@ == rule_id@,
                None => forall|k: int| 0 <= k < self.entries@.len() ==> (#[trigger] self.entries@[k]).0@ != rule_id@,
            },
    {
        let mut i: usize = 0;
        while i < self.entries.len()
            invariant
                i <= self.entries.len(),
                forall|k: int| 0 <= k < i ==> (#[trigger] self.entries@[k]).0@ != rule_id@,
            decreases self.entries.len() - i,
        {
            if str_eq(self.entries[i].0.as_str(), rule_id) {
                return Some(i);
            }
            i = i + 1;
        }
        None
    }

    /// When `rule_id` last triggered.
    pub fn last_triggered(&self, rule_id: &str) -> (r: Option<i64>)
        requires
            self.wf(),
        ensures
            r == self.last(rule_id@),
    {
        proof {
            lemma_lookup_via(self.entries@, rule_id@);
        }
        match self.position(rule_id) {
            Some(i) => Some(self.entries[i].1),
            None => None,
        }
    }

    /// `rule_id` triggered less than the debounce interval before `now`.
    pub fn is_debounced(&self, rule_id: &str, now: i64) -> (b: bool)
        requires
            self.wf(),
            self.debounce() == DEBOUNCE_SECONDS,
        ensures
            b == (match self.last(rule_id@) {
                Some(last) => within_debounce(last, now, self.debounce()),
                None => false,
            }),
    {
        match self.last_triggered(rule_id) {
            Some(last) => {
                let elapsed: i128 = (now as i128) - (last as i128);
                assert(self.debounce_seconds == 60);
                elapsed < (self.debounce_seconds as i128) * 1_000_000_000i128
            },
            None => false,
        }
    }

    /// Record that `rule_id` triggered at `now`.
    pub fn record(&mut self, rule_id: &str, now: i64)
        requires
            old(self).wf(),
        ensures
            final(self).wf(),
            final(self).debounce() == old(self).debounce(),
            final(self).last(rule_id@) == Some(now),
            forall|other: Seq<char>| other != rule_id@ ==> final(self).last(other) == old(self).last(other),
    {
        let ghost old_entries = self.entries@;
        match self.position(rule_id) {
            Some(i) => {
                let key = self.entries[i].0.clone();
                self.entries.set(i, (key, now));
                proof {
                    let s = self.entries@;
                    assert(keys_unique(s)) by {
                        assert forall|a: int, b: int| 0 <= a < b < s.len() implies (#[trigger] s[a]).0@
                            != (#[trigger] s[b]).0@ by {
                            assert(old_entries[a].0@ != old_entries[b].0@);
                        }
                    }
                    lemma_lookup_at(s, i as int);
                    assert forall|other: Seq<char>| other != rule_id@ implies spec_lookup(s, other)
                        == spec_lookup(old_entries, other) by {
                        lemma_lookup_via(s, other);
                        lemma_lookup_via(old_entries, other);
                        if exists|k: int| 0 <= k < s.len() && (#[trigger] s[k]).0@ == other {
                            let k = choose|k: int| 0 <= k < s.len() && (#[trigger] s[k]).0@ == other;
                            assert(old_entries[k].0@ == other);
                        }
                        if exists|k: int| 0 <= k < old_entries.len() && (#[trigger] old_entries[k]).0@ == other {
                            let k = choose|k: int| 0 <= k < old_entries.len() && (#[trigger] old_entries[k]).0@ == other;
                            assert(s[k].0@ == other);
                        }
                    }
                }
            },
            None => {
                self.entries.push((String::from_str(rule_id), now));
                proof {
                    let s = self.entries@;
                    let n = old_entries.len() as int;
                    assert(keys_unique(s)) by {
                        assert forall|a: int, b: int| 0 <= a < b < s.len() implies (#[trigger] s[a]).0@
                            != (#[trigger] s[b]).0@ by {
                            if b < n {
                                assert(old_entries[a].0@ != old_entries[b].0@);
                            } else {
                                assert(old_entries[a].0@ != rule_id@);
                            }
                        }
                    }
                    lemma_lookup_at(s, n);
                    assert forall|other: Seq<char>| other != rule_id@ implies spec_lookup(s, other)
                        == spec_lookup(old_entries, other) by {
                        lemma_lookup_via(s, other);
                        lemma_lookup_via(old_entries, other);
                        if exists|k: int| 0 <= k < s.len() && (#[trigger] s[k]).0@ == other {
                            let k = choose|k: int| 0 <= k < s.len() && (#[trigger] s[k]).0@ == other;
                            assert(k < n);
                            assert(old_entries[k].0@ == other);
                        }
                        if exists|k: int| 0 <= k < old_entries.len() && (#[trigger] old_entries[k]).0@ == other {
                            let k = choose|k: int| 0 <= k < old_entries.len() && (#[trigger] old_entries[k]).0@ == other;
                            assert(s[k].0@ == other);
                        }
                    }
                }
            },
        }
    }

    /// Forget a deleted rule.
    pub fn forget(&mut self, rule_id: &str)
        requires
            old(self).wf(),
        ensures
            final(self).wf(),
            final(self).debounce() == old(self).debounce(),
            final(self).last(rule_id@) is None,
            forall|other: Seq<char>| other != rule_id@ ==> final(self).last(other) == old(self).last(other),
    {
        let ghost old_entries = self.entries@;
        match self.position(rule_id) {
            Some(i) => {
                self.entries.remove(i);
                proof {
                    let s = self.entries@;
                    assert(keys_unique(s)) by {
                        assert forall|a: int, b: int| 0 <= a < b < s.len() implies (#[trigger] s[a]).0@
                            != (#[trigger] s[b]).0@ by {
                            if b < i {
                                assert(old_entries[a].0@ != old_entries[b].0@);
                            } else if a < i {
                                assert(s[b] == old_entries[b + 1]);
                                assert(old_entries[a].0@ != old_entries[b + 1].0@);
                            } else {
                                assert(s[a] == old_entries[a + 1]);
                                assert(s[b] == old_entries[b + 1]);
                                assert(old_entries[a + 1].0@ != old_entries[b + 1].0@);
                            }
                        }
                    }
                    assert forall|k: int| 0 <= k < s.len() implies (#[trigger] s[k]).0@ != rule_id@ by {
                        if k < i {
                            assert(old_entries[k].0@ != old_entries[i as int].0@);
                        } else {
                            assert(s[k] == old_entries[k + 1]);
                            assert(old_entries[i as int].0@ != old_entries[k + 1].0@);
                        }
                    }
                    lemma_lookup_absent(s, rule_id@);
                    assert forall|other: Seq<char>| other != rule_id@ implies spec_lookup(s, other)
                        == spec_lookup(old_entries, other) by {
                        lemma_lookup_via(s, other);
                        lemma_lookup_via(old_entries, other);
                        if exists|k: int| 0 <= k < s.len() && (#[trigger] s[k]).0@ == other {
                            let k = choose|k: int| 0 <= k < s.len() && (#[trigger] s[k]).0@ == other;
                            if k < i {
                                assert(old_entries[k].0@ == other);
                            } else {
                                assert(s[k] == old_entries[k + 1]);
                                assert(old_entries[k + 1].0@ == other);
                            }
                        }
                        if exists|k: int| 0 <= k < old_entries.len() && (#[trigger] old_entries[k]).0@ == other {
                            let k = choose|k: int| 0 <= k < old_entries.len() && (#[trigger] old_entries[k]).0@ == other;
                            assert(k != i);
                            if k < i {
                                assert(s[k].0@ == other);
                            } else {
                                assert(s[k - 1] == old_entries[k]);
                                assert(s[k - 1].0@ == other);
                            }
                        }
                    }
                }
            },
            None => {
                proof {
                    lemma_lookup_absent(self.entries@, rule_id@);
                }
            },
        }
    }
}

/// Whether a reading from `device_id` should evaluate a rule whose conditions
/// watch `condition_devices`.
pub open spec fn spec_rule_concerns(condition_devices: Seq<String>, device_id: Seq<char>) -> bool {
    exists|i: int| 0 <= i < condition_devices.len() && (#[trigger] condition_devices[i])@ == device_id
}

/// Some condition of the rule watches the device that produced the reading.
pub fn rule_concerns_device(condition_devices: &Vec<String>, device_id: &str) -> (b: bool)
    ensures
        b == spec_rule_concerns(condition_devices@, device_id@),
{
    let mut i: usize = 0;
    while i < condition_devices.len()
        invariant
            i <= condition_devices.len(),
            forall|k: int| 0 <= k < i ==> (#[trigger] condition_devices@[k])@ != device_id@,
        decreases condition_devices.len() - i,
    {
        if str_eq(condition_devices[i].as_str(), device_id) {
            return true;
        }
        i = i + 1;
    }
    false
}

/// Whether a rule is evaluated for a reading: it must watch the reading's
/// device and must not have triggered within the debounce interval.
pub fn should_evaluate_rule(
    log: &TriggerLog,
    rule_id: &str,
    condition_devices: &Vec<String>,
    device_id: &str,
    now: i64,
) -> (b: bool)
    requires
        log.wf(),
        log.debounce() == DEBOUNCE_SECONDS,
    ensures
        b == (spec_rule_concerns(condition_devices@, device_id@) && !(match log.last(rule_id@) {
            Some(last) => within_debounce(last, now, log.debounce()),
            None => false,
        })),
{
    if !rule_concerns_device(condition_devices, device_id) {
        return false;
    }
    !log.is_debounced(rule_id, now)
}

/// Combined result of a rule's conditions; a rule without conditions never
/// holds.
pub open spec fn spec_conditions_met(op: LogicalOperator, results: Seq<bool>) -> bool {
    if results.len() == 0 {
        false
    } else {
        match op {
            LogicalOperator::And => forall|i: int| 0 <= i < results.len() ==> #[trigger] results[i],
            LogicalOperator::Or => exists|i: int| 0 <= i < results.len() && #[trigger] results[i],
        }
    }
}

/// Combine condition results with the rule's logical operator.
pub fn conditions_met(op: LogicalOperator, results: &Vec<bool>) -> (b: bool)
    ensures
        b == spec_conditions_met(op, results@),
{
    if results.len() == 0 {
        return false;
    }
    let mut i: usize = 0;
    while i < results.len()
        invariant
            i <= results.len(),
            op == LogicalOperator::And ==> forall|k: int| 0 <= k < i ==> #[trigger] results@[k],
            op == LogicalOperator::Or ==> forall|k: int| 0 <= k < i ==> !#[trigger] results@[k],
        decreases results.len() - i,
    {
        match op {
            LogicalOperator::And => {
                if !results[i] {
                    return false;
                }
            },
            LogicalOperator::Or => {
                if results[i] {
                    return true;
                }
            },
        }
        i = i + 1;
    }
    match op {
        LogicalOperator::And => true,
        LogicalOperator::Or => false,
    }
}

/// Why an action cannot be carried out.
#[derive(Debug, Clone, Copy, PartialEq, Eq, Structural)]
pub enum ActionError {
    /// A toggle needs the switch's current state, which is unknown
    CurrentStateUnknown,
}

/// The switch state an action asks for, given the switch's current state.
pub open spec fn spec_desired_state(action: SwitchAction, current: Option<bool>) -> Result<bool, ActionError> {
    match action {
        SwitchAction::On => Ok(true),
        SwitchAction::Off => Ok(false),
        SwitchAction::Toggle => match current {
            Some(c) => Ok(!c),
            None => Err(ActionError::CurrentStateUnknown),
        },
    }
}

/// The switch state an action asks for.
pub fn desired_state(action: SwitchAction, current: Option<bool>) -> (r: Result<bool, ActionError>)
    ensures
        r == spec_desired_state(action, current),
{
    match action {
        SwitchAction::On => Ok(true),
        SwitchAction::Off => Ok(false),
        SwitchAction::Toggle => match current {
            Some(c) => Ok(!c),
            None => Err(ActionError::CurrentStateUnknown),
        },
    }
}

/// The MQTT payload that sets a switch.
pub fn switch_payload(on: bool) -> (r: &'static str)
    ensures
        r@ == (if on { "{\"state\":\"ON\"}"@ } else { "{\"state\":\"OFF\"}"@ }),
{
    if on {
        "{\"state\":\"ON\"}"
    } else {
        "{\"state\":\"OFF\"}"
    }
}

/// The command topic of a device: its topic followed by `/set`.
pub fn command_topic(mqtt_topic: &str) -> (r: String)
    ensures
        r@ == mqtt_topic@ + "/set"@,
{
    let t = String::from_str(mqtt_topic);
    t.concat("/set")
}

/// `parts` joined by `sep`.
pub open spec fn spec_join(parts: Seq<Seq<char>>, sep: Seq<char>) -> Seq<char>
    decreases parts.len(),
{
    if parts.len() == 0 {
        Seq::empty()
    } else if parts.len() == 1 {
        parts[0]
    } else {
        spec_join(parts.drop_last(), sep) + sep + parts.last()
    }
}

/// The error text of an execution-log entry: `None` when every action
/// succeeded, otherwise the failure messages joined by `"; "`.
pub fn execution_error_message(messages: &Vec<String>) -> (r: Option<String>)
    ensures
        messages.len() == 0 ==> r is None,
        messages.len() > 0 ==> (r matches Some(m) && m@ == spec_join(
            messages@.map_values(|s: String| s@),
            "; "@,
        )),
{
    if messages.len() == 0 {
        return None;
    }
    Some(join_strings(messages, "; "))
}

/// `parts.join(sep)`.
pub fn join_strings(parts: &Vec<String>, sep: &str) -> (r: String)
    ensures
        r@ == spec_join(parts@.map_values(|s: String| s@), sep@),
{
    let ghost pv = parts@.map_values(|s: String| s@);
    let mut out = String::new();
    let mut i: usize = 0;
    while i < parts.len()
        invariant
            i <= parts.len(),
            pv == parts@.map_values(|s: String| s@),
            out@ == spec_join(pv.take(i as int), sep@),
        decreases parts.len() - i,
    {
        assert(pv.take(i + 1).drop_last() =~= pv.take(i as int));
        if i == 0 {
            assert(out@ =~= Seq::<char>::empty());
            out.append(parts[i].as_str());
            assert(pv.take(1) =~= seq![pv[0]]);
            assert(out@ =~= pv[0]);
        } else {
            out.append(sep);
            out.append(parts[i].as_str());
            assert(out@ =~= spec_join(pv.take(i as int), sep@) + sep@ + pv[i as int]);
        }
        i = i + 1;
    }
    assert(pv.take(i as int) =~= pv);
    out
}

/// Within the debounce interval after a trigger, the same rule is not
/// evaluated again; other rules are unaffected by that trigger.
pub proof fn law_debounce_after_trigger(last: i64, now: i64)
    requires
        last <= now,
        now - last < DEBOUNCE_SECONDS * NANOS_PER_SECOND,
    ensures
        within_debounce(last, now, DEBOUNCE_SECONDS),
{
}

/// Once the interval has elapsed the rule may trigger again.
pub proof fn law_debounce_expires(last: i64, now: i64)
    requires
        now - last >= DEBOUNCE_SECONDS * NANOS_PER_SECOND,
    ensures
        !within_debounce(last, now, DEBOUNCE_SECONDS),
{
}

/// An `And` rule holds exactly when an `Or` rule over the negated results
/// fails, for non-empty condition lists.
pub proof fn law_and_or_duality(results: Seq<bool>)
    requires
        results.len() > 0,
    ensures
        spec_conditions_met(LogicalOperator::And, results) == !spec_conditions_met(
            LogicalOperator::Or,
            results.map_values(|b: bool| !b),
        ),
{
    let neg = results.map_values(|b: bool| !b);
    if !spec_conditions_met(LogicalOperator::And, results) {
        let i = choose|i: int| 0 <= i < results.len() && !results[i];
        assert(neg[i]);
    }
}


/// Combining condition results: a rule with one condition holds exactly when
/// that condition holds; an AND rule fails as soon as any condition fails and
/// holds when all hold; an OR rule holds as soon as any condition holds and
/// fails when none does; and no rule without conditions holds.
pub proof fn law_conditions_combine(results: Seq<bool>, i: int, op: LogicalOperator)
    ensures
        spec_conditions_met(op, Seq::<bool>::empty()) == false,
        results.len() == 1 ==> spec_conditions_met(op, results) == results[0],
        0 <= i < results.len() && !results[i] ==> !spec_conditions_met(LogicalOperator::And, results),
        0 <= i < results.len() && results[i] ==> spec_conditions_met(LogicalOperator::Or, results),
        results.len() > 0 && (forall|j: int| 0 <= j < results.len() ==> results[j]) ==> spec_conditions_met(
            LogicalOperator::And,
            results,
        ),
        results.len() > 0 && (forall|j: int| 0 <= j < results.len() ==> !results[j]) ==> !spec_conditions_met(
            LogicalOperator::Or,
            results,
        ),
{
    if results.len() > 0 && (forall|j: int| 0 <= j < results.len() ==> !results[j]) {
        if spec_conditions_met(LogicalOperator::Or, results) {
            let w = choose|w: int| 0 <= w < results.len() && results[w];
            assert(!results[w]);
        }
    }
}

// ---------------------------------------------------------------------------
// Rules and actions
// ---------------------------------------------------------------------------

/// Some condition of the rule watches `device_id`.
pub open spec fn spec_rule_watches(rule: AutomationRule, device_id: Seq<char>) -> bool {
    exists|i: int| 0 <= i < rule.conditions.len() && (#[trigger] rule.conditions@[i]).device_id@ == device_id
}

/// Whether a reading from `device_id` concerns the rule.
pub fn rule_watches_device(rule: &AutomationRule, device_id: &str) -> (b: bool)
    ensures
        b == spec_rule_watches(*rule, device_id@),
{
    let mut i: usize = 0;
    while i < rule.conditions.len()
        invariant
            i <= rule.conditions.len(),
            forall|k: int| 0 <= k < i ==> (#[trigger] rule.conditions@[k]).device_id@ != device_id@,
        decreases rule.conditions.len() - i,
    {
        if str_eq(rule.conditions[i].device_id.as_str(), device_id) {
            return true;
        }
        i = i + 1;
    }
    false
}

/// The enabled rules of `rules`, in order.
pub open spec fn spec_enabled_rules(rules: Seq<AutomationRule>) -> Seq<AutomationRule>
    decreases rules.len(),
{
    if rules.len() == 0 {
        Seq::empty()
    } else if rules.last().enabled {
        spec_enabled_rules(rules.drop_last()).push(rules.last())
    } else {
        spec_enabled_rules(rules.drop_last())
    }
}

/// Keeps the enabled rules, in order.
pub fn enabled_rules(rules: Vec<AutomationRule>) -> (r: Vec<AutomationRule>)
    ensures
        r@ == spec_enabled_rules(rules@),
{
    let mut out: Vec<AutomationRule> = Vec::new();
    let ghost all = rules@;
    for r in it: rules.into_iter()
        invariant
            it.seq() == all,
            out@ == spec_enabled_rules(all.take(it.index() as int)),
    {
        assert(all.take(it.index() + 1).drop_last() =~= all.take(it.index() as int));
        if r.enabled {
            out.push(r);
        }
    }
    assert(all.take(all.len() as int) =~= all);
    out
}

/// Why an action could not be carried out.
#[derive(Debug, Clone)]
pub enum ActionFailure {
    /// Looking up the device's topic failed
    Database(String),
    /// No device with that id
    DeviceNotFound,
    /// A toggle needs the current state, which is unknown
    CurrentStateUnknown,
    /// Publishing the command failed
    Publish(String),
}

/// Text of a failure of the action on `device_id`.
pub open spec fn spec_failure_text(device_id: Seq<char>, f: ActionFailure) -> Seq<char> {
    match f {
        ActionFailure::Database(e) => "Database error: "@ + e@,
        ActionFailure::DeviceNotFound => "Device not found: "@ + device_id,
        ActionFailure::CurrentStateUnknown => "Current state unknown for device "@ + device_id,
        ActionFailure::Publish(e) => "MQTT publish error: "@ + e@,
    }
}

/// The line an action failure adds to the execution log:
/// `Device <id>: <failure text>`.
pub open spec fn spec_failure_line(device_id: Seq<char>, f: ActionFailure) -> Seq<char> {
    "Device "@ + device_id + ": "@ + spec_failure_text(device_id, f)
}

/// The execution-log line for a failed action.
pub fn failure_line(device_id: &str, f: &ActionFailure) -> (r: String)
    ensures
        r@ == spec_failure_line(device_id@, *f),
{
    let mut m = String::from_str("Device ");
    m.append(device_id);
    m.append(": ");
    match f {
        ActionFailure::Database(e) => {
            m.append("Database error: ");
            m.append(e.as_str());
        },
        ActionFailure::DeviceNotFound => {
            m.append("Device not found: ");
            m.append(device_id);
        },
        ActionFailure::CurrentStateUnknown => {
            m.append("Current state unknown for device ");
            m.append(device_id);
        },
        ActionFailure::Publish(e) => {
            m.append("MQTT publish error: ");
            m.append(e.as_str());
        },
    }
    m
}

/// The command an action sends, or why it cannot be sent: the topic
/// lookup must succeed and find the device, and a toggle needs the
/// switch's current state.
pub open spec fn spec_plan_action(
    action: SwitchAction,
    topic_lookup: Result<Option<String>, String>,
    current: Option<bool>,
) -> Result<(Seq<char>, bool), ActionFailure> {
    match topic_lookup {
        Err(e) => Err(ActionFailure::Database(e)),
        Ok(None) => Err(ActionFailure::DeviceNotFound),
        Ok(Some(topic)) => match spec_desired_state(action, current) {
            Ok(on) => Ok((topic@ + "/set"@, on)),
            Err(_) => Err(ActionFailure::CurrentStateUnknown),
        },
    }
}

/// The command topic and switch state an action publishes.
pub fn plan_action(
    action: SwitchAction,
    topic_lookup: Result<Option<String>, String>,
    current: Option<bool>,
) -> (r: Result<(String, bool), ActionFailure>)
    ensures
        match (r, spec_plan_action(action, topic_lookup, current)) {
            (Ok((t, on)), Ok((st, son))) => t@ == st && on == son,
            (Err(f), Err(sf)) => f == sf,
            _ => false,
        },
{
    match topic_lookup {
        Err(e) => Err(ActionFailure::Database(e)),
        Ok(None) => Err(ActionFailure::DeviceNotFound),
        Ok(Some(topic)) => match desired_state(action, current) {
            Ok(on) => Ok((command_topic(topic.as_str()), on)),
            Err(_) => Err(ActionFailure::CurrentStateUnknown),
        },
    }
}

} // verus!
