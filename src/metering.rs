//! Token budgets: admission checks before a provider call, usage records after it.
//!
//! Costs are exact integers in picodollars (10^-12 USD); a price of
//! 3 USD per million tokens is 3,000,000 picodollars per token.
use vstd::prelude::*;
use vstd::string::*;
use chrono::Datelike;
use crate::config::BudgetConfig;
use crate::text::{contains, decimal, find_from, str_eq, u64_to_decimal};

verus! {

/// Seconds in a UTC day.
pub const SECONDS_PER_DAY: i64 = 86400;

/// The first second of the UTC month that contains `ts` (seconds since the epoch).
pub uninterp spec fn month_start_of(ts: int) -> int;

/// The current time in seconds since the epoch.
/// Relies on `chrono::Utc::now` and `DateTime::timestamp`; nothing is known of the value.
#[verifier::external_body]
pub(crate) fn now_secs() -> (r: i64) {
    chrono::Utc::now().timestamp()
}

/// Relies on chrono's calendar: `DateTime::from_timestamp`, `NaiveDate::with_day(1)`
/// and `NaiveTime::MIN` give the first second of the month of `ts`. Outside chrono's
/// range of dates `ts` itself comes back.
#[verifier::external_body]
fn month_start(ts: i64) -> (r: i64)
    ensures
        r == month_start_of(ts as int),
{
    match chrono::DateTime::from_timestamp(ts, 0) {
        Some(d) => match d.date_naive().with_day(1) {
            Some(first) => first.and_time(chrono::NaiveTime::MIN).and_utc().timestamp(),
            None => ts,
        },
        None => ts,
    }
}

/// The first second of the UTC day that contains `ts`.
/// (held at `i64::MIN` for the few seconds whose day starts below it).
pub open spec fn day_start_of(ts: int) -> int {
    if ts - ts % (SECONDS_PER_DAY as int) < i64::MIN {
        i64::MIN as int
    } else {
        ts - ts % (SECONDS_PER_DAY as int)
    }
}

/// The first second of the UTC day that contains `ts`.
pub fn day_start(ts: i64) -> (r: i64)
    ensures
        r == day_start_of(ts as int),
{
    let m = ts % SECONDS_PER_DAY;
    let rem = if m < 0 {
        m + SECONDS_PER_DAY
    } else {
        m
    };
    assert(rem as int == (ts as int) % (SECONDS_PER_DAY as int)) by (nonlinear_arith)
        requires
            m as int == (ts as int) % 86400 - (if ts < 0 && (ts as int) % 86400 != 0 { 86400int } else { 0int }),
            rem as int == if m < 0 {
                m as int + 86400
            } else {
                m as int
            },
    {
    }
    if ts < i64::MIN + rem {
        i64::MIN
    } else {
        ts - rem
    }
}

/// Which limit a check is against.
#[derive(Debug, Clone, PartialEq, Eq)]
pub enum BudgetScope {
    Session(String),
    Daily,
    Monthly,
}

impl BudgetScope {
    /// `session:<key>`, `daily` or `monthly`.
    pub fn to_string(&self) -> (r: String)
        ensures
            r@ == scope_text(*self),
    {
        match self {
            BudgetScope::Session(k) => {
                let mut r = "session:".to_owned();
                r.append(k.as_str());
                r
            },
            BudgetScope::Daily => "daily".to_owned(),
            BudgetScope::Monthly => "monthly".to_owned(),
        }
    }
}

pub open spec fn scope_text(s: BudgetScope) -> Seq<char> {
    match s {
        BudgetScope::Session(k) => "session:"@ + k@,
        BudgetScope::Daily => "daily"@,
        BudgetScope::Monthly => "monthly"@,
    }
}

/// A refusal: the scope, what it had used and its limit.
#[derive(Debug, Clone)]
pub struct BudgetExceeded {
    pub scope: BudgetScope,
    pub used: u64,
    pub limit: u64,
}

impl BudgetExceeded {
    /// `token budget exceeded (<scope>: <used>/<limit>)`.
    pub fn to_string(&self) -> (r: String)
        ensures
            r@ == "token budget exceeded ("@ + scope_text(self.scope) + ": "@ + decimal(
                self.used as nat,
            ) + "/"@ + decimal(self.limit as nat) + ")"@,
    {
        let mut r = "token budget exceeded (".to_owned();
        let s = self.scope.to_string();
        r.append(s.as_str());
        r.append(": ");
        let u = u64_to_decimal(self.used);
        r.append(u.as_str());
        r.append("/");
        let l = u64_to_decimal(self.limit);
        r.append(l.as_str());
        r.append(")");
        r
    }
}

/// One audit-log entry per provider call.
#[derive(Debug, Clone)]
pub struct TokenRecord {
    pub timestamp: i64,
    pub session_key: String,
    pub agent_id: String,
    pub provider: String,
    pub model: String,
    pub input_tokens: u32,
    pub output_tokens: u32,
    pub cost_estimate_picousd: u64,
}

/// Usage summed over a scope.
#[derive(Debug, Clone)]
pub struct TokenUsage {
    pub input_tokens: u64,
    pub output_tokens: u64,
    pub total_tokens: u64,
    pub cost_estimate_picousd: u64,
}

/// Price per input token, in picodollars.
pub open spec fn price_in(provider: Seq<char>, model: Seq<char>) -> nat {
    if provider == "anthropic"@ && contains(model, "sonnet"@) {
        3_000_000
    } else if provider == "anthropic"@ && contains(model, "haiku"@) {
        250_000
    } else if provider == "anthropic"@ && contains(model, "opus"@) {
        15_000_000
    } else if provider == "openai"@ && contains(model, "gpt-4o"@) {
        2_500_000
    } else if provider == "openai"@ && contains(model, "gpt-4"@) {
        30_000_000
    } else if provider == "openai"@ && contains(model, "gpt-3.5"@) {
        500_000
    } else {
        3_000_000
    }
}

/// Price per output token, in picodollars.
pub open spec fn price_out(provider: Seq<char>, model: Seq<char>) -> nat {
    if provider == "anthropic"@ && contains(model, "sonnet"@) {
        15_000_000
    } else if provider == "anthropic"@ && contains(model, "haiku"@) {
        1_250_000
    } else if provider == "anthropic"@ && contains(model, "opus"@) {
        75_000_000
    } else if provider == "openai"@ && contains(model, "gpt-4o"@) {
        10_000_000
    } else if provider == "openai"@ && contains(model, "gpt-4"@) {
        60_000_000
    } else if provider == "openai"@ && contains(model, "gpt-3.5"@) {
        1_500_000
    } else {
        15_000_000
    }
}

fn has_sub(s: &str, p: &str) -> (r: bool)
    ensures
        r == contains(s@, p@),
{
    match find_from(s, p, 0) {
        Some(_) => true,
        None => false,
    }
}

/// The (input, output) prices per token of a provider and model, in picodollars.
fn get_pricing(provider: &str, model: &str) -> (r: (u64, u64))
    ensures
        r.0 == price_in(provider@, model@),
        r.1 == price_out(provider@, model@),
{
    let anthropic = str_eq(provider, "anthropic");
    let openai = str_eq(provider, "openai");
    if anthropic && has_sub(model, "sonnet") {
        (3_000_000, 15_000_000)
    } else if anthropic && has_sub(model, "haiku") {
        (250_000, 1_250_000)
    } else if anthropic && has_sub(model, "opus") {
        (15_000_000, 75_000_000)
    } else if openai && has_sub(model, "gpt-4o") {
        (2_500_000, 10_000_000)
    } else if openai && has_sub(model, "gpt-4") {
        (30_000_000, 60_000_000)
    } else if openai && has_sub(model, "gpt-3.5") {
        (500_000, 1_500_000)
    } else {
        (3_000_000, 15_000_000)
    }
}

/// The estimated cost of a call: `i·p_in + o·p_out`, in picodollars.
pub fn estimate_cost(provider: &str, model: &str, input_tokens: u32, output_tokens: u32) -> (r:
    u64)
    ensures
        r == input_tokens * price_in(provider@, model@) + output_tokens * price_out(
            provider@,
            model@,
        ),
{
    let (pin, pout) = get_pricing(provider, model);
    assert(pin <= 75_000_000 && pout <= 75_000_000);
    assert(input_tokens * pin <= 4_294_967_295 * 75_000_000) by (nonlinear_arith)
        requires
            pin <= 75_000_000,
            input_tokens <= 4_294_967_295,
    {
    }
    assert(output_tokens * pout <= 4_294_967_295 * 75_000_000) by (nonlinear_arith)
        requires
            pout <= 75_000_000,
            output_tokens <= 4_294_967_295,
    {
    }
    (input_tokens as u64) * pin + (output_tokens as u64) * pout
}

/// Total characters over a list of texts.
pub open spec fn total_chars(contents: Seq<String>) -> nat
    decreases contents.len(),
{
    if contents.len() == 0 {
        0
    } else {
        total_chars(contents.drop_last()) + contents.last()@.len()
    }
}

/// Admission estimate for a call: total characters ÷ 4 + 1
/// (the character total saturates at `u64::MAX`).
pub fn estimate_input_tokens(contents: &[String]) -> (r: u64)
    ensures
        r == (if total_chars(contents@) > u64::MAX {
            u64::MAX as int
        } else {
            total_chars(contents@) as int
        }) / 4 + 1,
{
    let mut chars: u64 = 0;
    let mut i: usize = 0;
    while i < contents.len()
        invariant
            i <= contents@.len(),
            chars == (if total_chars(contents@.subrange(0, i as int)) > u64::MAX {
                u64::MAX as int
            } else {
                total_chars(contents@.subrange(0, i as int)) as int
            }),
        decreases contents@.len() - i,
    {
        assert(contents@.subrange(0, i + 1).drop_last() =~= contents@.subrange(0, i as int));
        let n = contents[i].as_str().unicode_len();
        chars = chars.saturating_add(n as u64);
        i = i + 1;
    }
    assert(contents@.subrange(0, contents@.len() as int) =~= contents@);
    chars / 4 + 1
}

struct SessionUsage {
    key: String,
    used: u64,
}

/// `a + b`, held at `u64::MAX`.
pub open spec fn sat_add(a: int, b: int) -> int {
    if a + b > u64::MAX {
        u64::MAX as int
    } else {
        a + b
    }
}

/// How a check ends: the scope kind (0 session, 1 daily, 2 monthly), what it had used
/// and its limit, or `None` when every configured limit admits the estimate.
pub open spec fn verdict(
    session_limit: Option<u64>,
    daily_limit: Option<u64>,
    monthly_limit: Option<u64>,
    session_used: nat,
    daily_used: nat,
    monthly_used: nat,
    est: nat,
) -> Option<(int, nat, nat)> {
    if session_limit is Some && session_used + est > session_limit->0 {
        Some((0, session_used, session_limit->0 as nat))
    } else if daily_limit is Some && daily_used + est > daily_limit->0 {
        Some((1, daily_used, daily_limit->0 as nat))
    } else if monthly_limit is Some && monthly_used + est > monthly_limit->0 {
        Some((2, monthly_used, monthly_limit->0 as nat))
    } else {
        None
    }
}

/// A period counter either keeps its value and start, or restarts at zero with a
/// later start.
pub open spec fn kept_or_reset(old_used: nat, old_start: int, new_used: nat, new_start: int) -> bool {
    (new_used == old_used && new_start == old_start) || (new_used == 0 && new_start > old_start)
}

/// Tracks token usage per session, per UTC day and per UTC month, and refuses
/// calls that would pass a configured limit.
pub struct TokenCounter {
    session_limit: Option<u64>,
    daily_limit: Option<u64>,
    monthly_limit: Option<u64>,
    session_usage: Vec<SessionUsage>,
    daily_used: u64,
    daily_start: i64,
    monthly_used: u64,
    monthly_start: i64,
    records: Vec<TokenRecord>,
}

impl TokenCounter {
    pub closed spec fn session_limit(&self) -> Option<u64> {
        self.session_limit
    }

    pub closed spec fn daily_limit(&self) -> Option<u64> {
        self.daily_limit
    }

    pub closed spec fn monthly_limit(&self) -> Option<u64> {
        self.monthly_limit
    }

    pub closed spec fn daily_used(&self) -> nat {
        self.daily_used as nat
    }

    pub closed spec fn daily_start(&self) -> int {
        self.daily_start as int
    }

    pub closed spec fn monthly_used(&self) -> nat {
        self.monthly_used as nat
    }

    pub closed spec fn monthly_start(&self) -> int {
        self.monthly_start as int
    }

    /// The audit log.
    pub closed spec fn record_log(&self) -> Seq<TokenRecord> {
        self.records@
    }

    closed spec fn usage_keys(&self) -> Seq<Seq<char>> {
        self.session_usage@.map_values(|u: SessionUsage| u.key@)
    }

    /// Tokens used so far by a session (zero for one never seen).
    pub closed spec fn session_used(&self, key: Seq<char>) -> nat {
        if exists|i: int| 0 <= i < self.session_usage@.len() && self.session_usage@[i].key@ == key {
            self.session_usage@[choose|i: int|
                0 <= i < self.session_usage@.len() && self.session_usage@[i].key@
                    == key].used as nat
        } else {
            0
        }
    }

    /// Session entries have distinct keys.
    pub closed spec fn wf(&self) -> bool {
        self.usage_keys().no_duplicates()
    }

    /// Daily and monthly usage after rolling the periods over to `now`.
    pub open spec fn rolled_daily_used(&self, now: int) -> nat {
        if day_start_of(now) > self.daily_start() {
            0
        } else {
            self.daily_used()
        }
    }

    pub open spec fn rolled_daily_start(&self, now: int) -> int {
        if day_start_of(now) > self.daily_start() {
            day_start_of(now)
        } else {
            self.daily_start()
        }
    }

    pub open spec fn rolled_monthly_used(&self, now: int) -> nat {
        if month_start_of(now) > self.monthly_start() {
            0
        } else {
            self.monthly_used()
        }
    }

    pub open spec fn rolled_monthly_start(&self, now: int) -> int {
        if month_start_of(now) > self.monthly_start() {
            month_start_of(now)
        } else {
            self.monthly_start()
        }
    }

    /// A counter with the given limits, nothing used, periods starting at `now`.
    pub fn new_at(budget: &BudgetConfig, now: i64) -> (r: Self)
        ensures
            r.wf(),
            r.session_limit() == budget.session,
            r.daily_limit() == budget.daily,
            r.monthly_limit() == budget.monthly,
            r.daily_used() == 0,
            r.monthly_used() == 0,
            r.daily_start() == day_start_of(now as int),
            r.monthly_start() == month_start_of(now as int),
            r.record_log().len() == 0,
            forall|k: Seq<char>| r.session_used(k) == 0,
    {
        let r = TokenCounter {
            session_limit: budget.session,
            daily_limit: budget.daily,
            monthly_limit: budget.monthly,
            session_usage: Vec::new(),
            daily_used: 0,
            daily_start: day_start(now),
            monthly_used: 0,
            monthly_start: month_start(now),
            records: Vec::new(),
        };
        assert(r.usage_keys() =~= Seq::<Seq<char>>::empty());
        r
    }

    /// A counter with the given limits, nothing used, periods starting now.
    pub fn new(budget: &BudgetConfig) -> (r: Self)
        ensures
            r.wf(),
            r.session_limit() == budget.session,
            r.daily_limit() == budget.daily,
            r.monthly_limit() == budget.monthly,
            r.daily_used() == 0,
            r.monthly_used() == 0,
            r.record_log().len() == 0,
            forall|k: Seq<char>| r.session_used(k) == 0,
    {
        Self::new_at(budget, now_secs())
    }

    fn find_session(&self, key: &str) -> (r: Option<usize>)
        requires
            self.wf(),
        ensures
            match r {
                Some(i) => i < self.session_usage@.len() && self.session_usage@[i as int].key@
                    == key@ && self.session_used(key@) == self.session_usage@[i as int].used,
                None => self.session_used(key@) == 0 && !self.usage_keys().contains(key@),
            },
    {
        let mut i: usize = 0;
        while i < self.session_usage.len()
            invariant
                self.wf(),
                i <= self.session_usage@.len(),
                forall|j: int| 0 <= j < i ==> self.session_usage@[j].key@ != key@,
            decreases self.session_usage@.len() - i,
        {
            if str_eq(self.session_usage[i].key.as_str(), key) {
                assert(self.session_usage@[i as int].key@ == key@);
                proof {
                    let c = choose|c: int|
                        0 <= c < self.session_usage@.len() && self.session_usage@[c].key@ == key@;
                    if c != i {
                        assert(self.usage_keys()[c] == self.usage_keys()[i as int]);
                    }
                }
                return Some(i);
            }
            i = i + 1;
        }
        proof {
            if self.usage_keys().contains(key@) {
                let j = choose|j: int|
                    0 <= j < self.usage_keys().len() && self.usage_keys()[j] == key@;
                assert(self.session_usage@[j].key@ == key@);
            }
        }
        None
    }

    fn roll_over(&mut self, now: i64)
        ensures
            final(self).daily_used() == old(self).rolled_daily_used(now as int),
            final(self).daily_start() == old(self).rolled_daily_start(now as int),
            final(self).monthly_used() == old(self).rolled_monthly_used(now as int),
            final(self).monthly_start() == old(self).rolled_monthly_start(now as int),
            final(self).session_usage == old(self).session_usage,
            final(self).records == old(self).records,
            final(self).session_limit == old(self).session_limit,
            final(self).daily_limit == old(self).daily_limit,
            final(self).monthly_limit == old(self).monthly_limit,
    {
        let today = day_start(now);
        if today > self.daily_start {
            self.daily_used = 0;
            self.daily_start = today;
        }
        let month = month_start(now);
        if month > self.monthly_start {
            self.monthly_used = 0;
            self.monthly_start = month;
        }
    }

    /// Rolls the periods over to `now`, then refuses the call if the estimate would
    /// take any configured limit past its value, checking session, daily, monthly.
    pub fn check_budget_at(&mut self, session_key: &str, estimated_tokens: u64, now: i64) -> (r:
        Result<(), BudgetExceeded>)
        requires
            old(self).wf(),
        ensures
            final(self).wf(),
            final(self).daily_used() == old(self).rolled_daily_used(now as int),
            final(self).daily_start() == old(self).rolled_daily_start(now as int),
            final(self).monthly_used() == old(self).rolled_monthly_used(now as int),
            final(self).monthly_start() == old(self).rolled_monthly_start(now as int),
            final(self).record_log() == old(self).record_log(),
            forall|k: Seq<char>| final(self).session_used(k) == old(self).session_used(k),
            final(self).session_limit() == old(self).session_limit(),
            final(self).daily_limit() == old(self).daily_limit(),
            final(self).monthly_limit() == old(self).monthly_limit(),
            match verdict(
                final(self).session_limit(),
                final(self).daily_limit(),
                final(self).monthly_limit(),
                final(self).session_used(session_key@),
                final(self).daily_used(),
                final(self).monthly_used(),
                estimated_tokens as nat,
            ) {
                None => r is Ok,
                Some(v) => r matches Err(e) && e.used == v.1 && e.limit == v.2 && (if v.0 == 0 {
                    e.scope matches BudgetScope::Session(k) && k@ == session_key@
                } else if v.0 == 1 {
                    e.scope == BudgetScope::Daily
                } else {
                    e.scope == BudgetScope::Monthly
                }),
            },
    {
        self.roll_over(now);
        if let Some(limit) = self.session_limit {
            let used = match self.find_session(session_key) {
                Some(i) => self.session_usage[i].used,
                None => 0,
            };
            if estimated_tokens > limit || used > limit - estimated_tokens {
                return Err(
                    BudgetExceeded {
                        scope: BudgetScope::Session(session_key.to_owned()),
                        used,
                        limit,
                    },
                );
            }
        }
        if let Some(limit) = self.daily_limit {
            if estimated_tokens > limit || self.daily_used > limit - estimated_tokens {
                return Err(
                    BudgetExceeded { scope: BudgetScope::Daily, used: self.daily_used, limit },
                );
            }
        }
        if let Some(limit) = self.monthly_limit {
            if estimated_tokens > limit || self.monthly_used > limit - estimated_tokens {
                return Err(
                    BudgetExceeded { scope: BudgetScope::Monthly, used: self.monthly_used, limit },
                );
            }
        }
        Ok(())
    }

    /// [`Self::check_budget_at`] at the current time.
    pub fn check_budget(&mut self, session_key: &str, estimated_tokens: u64) -> (r: Result<
        (),
        BudgetExceeded,
    >)
        requires
            old(self).wf(),
        ensures
            final(self).wf(),
            final(self).record_log() == old(self).record_log(),
            forall|k: Seq<char>| final(self).session_used(k) == old(self).session_used(k),
            final(self).session_limit() == old(self).session_limit(),
            final(self).daily_limit() == old(self).daily_limit(),
            final(self).monthly_limit() == old(self).monthly_limit(),
            kept_or_reset(
                old(self).daily_used(),
                old(self).daily_start(),
                final(self).daily_used(),
                final(self).daily_start(),
            ),
            kept_or_reset(
                old(self).monthly_used(),
                old(self).monthly_start(),
                final(self).monthly_used(),
                final(self).monthly_start(),
            ),
            match verdict(
                final(self).session_limit(),
                final(self).daily_limit(),
                final(self).monthly_limit(),
                final(self).session_used(session_key@),
                final(self).daily_used(),
                final(self).monthly_used(),
                estimated_tokens as nat,
            ) {
                None => r is Ok,
                Some(v) => r matches Err(e) && e.used == v.1 && e.limit == v.2 && (if v.0 == 0 {
                    e.scope matches BudgetScope::Session(k) && k@ == session_key@
                } else if v.0 == 1 {
                    e.scope == BudgetScope::Daily
                } else {
                    e.scope == BudgetScope::Monthly
                }),
            },
    {
        let now = now_secs();
        self.check_budget_at(session_key, estimated_tokens, now)
    }

    /// Adds `input + output` to the session, then rolls the periods over to `now` and
    /// adds it to the day and the month, and appends an audit record stamped `now`
    /// (counters saturate at `u64::MAX`).
    pub fn record_usage_at(
        &mut self,
        session_key: &str,
        agent_id: &str,
        provider: &str,
        model: &str,
        input_tokens: u32,
        output_tokens: u32,
        now: i64,
    )
        requires
            old(self).wf(),
        ensures
            final(self).wf(),
            final(self).session_used(session_key@) == sat_add(
                old(self).session_used(session_key@) as int,
                input_tokens + output_tokens,
            ),
            forall|k: Seq<char>|
                k != session_key@ ==> final(self).session_used(k) == old(self).session_used(k),
            forall|k: Seq<char>| #[trigger] final(self).session_used(k) >= old(self).session_used(k),
            day_start_of(now as int) <= old(self).daily_start() ==> final(self).daily_used()
                >= old(self).daily_used(),
            month_start_of(now as int) <= old(self).monthly_start() ==> final(self).monthly_used()
                >= old(self).monthly_used(),
            final(self).daily_used() == sat_add(
                old(self).rolled_daily_used(now as int) as int,
                input_tokens + output_tokens,
            ),
            final(self).daily_start() == old(self).rolled_daily_start(now as int),
            final(self).monthly_used() == sat_add(
                old(self).rolled_monthly_used(now as int) as int,
                input_tokens + output_tokens,
            ),
            final(self).monthly_start() == old(self).rolled_monthly_start(now as int),
            final(self).session_limit() == old(self).session_limit(),
            final(self).daily_limit() == old(self).daily_limit(),
            final(self).monthly_limit() == old(self).monthly_limit(),
            final(self).record_log().len() == old(self).record_log().len() + 1,
            final(self).record_log().drop_last() == old(self).record_log(),
            ({
                let rec = final(self).record_log().last();
                &&& rec.timestamp == now
                &&& rec.session_key@ == session_key@
                &&& rec.agent_id@ == agent_id@
                &&& rec.provider@ == provider@
                &&& rec.model@ == model@
                &&& rec.input_tokens == input_tokens
                &&& rec.output_tokens == output_tokens
                &&& rec.cost_estimate_picousd == input_tokens * price_in(provider@, model@)
                    + output_tokens * price_out(provider@, model@)
            }),
    {
        let total: u64 = input_tokens as u64 + output_tokens as u64;
        assert(total as int == input_tokens + output_tokens);
        let cost = estimate_cost(provider, model, input_tokens, output_tokens);
        self.add_session_usage(session_key, total);
        let ghost mid = *self;
        self.roll_over(now);
        assert(self.session_usage == mid.session_usage);
        assert(forall|k: Seq<char>| self.session_used(k) == mid.session_used(k));
        self.daily_used = self.daily_used.saturating_add(total);
        self.monthly_used = self.monthly_used.saturating_add(total);
        let ghost before = self.records@;
        self.records.push(
            TokenRecord {
                timestamp: now,
                session_key: session_key.to_owned(),
                agent_id: agent_id.to_owned(),
                provider: provider.to_owned(),
                model: model.to_owned(),
                input_tokens,
                output_tokens,
                cost_estimate_picousd: cost,
            },
        );
        assert(self.records@.drop_last() =~= before);
    }

    /// [`Self::record_usage_at`] at the current time.
    pub fn record_usage(
        &mut self,
        session_key: &str,
        agent_id: &str,
        provider: &str,
        model: &str,
        input_tokens: u32,
        output_tokens: u32,
    )
        requires
            old(self).wf(),
        ensures
            final(self).wf(),
            final(self).session_used(session_key@) == sat_add(
                old(self).session_used(session_key@) as int,
                input_tokens + output_tokens,
            ),
            forall|k: Seq<char>|
                k != session_key@ ==> final(self).session_used(k) == old(self).session_used(k),
            final(self).session_limit() == old(self).session_limit(),
            final(self).daily_limit() == old(self).daily_limit(),
            final(self).monthly_limit() == old(self).monthly_limit(),
            final(self).record_log().len() == old(self).record_log().len() + 1,
            final(self).record_log().drop_last() == old(self).record_log(),
            ({
                let rec = final(self).record_log().last();
                &&& final(self).daily_used() == sat_add(
                    old(self).rolled_daily_used(rec.timestamp as int) as int,
                    input_tokens + output_tokens,
                )
                &&& final(self).daily_start() == old(self).rolled_daily_start(rec.timestamp as int)
                &&& final(self).monthly_used() == sat_add(
                    old(self).rolled_monthly_used(rec.timestamp as int) as int,
                    input_tokens + output_tokens,
                )
                &&& final(self).monthly_start() == old(self).rolled_monthly_start(
                    rec.timestamp as int,
                )
                &&& rec.session_key@ == session_key@
                &&& rec.agent_id@ == agent_id@
                &&& rec.provider@ == provider@
                &&& rec.model@ == model@
                &&& rec.input_tokens == input_tokens
                &&& rec.output_tokens == output_tokens
                &&& rec.cost_estimate_picousd == input_tokens * price_in(provider@, model@)
                    + output_tokens * price_out(provider@, model@)
            }),
    {
        let now = now_secs();
        self.record_usage_at(session_key, agent_id, provider, model, input_tokens, output_tokens, now)
    }

    fn add_session_usage(&mut self, key: &str, total: u64)
        requires
            old(self).wf(),
        ensures
            final(self).wf(),
            final(self).session_used(key@) == sat_add(old(self).session_used(key@) as int, total as int),
            forall|k: Seq<char>| k != key@ ==> final(self).session_used(k) == old(self).session_used(k),
            final(self).daily_used == old(self).daily_used,
            final(self).daily_start == old(self).daily_start,
            final(self).monthly_used == old(self).monthly_used,
            final(self).monthly_start == old(self).monthly_start,
            final(self).records == old(self).records,
            final(self).session_limit == old(self).session_limit,
            final(self).daily_limit == old(self).daily_limit,
            final(self).monthly_limit == old(self).monthly_limit,
    {
        let ghost old_self = *self;
        match self.find_session(key) {
            Some(i) => {
                let n = self.session_usage[i].used.saturating_add(total);
                let k = self.session_usage[i].key.clone();
                self.session_usage.set(i, SessionUsage { key: k, used: n });
                assert(self.usage_keys() =~= old_self.usage_keys());
                assert forall|q: Seq<char>| q != key@ implies self.session_used(q)
                    == old_self.session_used(q) by {
                    let e_new = exists|j: int|
                        0 <= j < self.session_usage@.len() && self.session_usage@[j].key@ == q;
                    if e_new {
                        let j = choose|j: int|
                            0 <= j < self.session_usage@.len() && self.session_usage@[j].key@ == q;
                        assert(old_self.session_usage@[j].key@ == q);
                        let c = choose|c: int|
                            0 <= c < old_self.session_usage@.len() && old_self.session_usage@[c].key@
                                == q;
                        if c != j {
                            assert(old_self.usage_keys()[c] == old_self.usage_keys()[j]);
                        }
                    } else {
                        if exists|j: int|
                            0 <= j < old_self.session_usage@.len()
                                && old_self.session_usage@[j].key@ == q {
                            let j = choose|j: int|
                                0 <= j < old_self.session_usage@.len()
                                    && old_self.session_usage@[j].key@ == q;
                            assert(self.session_usage@[j].key@ == q);
                        }
                    }
                }
                assert(self.session_usage@[i as int].key@ == key@);
                let ghost c = choose|c: int|
                    0 <= c < self.session_usage@.len() && self.session_usage@[c].key@ == key@;
                assert(c == i) by {
                    if c != i {
                        assert(self.usage_keys()[c] == self.usage_keys()[i as int]);
                    }
                }
            },
            None => {
                self.session_usage.push(SessionUsage { key: key.to_owned(), used: total });
                assert(self.usage_keys() =~= old_self.usage_keys().push(key@));
                let ghost last: int = self.session_usage@.len() - 1;
                assert(self.session_usage@[last].key@ == key@);
                let ghost c = choose|c: int|
                    0 <= c < self.session_usage@.len() && self.session_usage@[c].key@ == key@;
                assert(c == last) by {
                    if c != last {
                        assert(self.usage_keys()[c] == self.usage_keys()[last]);
                    }
                }
                assert forall|q: Seq<char>| q != key@ implies self.session_used(q)
                    == old_self.session_used(q) by {
                    if exists|j: int|
                        0 <= j < self.session_usage@.len() && self.session_usage@[j].key@ == q {
                        let cn = choose|j: int|
                            0 <= j < self.session_usage@.len() && self.session_usage@[j].key@ == q;
                        assert(cn != last);
                        assert(old_self.session_usage@[cn].key@ == q);
                        let co = choose|j: int|
                            0 <= j < old_self.session_usage@.len()
                                && old_self.session_usage@[j].key@ == q;
                        assert(self.session_usage@[co] == old_self.session_usage@[co]);
                        assert(cn == co) by {
                            if cn != co {
                                assert(self.usage_keys()[cn] == self.usage_keys()[co]);
                            }
                        }
                    } else {
                        if exists|j: int|
                            0 <= j < old_self.session_usage@.len()
                                && old_self.session_usage@[j].key@ == q {
                            let j = choose|j: int|
                                0 <= j < old_self.session_usage@.len()
                                    && old_self.session_usage@[j].key@ == q;
                            assert(self.session_usage@[j].key@ == q);
                        }
                    }
                }
            },
        }
    }

    /// The audit log, oldest first.
    pub fn records(&self) -> (r: &Vec<TokenRecord>)
        ensures
            r@ == self.record_log(),
    {
        &self.records
    }
}

/// Within one period, recorded usage never decreases: when `now` opens no new day
/// (or month), the day's (or month's) count after recording is at least the count before,
/// and a session's count never decreases.
pub proof fn lemma_usage_monotonic_within_period(c: TokenCounter, now: int, total: int)
    requires
        total >= 0,
    ensures
        day_start_of(now) <= c.daily_start() ==> sat_add(c.rolled_daily_used(now) as int, total)
            >= c.daily_used(),
        month_start_of(now) <= c.monthly_start() ==> sat_add(
            c.rolled_monthly_used(now) as int,
            total,
        ) >= c.monthly_used(),
        forall|k: Seq<char>| sat_add(#[trigger] c.session_used(k) as int, total) >= c.session_used(k),
{
    assert forall|k: Seq<char>| sat_add(#[trigger] c.session_used(k) as int, total) >= c.session_used(k) by {
        if exists|i: int| 0 <= i < c.session_usage@.len() && c.session_usage@[i].key@ == k {
            let i = choose|i: int| 0 <= i < c.session_usage@.len() && c.session_usage@[i].key@ == k;
            assert(c.session_usage@[i].used <= u64::MAX);
        }
    }
}

/// Whether a record counts towards a scope whose period started at `since`:
/// by session key for a session, by timestamp for a day or a month.
pub open spec fn record_in_scope(r: TokenRecord, scope: BudgetScope, since: i64) -> bool {
    match scope {
        BudgetScope::Session(k) => r.session_key@ == k@,
        _ => r.timestamp >= since,
    }
}

/// Input tokens, output tokens and cost of the records in scope, each summed
/// with saturation at `u64::MAX`.
pub open spec fn scope_sums(recs: Seq<TokenRecord>, scope: BudgetScope, since: i64) -> (int, int, int)
    decreases recs.len(),
{
    if recs.len() == 0 {
        (0, 0, 0)
    } else {
        let (i, o, c) = scope_sums(recs.drop_last(), scope, since);
        let r = recs.last();
        if record_in_scope(r, scope, since) {
            (
                sat_add(i, r.input_tokens as int),
                sat_add(o, r.output_tokens as int),
                sat_add(c, r.cost_estimate_picousd as int),
            )
        } else {
            (i, o, c)
        }
    }
}

impl TokenCounter {
    fn sums(&self, scope: &BudgetScope, since: i64) -> (r: (u64, u64, u64))
        ensures
            (r.0 as int, r.1 as int, r.2 as int) == scope_sums(self.record_log(), *scope, since),
    {
        let mut input: u64 = 0;
        let mut output: u64 = 0;
        let mut cost: u64 = 0;
        let mut i: usize = 0;
        while i < self.records.len()
            invariant
                i <= self.records@.len(),
                (input as int, output as int, cost as int) == scope_sums(
                    self.records@.subrange(0, i as int),
                    *scope,
                    since,
                ),
            decreases self.records@.len() - i,
        {
            assert(self.records@.subrange(0, i + 1).drop_last() =~= self.records@.subrange(0, i as int));
            let r = &self.records[i];
            let hit = match scope {
                BudgetScope::Session(k) => str_eq(r.session_key.as_str(), k.as_str()),
                _ => r.timestamp >= since,
            };
            if hit {
                input = input.saturating_add(r.input_tokens as u64);
                output = output.saturating_add(r.output_tokens as u64);
                cost = cost.saturating_add(r.cost_estimate_picousd);
            }
            i = i + 1;
        }
        assert(self.records@.subrange(0, self.records@.len() as int) =~= self.records@);
        (input, output, cost)
    }

    /// Usage over a scope: the scope's token counter, and the input tokens, output
    /// tokens and cost of its audit records (for a session, those of that session;
    /// for a day or a month, those stamped since the period began).
    pub fn get_usage(&self, scope: &BudgetScope) -> (r: TokenUsage)
        requires
            self.wf(),
        ensures
            ({
                let since = match *scope {
                    BudgetScope::Daily => self.daily_start() as i64,
                    BudgetScope::Monthly => self.monthly_start() as i64,
                    BudgetScope::Session(_) => 0i64,
                };
                let sums = scope_sums(self.record_log(), *scope, since);
                &&& r.input_tokens == sums.0
                &&& r.output_tokens == sums.1
                &&& r.cost_estimate_picousd == sums.2
                &&& r.total_tokens == match *scope {
                    BudgetScope::Session(k) => self.session_used(k@),
                    BudgetScope::Daily => self.daily_used(),
                    BudgetScope::Monthly => self.monthly_used(),
                }
            }),
    {
        match scope {
            BudgetScope::Session(k) => {
                let total = match self.find_session(k.as_str()) {
                    Some(i) => self.session_usage[i].used,
                    None => 0,
                };
                let (input, output, cost) = self.sums(scope, 0);
                TokenUsage { input_tokens: input, output_tokens: output, total_tokens: total, cost_estimate_picousd: cost }
            },
            BudgetScope::Daily => {
                let (input, output, cost) = self.sums(scope, self.daily_start);
                TokenUsage { input_tokens: input, output_tokens: output, total_tokens: self.daily_used, cost_estimate_picousd: cost }
            },
            BudgetScope::Monthly => {
                let (input, output, cost) = self.sums(scope, self.monthly_start);
                TokenUsage { input_tokens: input, output_tokens: output, total_tokens: self.monthly_used, cost_estimate_picousd: cost }
            },
        }
    }
}

} // verus!
