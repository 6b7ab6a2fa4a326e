//! The load test engine: a run issues a fixed number of requests, never more
//! than the configured number at once, and tallies what comes back.
use vstd::prelude::*;

verus! {

/// The HTTP method that each request of a load test uses.
#[derive(Clone, Copy, Debug, PartialEq, Eq, Structural)]
pub enum HttpMethod {
    Get,
    Post,
}

/// What a caller asks of a load test.
#[derive(Clone, Debug)]
pub struct LoadTestConfig {
    pub url: String,
    pub method: String,
    pub concurrency: usize,
    pub total_requests: usize,
}

/// Why a load test could not start.
#[derive(Clone, Copy, Debug, PartialEq, Eq, Structural)]
pub enum LoadTestError {
    /// A concurrency of zero would never let a request through.
    ZeroConcurrency,
}

/// What one request reported once it was awaited: whether the exchange
/// completed without a transport error (any status code counts as completed),
/// and how long it took, in whole milliseconds.
#[derive(Clone, Copy, Debug, PartialEq, Eq, Structural)]
pub struct RequestOutcome {
    pub ok: bool,
    pub duration_ms: u64,
}

/// The aggregate of a load test. The mean duration of the requests that
/// were joined is `duration_sum / joined` milliseconds, and 0 when `joined`
/// is 0.
#[derive(Clone, Copy, Debug, PartialEq, Eq, Structural)]
pub struct LoadTestResult {
    pub total: usize,
    pub success: usize,
    pub fail: usize,
    pub duration_sum: u128,
    pub joined: usize,
}

/// What the driver of a run does next.
#[derive(Clone, Copy, Debug, PartialEq, Eq, Structural)]
pub enum Step {
    /// Issue the request with this index; a permit is now held for it.
    Dispatch(usize),
    /// Wait for one request in flight and hand back what it reported.
    Await,
    /// Every request was issued and handed back.
    Finished,
}

/// `"POST"` selects POST; any other text falls back to GET.
pub open spec fn method_of(m: Seq<char>) -> HttpMethod {
    if m == "POST"@ {
        HttpMethod::Post
    } else {
        HttpMethod::Get
    }
}

/// Number of completions whose request was joined and reported `ok`.
pub open spec fn count_success(s: Seq<Option<RequestOutcome>>) -> nat
    decreases s.len(),
{
    if s.len() == 0 {
        0
    } else {
        count_success(s.drop_last()) + match s.last() {
            Some(o) => if o.ok { 1nat } else { 0nat },
            None => 0nat,
        }
    }
}

/// Number of completions whose request was joined and reported a failure.
pub open spec fn count_fail(s: Seq<Option<RequestOutcome>>) -> nat
    decreases s.len(),
{
    if s.len() == 0 {
        0
    } else {
        count_fail(s.drop_last()) + match s.last() {
            Some(o) => if o.ok { 0nat } else { 1nat },
            None => 0nat,
        }
    }
}

/// Number of completions whose request could be joined.
pub open spec fn count_joined(s: Seq<Option<RequestOutcome>>) -> nat
    decreases s.len(),
{
    if s.len() == 0 {
        0
    } else {
        count_joined(s.drop_last()) + if s.last() is Some { 1nat } else { 0nat }
    }
}

/// Sum of the durations of the joined requests.
pub open spec fn duration_sum(s: Seq<Option<RequestOutcome>>) -> nat
    decreases s.len(),
{
    if s.len() == 0 {
        0
    } else {
        duration_sum(s.drop_last()) + match s.last() {
            Some(o) => o.duration_ms as nat,
            None => 0nat,
        }
    }
}

/// Every completion is either joined-and-ok, joined-and-failed, or not joined.
pub proof fn lemma_counts_split(s: Seq<Option<RequestOutcome>>)
    ensures
        count_success(s) + count_fail(s) == count_joined(s),
        count_joined(s) <= s.len(),
        duration_sum(s) <= count_joined(s) * 0xFFFF_FFFF_FFFF_FFFFnat,
    decreases s.len(),
{
    if s.len() > 0 {
        lemma_counts_split(s.drop_last());
    }
}

/// The mean duration `duration_sum / joined` is zero when no request was
/// joined, and, where every joined request took at least a millisecond,
/// only then.
pub proof fn lemma_average_zero_iff_none_joined(s: Seq<Option<RequestOutcome>>)
    ensures
        count_joined(s) == 0 ==> duration_sum(s) == 0,
        (forall|i: int| 0 <= i < s.len() && (#[trigger] s[i]) is Some ==> s[i]->Some_0.duration_ms >= 1)
            ==> (duration_sum(s) == 0 <==> count_joined(s) == 0),
{
    lemma_counts_split(s);
    assert(count_joined(s) == 0 ==> duration_sum(s) == 0) by (nonlinear_arith)
        requires
            duration_sum(s) <= count_joined(s) * 0xFFFF_FFFF_FFFF_FFFFnat,
    ;
    if forall|i: int| 0 <= i < s.len() && (#[trigger] s[i]) is Some ==> s[i]->Some_0.duration_ms >= 1 {
        lemma_sum_at_least_joined(s);
    }
}

proof fn lemma_sum_at_least_joined(s: Seq<Option<RequestOutcome>>)
    requires
        forall|i: int| 0 <= i < s.len() && (#[trigger] s[i]) is Some ==> s[i]->Some_0.duration_ms >= 1,
    ensures
        duration_sum(s) >= count_joined(s),
    decreases s.len(),
{
    if s.len() > 0 {
        let t = s.drop_last();
        assert forall|i: int| 0 <= i < t.len() && (#[trigger] t[i]) is Some implies t[i]->Some_0.duration_ms >= 1 by {
            assert(t[i] == s[i]);
        }
        lemma_sum_at_least_joined(t);
        assert(s.last() == s[s.len() - 1]);
    }
}

/// Picks the method named by `method`.
pub fn parse_method(method: &String) -> (r: HttpMethod)
    ensures
        r == method_of(method@),
{
    let post = "POST".to_owned();
    proof {
        reveal_strlit("POST");
    }
    if *method == post {
        HttpMethod::Post
    } else {
        HttpMethod::Get
    }
}

/// The state of one load test: how many requests were issued, how many are in
/// flight, and the tallies of those handed back.
pub struct LoadTestRun {
    method: HttpMethod,
    concurrency: usize,
    total: usize,
    dispatched: usize,
    in_flight: usize,
    success: usize,
    fail: usize,
    joined: usize,
    time_sum: u128,
    /// What each handed-back request reported, in the order handed back.
    completions: Ghost<Seq<Option<RequestOutcome>>>,
}

impl LoadTestRun {
    pub closed spec fn spec_method(&self) -> HttpMethod {
        self.method
    }

    pub closed spec fn spec_concurrency(&self) -> nat {
        self.concurrency as nat
    }

    pub closed spec fn spec_total(&self) -> nat {
        self.total as nat
    }

    pub closed spec fn spec_dispatched(&self) -> nat {
        self.dispatched as nat
    }

    pub closed spec fn spec_in_flight(&self) -> nat {
        self.in_flight as nat
    }

    /// What the requests handed back so far reported, in that order.
    pub closed spec fn spec_completions(&self) -> Seq<Option<RequestOutcome>> {
        self.completions@
    }

    /// The run's invariant: the cap holds, no request is issued beyond the
    /// total, and the tallies are those of the completions.
    pub closed spec fn wf(&self) -> bool {
        &&& 1 <= self.concurrency
        &&& self.in_flight <= self.concurrency
        &&& self.dispatched <= self.total
        &&& self.in_flight <= self.dispatched
        &&& self.completions@.len() == self.dispatched - self.in_flight
        &&& self.success == count_success(self.completions@)
        &&& self.fail == count_fail(self.completions@)
        &&& self.joined == count_joined(self.completions@)
        &&& self.time_sum == duration_sum(self.completions@)
    }

    /// In every well-formed state no more requests are in flight than the
    /// concurrency allows, and none is issued beyond the total.
    pub proof fn lemma_cap_holds(&self)
        requires
            self.wf(),
        ensures
            self.spec_in_flight() <= self.spec_concurrency(),
            self.spec_dispatched() <= self.spec_total(),
            self.spec_completions().len() + self.spec_in_flight() == self.spec_dispatched(),
    {
    }

    /// Starts a run of `config`; fails only when its concurrency is zero.
    pub fn new(config: &LoadTestConfig) -> (r: Result<LoadTestRun, LoadTestError>)
        ensures
            r is Err <==> config.concurrency == 0,
            r is Err ==> r == Err::<LoadTestRun, LoadTestError>(LoadTestError::ZeroConcurrency),
            r matches Ok(run) ==> {
                &&& run.wf()
                &&& run.spec_method() == method_of(config.method@)
                &&& run.spec_concurrency() == config.concurrency
                &&& run.spec_total() == config.total_requests
                &&& run.spec_dispatched() == 0
                &&& run.spec_in_flight() == 0
                &&& run.spec_completions() == Seq::<Option<RequestOutcome>>::empty()
            },
    {
        if config.concurrency == 0 {
            return Err(LoadTestError::ZeroConcurrency);
        }
        Ok(LoadTestRun {
            method: parse_method(&config.method),
            concurrency: config.concurrency,
            total: config.total_requests,
            dispatched: 0,
            in_flight: 0,
            success: 0,
            fail: 0,
            joined: 0,
            time_sum: 0,
            completions: Ghost(Seq::empty()),
        })
    }

    pub fn method(&self) -> (r: HttpMethod)
        ensures
            r == self.spec_method(),
    {
        self.method
    }

    pub fn in_flight(&self) -> (r: usize)
        ensures
            r == self.spec_in_flight(),
    {
        self.in_flight
    }

    pub fn dispatched(&self) -> (r: usize)
        ensures
            r == self.spec_dispatched(),
    {
        self.dispatched
    }

    /// Decides what happens next. A request is issued whenever one is left
    /// and a permit is free; otherwise the driver waits for one in flight;
    /// the run is over once every request was issued and handed back.
    pub fn next_step(&mut self) -> (r: Step)
        requires
            old(self).wf(),
        ensures
            final(self).wf(),
            final(self).spec_method() == old(self).spec_method(),
            final(self).spec_concurrency() == old(self).spec_concurrency(),
            final(self).spec_total() == old(self).spec_total(),
            final(self).spec_completions() == old(self).spec_completions(),
            old(self).spec_dispatched() < old(self).spec_total()
                && old(self).spec_in_flight() < old(self).spec_concurrency() ==> {
                &&& r == Step::Dispatch(old(self).spec_dispatched() as usize)
                &&& final(self).spec_dispatched() == old(self).spec_dispatched() + 1
                &&& final(self).spec_in_flight() == old(self).spec_in_flight() + 1
            },
            !(old(self).spec_dispatched() < old(self).spec_total()
                && old(self).spec_in_flight() < old(self).spec_concurrency()) ==> {
                &&& final(self).spec_dispatched() == old(self).spec_dispatched()
                &&& final(self).spec_in_flight() == old(self).spec_in_flight()
                &&& r == if old(self).spec_in_flight() > 0 {
                    Step::Await
                } else {
                    Step::Finished
                }
            },
            r == Step::Finished ==> final(self).spec_completions().len() == final(self).spec_total(),
    {
        if self.dispatched < self.total && self.in_flight < self.concurrency {
            let index = self.dispatched;
            self.dispatched = self.dispatched + 1;
            self.in_flight = self.in_flight + 1;
            Step::Dispatch(index)
        } else if self.in_flight > 0 {
            Step::Await
        } else {
            Step::Finished
        }
    }

    /// Hands back one request in flight: `Some` with what it reported, or
    /// `None` when its task could not be joined. Its permit is released.
    pub fn complete(&mut self, outcome: Option<RequestOutcome>)
        requires
            old(self).wf(),
            old(self).spec_in_flight() > 0,
        ensures
            final(self).wf(),
            final(self).spec_method() == old(self).spec_method(),
            final(self).spec_concurrency() == old(self).spec_concurrency(),
            final(self).spec_total() == old(self).spec_total(),
            final(self).spec_dispatched() == old(self).spec_dispatched(),
            final(self).spec_in_flight() == old(self).spec_in_flight() - 1,
            final(self).spec_completions() == old(self).spec_completions().push(outcome),
    {
        let ghost before = self.completions@;
        let ghost after = before.push(outcome);
        proof {
            assert(after.drop_last() =~= before);
            lemma_counts_split(before);
        }
        match outcome {
            Some(o) => {
                if o.ok {
                    self.success = self.success + 1;
                } else {
                    self.fail = self.fail + 1;
                }
                self.joined = self.joined + 1;
                proof {
                    assert(self.time_sum + o.duration_ms <= (before.len() + 1) * 0xFFFF_FFFF_FFFF_FFFFnat)
                        by (nonlinear_arith)
                        requires
                            self.time_sum <= count_joined(before) * 0xFFFF_FFFF_FFFF_FFFFnat,
                            count_joined(before) <= before.len(),
                            o.duration_ms <= 0xFFFF_FFFF_FFFF_FFFFnat,
                    ;
                    assert(before.len() + 1 <= 0x1_0000_0000_0000_0000nat);
                    assert((before.len() + 1) * 0xFFFF_FFFF_FFFF_FFFFnat
                        <= 0x1_0000_0000_0000_0000nat * 0xFFFF_FFFF_FFFF_FFFFnat) by (nonlinear_arith)
                        requires before.len() + 1 <= 0x1_0000_0000_0000_0000nat;
                }
                self.time_sum = self.time_sum + o.duration_ms as u128;
            },
            None => {},
        }
        self.in_flight = self.in_flight - 1;
        self.completions = Ghost(after);
    }

    /// The aggregate of what was handed back so far; once the run is
    /// finished, of every request.
    pub fn result(&self) -> (r: LoadTestResult)
        requires
            self.wf(),
        ensures
            r.total == self.spec_total(),
            r.success == count_success(self.spec_completions()),
            r.fail == count_fail(self.spec_completions()),
            r.duration_sum == duration_sum(self.spec_completions()),
            r.joined == count_joined(self.spec_completions()),
            r.success + r.fail <= r.total,
    {
        proof {
            lemma_counts_split(self.completions@);
        }
        LoadTestResult {
            total: self.total,
            success: self.success,
            fail: self.fail,
            duration_sum: self.time_sum,
            joined: self.joined,
        }
    }
}

} // verus!
