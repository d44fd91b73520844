//! Deployment-time validation of a freshly initialized contract.
//!
//! A `Bootstrap` run records named checks along four dimensions (entry
//! points, storage defaults, admin access, invariants) and turns them into a
//! `BootstrapReport`. A deployment is valid exactly when no check failed;
//! not-applicable checks are reported but never fail a run.
use vstd::prelude::*;

verus! {

/// Errors of the bootstrap helpers.
#[derive(Debug, Clone, Copy, PartialEq, Eq, Structural)]
pub enum BootstrapError {
    /// At least one check did not hold.
    Failed,
}

/// The aspect of the deployment a check covers.
#[derive(Debug, Clone, Copy, PartialEq, Eq, Structural)]
pub enum CheckKind {
    EntryPoint,
    StorageDefault,
    AdminAccess,
    Invariant,
}

/// The outcome of one check.
#[derive(Debug, Clone, Copy, PartialEq, Eq, Structural)]
pub enum CheckStatus {
    Passed,
    Failed,
    NotApplicable,
}

/// How a probing call into a contract ended.
#[derive(Debug, Clone, Copy, PartialEq, Eq, Structural)]
pub enum InvokeOutcome {
    /// The entry point ran and returned a value.
    Returned,
    /// The entry point ran and returned a contract error.
    ContractError,
    /// The host aborted the call (missing entry point, undecodable
    /// arguments, a trap, a self-invocation).
    Aborted,
    /// The host's error could not be decoded.
    Undecodable,
}

/// One recorded check.
#[derive(Debug)]
pub struct BootstrapCheck {
    /// Short, stable name (a valid symbol).
    pub name: String,
    pub kind: CheckKind,
    pub status: CheckStatus,
}

/// The result of a bootstrap run.
#[derive(Debug)]
pub struct BootstrapReport {
    /// Name of the validated contract.
    pub contract: String,
    /// Whether no check failed.
    pub passed: bool,
    pub passed_count: u32,
    pub failed_count: u32,
    /// Every check, in recording order.
    pub checks: Vec<BootstrapCheck>,
}

/// Collects checks for one contract.
pub struct Bootstrap {
    pub contract: String,
    pub checks: Vec<BootstrapCheck>,
}

/// A character allowed in a symbol.
pub open spec fn is_symbol_char(c: char) -> bool {
    ('a' <= c && c <= 'z') || ('A' <= c && c <= 'Z') || ('0' <= c && c <= '9') || c == '_'
}

/// A valid symbol: at most 32 characters from `[A-Za-z0-9_]`.
pub open spec fn symbol_valid(s: Seq<char>) -> bool {
    s.len() <= 32 && forall|i: int| 0 <= i < s.len() ==> is_symbol_char(#[trigger] s[i])
}

/// A check as plain values.
pub open spec fn check_view(c: BootstrapCheck) -> (Seq<char>, CheckKind, CheckStatus) {
    (c.name@, c.kind, c.status)
}

pub open spec fn checks_view(s: Seq<BootstrapCheck>) -> Seq<(Seq<char>, CheckKind, CheckStatus)> {
    s.map_values(|c: BootstrapCheck| check_view(c))
}

/// How many checks have status `st`.
pub open spec fn count_status(s: Seq<(Seq<char>, CheckKind, CheckStatus)>, st: CheckStatus) -> nat
    decreases s.len(),
{
    if s.len() == 0 {
        0
    } else {
        count_status(s.drop_last(), st) + (if s.last().2 == st {
            1nat
        } else {
            0nat
        })
    }
}

/// Names of the failed checks, in recording order.
pub open spec fn failed_names(s: Seq<(Seq<char>, CheckKind, CheckStatus)>) -> Seq<Seq<char>>
    decreases s.len(),
{
    if s.len() == 0 {
        Seq::empty()
    } else {
        let rest = failed_names(s.drop_last());
        if s.last().2 == CheckStatus::Failed {
            rest.push(s.last().0)
        } else {
            rest
        }
    }
}

/// Whether no check failed.
pub open spec fn none_failed(s: Seq<(Seq<char>, CheckKind, CheckStatus)>) -> bool {
    forall|i: int| 0 <= i < s.len() ==> (#[trigger] s[i]).2 != CheckStatus::Failed
}

/// The status recorded for a check that must hold.
pub open spec fn status_of(holds: bool) -> CheckStatus {
    if holds {
        CheckStatus::Passed
    } else {
        CheckStatus::Failed
    }
}

/// Whether a probe outcome shows that the entry point exists: it ran, even
/// if it returned a contract error.
pub open spec fn registered_spec(o: InvokeOutcome) -> bool {
    o == InvokeOutcome::Returned || o == InvokeOutcome::ContractError
}

proof fn lemma_count_bounds(s: Seq<(Seq<char>, CheckKind, CheckStatus)>, st: CheckStatus)
    ensures
        count_status(s, st) <= s.len(),
        failed_names(s).len() == count_status(s, CheckStatus::Failed),
        (count_status(s, CheckStatus::Failed) == 0) == none_failed(s),
    decreases s.len(),
{
    if s.len() > 0 {
        let t = s.drop_last();
        lemma_count_bounds(t, st);
        if none_failed(s) {
            assert forall|i: int| 0 <= i < t.len() implies (#[trigger] t[i]).2
                != CheckStatus::Failed by {
                assert(t[i] == s[i]);
            }
            assert(s[s.len() - 1].2 != CheckStatus::Failed);
        }
        if count_status(s, CheckStatus::Failed) == 0 {
            assert forall|i: int| 0 <= i < s.len() implies (#[trigger] s[i]).2
                != CheckStatus::Failed by {
                if i < t.len() {
                    assert(t[i] == s[i]);
                }
            }
        }
    }
}

/// A copy of a check.
fn copy_check(c: &BootstrapCheck) -> (r: BootstrapCheck)
    ensures
        check_view(r) == check_view(*c),
{
    BootstrapCheck { name: c.name.clone(), kind: c.kind, status: c.status }
}

/// Whether a probe outcome shows that the entry point is registered.
pub fn entry_point_registered(outcome: InvokeOutcome) -> (r: bool)
    ensures
        r == registered_spec(outcome),
{
    match outcome {
        InvokeOutcome::Returned => true,
        InvokeOutcome::ContractError => true,
        InvokeOutcome::Aborted => false,
        InvokeOutcome::Undecodable => false,
    }
}

impl BootstrapReport {
    /// Whether the report agrees with the checks it lists.
    pub open spec fn consistent(&self) -> bool {
        let s = checks_view(self.checks@);
        &&& self.passed_count == count_status(s, CheckStatus::Passed)
        &&& self.failed_count == count_status(s, CheckStatus::Failed)
        &&& self.passed == (self.failed_count == 0)
        &&& self.passed == none_failed(s)
    }
}

impl Bootstrap {
    /// The checks recorded so far.
    pub open spec fn recorded(&self) -> Seq<(Seq<char>, CheckKind, CheckStatus)> {
        checks_view(self.checks@)
    }

    /// The contract's name.
    pub open spec fn contract_name(&self) -> Seq<char> {
        self.contract@
    }

    /// Starts a run for the contract named `contract`.
    pub fn new(contract: &str) -> (r: Self)
        requires
            symbol_valid(contract@),
        ensures
            r.contract_name() == contract@,
            r.recorded() == Seq::<(Seq<char>, CheckKind, CheckStatus)>::empty(),
    {
        let r = Bootstrap { contract: contract.to_owned(), checks: Vec::new() };
        assert(r.recorded() =~= Seq::<(Seq<char>, CheckKind, CheckStatus)>::empty());
        r
    }

    fn record(&mut self, name: &str, kind: CheckKind, status: CheckStatus)
        requires
            old(self).checks@.len() < u32::MAX,
        ensures
            final(self).recorded() == old(self).recorded().push((name@, kind, status)),
            final(self).contract_name() == old(self).contract_name(),
            final(self).checks@.len() == old(self).checks@.len() + 1,
    {
        let ghost before = self.recorded();
        self.checks.push(BootstrapCheck { name: name.to_owned(), kind, status });
        assert(self.recorded() =~= before.push((name@, kind, status)));
    }

    /// Records an unconditional pass.
    pub fn pass(&mut self, name: &str, kind: CheckKind) -> (r: &mut Self)
        requires
            symbol_valid(name@),
            old(self).checks@.len() < u32::MAX,
        ensures
            r.recorded() == old(self).recorded().push((name@, kind, CheckStatus::Passed)),
            r.contract_name() == old(self).contract_name(),
            r.checks@.len() == old(self).checks@.len() + 1,
            *final(self) == *final(r),
    {
        self.record(name, kind, CheckStatus::Passed);
        self
    }

    /// Records an unconditional failure.
    pub fn fail(&mut self, name: &str, kind: CheckKind) -> (r: &mut Self)
        requires
            symbol_valid(name@),
            old(self).checks@.len() < u32::MAX,
        ensures
            r.recorded() == old(self).recorded().push((name@, kind, CheckStatus::Failed)),
            r.contract_name() == old(self).contract_name(),
            r.checks@.len() == old(self).checks@.len() + 1,
            *final(self) == *final(r),
    {
        self.record(name, kind, CheckStatus::Failed);
        self
    }

    /// Records a check that does not apply to this contract.
    pub fn not_applicable(&mut self, name: &str, kind: CheckKind) -> (r: &mut Self)
        requires
            symbol_valid(name@),
            old(self).checks@.len() < u32::MAX,
        ensures
            r.recorded() == old(self).recorded().push((name@, kind, CheckStatus::NotApplicable)),
            r.contract_name() == old(self).contract_name(),
            r.checks@.len() == old(self).checks@.len() + 1,
            *final(self) == *final(r),
    {
        self.record(name, kind, CheckStatus::NotApplicable);
        self
    }

    /// Records `holds` as a pass or a failure.
    pub fn require(&mut self, name: &str, kind: CheckKind, holds: bool) -> (r: &mut Self)
        requires
            symbol_valid(name@),
            old(self).checks@.len() < u32::MAX,
        ensures
            r.recorded() == old(self).recorded().push((name@, kind, status_of(holds))),
            r.contract_name() == old(self).contract_name(),
            r.checks@.len() == old(self).checks@.len() + 1,
            *final(self) == *final(r),
    {
        let status = if holds {
            CheckStatus::Passed
        } else {
            CheckStatus::Failed
        };
        self.record(name, kind, status);
        self
    }

    /// Records a storage-default check.
    pub fn storage_default(&mut self, name: &str, holds: bool) -> (r: &mut Self)
        requires
            symbol_valid(name@),
            old(self).checks@.len() < u32::MAX,
        ensures
            r.recorded() == old(self).recorded().push(
                (name@, CheckKind::StorageDefault, status_of(holds)),
            ),
            r.contract_name() == old(self).contract_name(),
            r.checks@.len() == old(self).checks@.len() + 1,
            *final(self) == *final(r),
    {
        self.require(name, CheckKind::StorageDefault, holds)
    }

    /// Records an admin-access check.
    pub fn admin_access(&mut self, name: &str, holds: bool) -> (r: &mut Self)
        requires
            symbol_valid(name@),
            old(self).checks@.len() < u32::MAX,
        ensures
            r.recorded() == old(self).recorded().push(
                (name@, CheckKind::AdminAccess, status_of(holds)),
            ),
            r.contract_name() == old(self).contract_name(),
            r.checks@.len() == old(self).checks@.len() + 1,
            *final(self) == *final(r),
    {
        self.require(name, CheckKind::AdminAccess, holds)
    }

    /// Records an invariant check.
    pub fn invariant_check(&mut self, name: &str, holds: bool) -> (r: &mut Self)
        requires
            symbol_valid(name@),
            old(self).checks@.len() < u32::MAX,
        ensures
            r.recorded() == old(self).recorded().push(
                (name@, CheckKind::Invariant, status_of(holds)),
            ),
            r.contract_name() == old(self).contract_name(),
            r.checks@.len() == old(self).checks@.len() + 1,
            *final(self) == *final(r),
    {
        self.require(name, CheckKind::Invariant, holds)
    }

    /// Records the outcome of an entry-point probe made by the caller.
    pub fn entry_point(&mut self, name: &str, registered: bool) -> (r: &mut Self)
        requires
            symbol_valid(name@),
            old(self).checks@.len() < u32::MAX,
        ensures
            r.recorded() == old(self).recorded().push(
                (name@, CheckKind::EntryPoint, status_of(registered)),
            ),
            r.contract_name() == old(self).contract_name(),
            r.checks@.len() == old(self).checks@.len() + 1,
            *final(self) == *final(r),
    {
        self.require(name, CheckKind::EntryPoint, registered)
    }

    /// Whether no check failed.
    pub fn passed(&self) -> (r: bool)
        ensures
            r == none_failed(self.recorded()),
    {
        let mut ok = true;
        let mut i: usize = 0;
        while i < self.checks.len()
            invariant
                i <= self.checks@.len(),
                ok == (forall|j: int| 0 <= j < i ==> self.checks@[j].status != CheckStatus::Failed),
            decreases self.checks@.len() - i,
        {
            if self.checks[i].status == CheckStatus::Failed {
                ok = false;
            }
            i = i + 1;
        }
        proof {
            let s = self.recorded();
            assert forall|j: int| 0 <= j < s.len() implies (#[trigger] s[j]).2 == self.checks@[j].status by {}
            if !ok {
                let j = choose|j: int| 0 <= j < self.checks@.len() && self.checks@[j].status == CheckStatus::Failed;
                assert(s[j].2 == CheckStatus::Failed);
            }
        }
        ok
    }

    /// Names of the failed checks, in recording order.
    pub fn failed_checks(&self) -> (r: Vec<String>)
        ensures
            r@.map_values(|n: String| n@) == failed_names(self.recorded()),
    {
        let mut failed: Vec<String> = Vec::new();
        let mut i: usize = 0;
        while i < self.checks.len()
            invariant
                i <= self.checks@.len(),
                failed@.map_values(|n: String| n@) == failed_names(self.recorded().take(i as int)),
            decreases self.checks@.len() - i,
        {
            proof {
                let s = self.recorded();
                assert(s.take(i + 1).drop_last() =~= s.take(i as int));
                assert(s.take(i + 1).last() == check_view(self.checks@[i as int]));
            }
            let check = &self.checks[i];
            if check.status == CheckStatus::Failed {
                let ghost before = failed@.map_values(|n: String| n@);
                failed.push(check.name.clone());
                assert(failed@.map_values(|n: String| n@) =~= before.push(check.name@));
            }
            i = i + 1;
        }
        assert(self.recorded().take(self.checks@.len() as int) =~= self.recorded());
        failed
    }

    /// The report for the run so far.
    pub fn report(&self) -> (r: BootstrapReport)
        requires
            self.checks@.len() <= u32::MAX,
        ensures
            r.contract@ == self.contract_name(),
            checks_view(r.checks@) == self.recorded(),
            r.consistent(),
            r.passed == none_failed(self.recorded()),
    {
        let mut passed_count: u32 = 0;
        let mut failed_count: u32 = 0;
        let mut checks: Vec<BootstrapCheck> = Vec::new();
        let mut i: usize = 0;
        while i < self.checks.len()
            invariant
                i <= self.checks@.len(),
                self.checks@.len() <= u32::MAX,
                checks_view(checks@) == self.recorded().take(i as int),
                passed_count == count_status(self.recorded().take(i as int), CheckStatus::Passed),
                failed_count == count_status(self.recorded().take(i as int), CheckStatus::Failed),
            decreases self.checks@.len() - i,
        {
            proof {
                let s = self.recorded();
                assert(s.take(i + 1).drop_last() =~= s.take(i as int));
                assert(s.take(i + 1).last() == check_view(self.checks@[i as int]));
                lemma_count_bounds(s.take(i as int), CheckStatus::Passed);
                lemma_count_bounds(s.take(i as int), CheckStatus::Failed);
            }
            let check = &self.checks[i];
            match check.status {
                CheckStatus::Passed => passed_count = passed_count + 1,
                CheckStatus::Failed => failed_count = failed_count + 1,
                CheckStatus::NotApplicable => {},
            }
            let ghost before = checks_view(checks@);
            checks.push(copy_check(check));
            assert(checks_view(checks@) =~= before.push(check_view(self.checks@[i as int])));
            i = i + 1;
        }
        proof {
            assert(self.recorded().take(self.checks@.len() as int) =~= self.recorded());
            lemma_count_bounds(self.recorded(), CheckStatus::Failed);
        }
        BootstrapReport {
            contract: self.contract.clone(),
            passed: failed_count == 0,
            passed_count,
            failed_count,
            checks,
        }
    }

    /// The report, or `BootstrapError::Failed` when some check failed.
    pub fn require_ok(&self) -> (r: Result<BootstrapReport, BootstrapError>)
        requires
            self.checks@.len() <= u32::MAX,
        ensures
            none_failed(self.recorded()) ==> (r matches Ok(rep) && rep.consistent()
                && checks_view(rep.checks@) == self.recorded() && rep.contract@
                == self.contract_name()),
            !none_failed(self.recorded()) ==> r matches Err(BootstrapError::Failed),
    {
        let report = self.report();
        if report.passed {
            Ok(report)
        } else {
            Err(BootstrapError::Failed)
        }
    }
}

/// A run passes exactly when none of its checks failed: recording a
/// not-applicable check never turns a passing run into a failing one, and
/// recording a failure always fails it.
pub proof fn law_pass_iff_no_failure(
    s: Seq<(Seq<char>, CheckKind, CheckStatus)>,
    name: Seq<char>,
    kind: CheckKind,
)
    ensures
        (count_status(s, CheckStatus::Failed) == 0) == none_failed(s),
        none_failed(s.push((name, kind, CheckStatus::NotApplicable))) == none_failed(s),
        none_failed(s.push((name, kind, CheckStatus::Passed))) == none_failed(s),
        !none_failed(s.push((name, kind, CheckStatus::Failed))),
        failed_names(s).len() == count_status(s, CheckStatus::Failed),
{
    lemma_count_bounds(s, CheckStatus::Failed);
    let n = s.push((name, kind, CheckStatus::NotApplicable));
    let p = s.push((name, kind, CheckStatus::Passed));
    let f = s.push((name, kind, CheckStatus::Failed));
    assert(f[s.len() as int].2 == CheckStatus::Failed);
    if none_failed(n) {
        assert forall|i: int| 0 <= i < s.len() implies (#[trigger] s[i]).2 != CheckStatus::Failed by {
            assert(n[i] == s[i]);
        }
    }
    if none_failed(p) {
        assert forall|i: int| 0 <= i < s.len() implies (#[trigger] s[i]).2 != CheckStatus::Failed by {
            assert(p[i] == s[i]);
        }
    }
    if none_failed(s) {
        assert forall|i: int| 0 <= i < n.len() implies (#[trigger] n[i]).2 != CheckStatus::Failed by {
            if i < s.len() {
                assert(n[i] == s[i]);
            }
        }
        assert forall|i: int| 0 <= i < p.len() implies (#[trigger] p[i]).2 != CheckStatus::Failed by {
            if i < s.len() {
                assert(p[i] == s[i]);
            }
        }
    }
}

} // verus!
