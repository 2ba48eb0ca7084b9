//! Domain-agnostic design-rule-check model: severities, rule descriptors,
//! violation records and the report that aggregates them.
//!
//! A violation is immutable once built; the optional augmentations (severity,
//! measured/limit values, fix suggestion) are independent and order-free.
//! A report accumulates violations by append and computes its aggregates on
//! demand, so they always agree with the current list.

use vstd::prelude::*;
use vstd::string::*;
use crate::geom::Point2D;

verus! {

/// How serious a violation is.
#[derive(Debug, Clone, Copy, PartialEq, Eq, Structural)]
pub enum DrcSeverity {
    Error,
    Warning,
    Info,
}

/// Measured value, limit it was checked against, and the unit both are in.
#[derive(Debug, Clone, PartialEq)]
pub struct DrcValues {
    pub measured: i64,
    pub limit: i64,
    pub unit: String,
}

/// Mathematical value of a [`DrcValues`].
#[verifier::ext_equal]
pub ghost struct DrcValuesView {
    pub measured: int,
    pub limit: int,
    pub unit: Seq<char>,
}

impl View for DrcValues {
    type V = DrcValuesView;

    open spec fn view(&self) -> DrcValuesView {
        DrcValuesView { measured: self.measured as int, limit: self.limit as int, unit: self.unit@ }
    }
}

impl DeepView for DrcValues {
    type V = DrcValuesView;

    open spec fn deep_view(&self) -> DrcValuesView {
        self.view()
    }
}

/// A single design-rule violation.
#[derive(Debug, Clone, PartialEq)]
pub struct DrcViolation {
    /// Identifier of the rule that was broken, e.g. `clearance.track_to_track`.
    pub rule: String,
    /// Human-readable description of the finding.
    pub message: String,
    /// Where on the board the finding is, in nanometres.
    pub location: Point2D,
    /// Severity of the finding.
    pub severity: DrcSeverity,
    /// Optional measured/limit values.
    pub values: Option<DrcValues>,
    /// Optional suggested fix.
    pub fix: Option<String>,
}

/// Mathematical value of a [`DrcViolation`].
#[verifier::ext_equal]
pub ghost struct DrcViolationView {
    pub rule: Seq<char>,
    pub message: Seq<char>,
    pub location: Point2D,
    pub severity: DrcSeverity,
    pub values: Option<DrcValuesView>,
    pub fix: Option<Seq<char>>,
}

impl View for DrcViolation {
    type V = DrcViolationView;

    open spec fn view(&self) -> DrcViolationView {
        DrcViolationView {
            rule: self.rule@,
            message: self.message@,
            location: self.location,
            severity: self.severity,
            values: match self.values {
                Some(v) => Some(v@),
                None => None,
            },
            fix: match self.fix {
                Some(f) => Some(f@),
                None => None,
            },
        }
    }
}

impl DeepView for DrcViolation {
    type V = DrcViolationView;

    open spec fn deep_view(&self) -> DrcViolationView {
        self.view()
    }
}

impl DrcViolation {
    /// A new violation with the default severity (`Error`) and no optional
    /// augmentations.
    pub fn new(rule: &str, message: String, location: Point2D) -> (v: DrcViolation)
        ensures
            v@ == (DrcViolationView {
                rule: rule@,
                message: message@,
                location,
                severity: DrcSeverity::Error,
                values: None,
                fix: None,
            }),
    {
        DrcViolation {
            rule: String::from_str(rule),
            message,
            location,
            severity: DrcSeverity::Error,
            values: None,
            fix: None,
        }
    }

    /// The same violation with its severity replaced.
    pub fn with_severity(self, severity: DrcSeverity) -> (v: DrcViolation)
        ensures
            v@ == (DrcViolationView { severity, ..self@ }),
    {
        DrcViolation { severity, ..self }
    }

    /// The same violation carrying a measured value, the limit it broke, and
    /// their common unit.
    pub fn with_values(self, measured: i64, limit: i64, unit: &str) -> (v: DrcViolation)
        ensures
            v@ == (DrcViolationView {
                values: Some(
                    DrcValuesView {
                        measured: measured as int,
                        limit: limit as int,
                        unit: unit@,
                    },
                ),
                ..self@
            }),
    {
        DrcViolation {
            values: Some(DrcValues { measured, limit, unit: String::from_str(unit) }),
            ..self
        }
    }

    /// The same violation carrying a suggested fix.
    pub fn with_fix(self, fix: String) -> (v: DrcViolation)
        ensures
            v@ == (DrcViolationView { fix: Some(fix@), ..self@ }),
    {
        DrcViolation { fix: Some(fix), ..self }
    }
}

/// Descriptor of one rule a checker can raise: advisory metadata for
/// configuration surfaces, never consulted while checking.
#[derive(Debug, Clone, PartialEq)]
pub struct DrcRule {
    pub id: String,
    pub name: String,
    pub description: String,
    pub category: String,
    pub default_severity: DrcSeverity,
    pub can_disable: bool,
}

/// Mathematical value of a [`DrcRule`].
#[verifier::ext_equal]
pub ghost struct DrcRuleView {
    pub id: Seq<char>,
    pub name: Seq<char>,
    pub description: Seq<char>,
    pub category: Seq<char>,
    pub default_severity: DrcSeverity,
    pub can_disable: bool,
}

impl View for DrcRule {
    type V = DrcRuleView;

    open spec fn view(&self) -> DrcRuleView {
        DrcRuleView {
            id: self.id@,
            name: self.name@,
            description: self.description@,
            category: self.category@,
            default_severity: self.default_severity,
            can_disable: self.can_disable,
        }
    }
}

impl DeepView for DrcRule {
    type V = DrcRuleView;

    open spec fn deep_view(&self) -> DrcRuleView {
        self.view()
    }
}

/// Number of violations of the given severity in a sequence.
pub open spec fn count_severity(vs: Seq<DrcViolationView>, severity: DrcSeverity) -> nat {
    vs.filter(|v: DrcViolationView| v.severity == severity).len()
}

/// Appending one violation raises the count of its severity by one and no
/// other count.
pub proof fn lemma_count_severity_push(
    vs: Seq<DrcViolationView>,
    v: DrcViolationView,
    severity: DrcSeverity,
)
    ensures
        count_severity(vs.push(v), severity) == count_severity(vs, severity) + (if v.severity
            == severity {
            1int
        } else {
            0int
        }),
{
    vs.lemma_filter_push(v, |x: DrcViolationView| x.severity == severity);
}

/// A report of all violations found for one subject.
#[derive(Debug, Clone, PartialEq)]
pub struct DrcReport {
    /// Name of the checked subject.
    pub subject: String,
    /// Kind tag of the subject, e.g. `pcb`.
    pub kind: String,
    /// The violations, in the order the checks emitted them.
    pub violations: Vec<DrcViolation>,
}

/// Mathematical value of a [`DrcReport`].
#[verifier::ext_equal]
pub ghost struct DrcReportView {
    pub subject: Seq<char>,
    pub kind: Seq<char>,
    pub violations: Seq<DrcViolationView>,
}

impl View for DrcReport {
    type V = DrcReportView;

    open spec fn view(&self) -> DrcReportView {
        DrcReportView {
            subject: self.subject@,
            kind: self.kind@,
            violations: self.violations.deep_view(),
        }
    }
}

impl DrcReport {
    /// An empty report for the given subject.
    pub fn new(subject: &str, kind: &str) -> (r: DrcReport)
        ensures
            r@ == (DrcReportView {
                subject: subject@,
                kind: kind@,
                violations: Seq::<DrcViolationView>::empty(),
            }),
    {
        let r = DrcReport {
            subject: String::from_str(subject),
            kind: String::from_str(kind),
            violations: Vec::new(),
        };
        proof {
            assert(r.violations.deep_view() =~= Seq::<DrcViolationView>::empty());
        }
        r
    }

    /// Append one violation.
    pub fn push(&mut self, v: DrcViolation)
        ensures
            final(self)@ == (DrcReportView {
                violations: old(self)@.violations.push(v@),
                ..old(self)@
            }),
    {
        self.violations.push(v);
        proof {
            assert(self.violations.deep_view() =~= old(self).violations.deep_view().push(v@));
        }
    }

    /// How many violations the report holds.
    pub fn violation_count(&self) -> (n: usize)
        ensures
            n == self@.violations.len(),
    {
        self.violations.len()
    }

    /// How many violations of one severity the report holds.
    pub fn count_by_severity(&self, severity: DrcSeverity) -> (n: usize)
        ensures
            n == count_severity(self@.violations, severity),
    {
        let mut n: usize = 0;
        let mut i: usize = 0;
        while i < self.violations.len()
            invariant
                0 <= i <= self.violations.len(),
                n == count_severity(self@.violations.take(i as int), severity),
                n <= i,
            decreases self.violations.len() - i,
        {
            proof {
                assert(self@.violations.take(i as int + 1) =~= self@.violations.take(
                    i as int,
                ).push(self@.violations[i as int]));
                lemma_count_severity_push(
                    self@.violations.take(i as int),
                    self@.violations[i as int],
                    severity,
                );
            }
            if severity_eq(self.violations[i].severity, severity) {
                n = n + 1;
            }
            i = i + 1;
        }
        proof {
            assert(self@.violations.take(self.violations.len() as int) =~= self@.violations);
        }
        n
    }

    /// How many `Error` violations the report holds.
    pub fn error_count(&self) -> (n: usize)
        ensures
            n == count_severity(self@.violations, DrcSeverity::Error),
    {
        self.count_by_severity(DrcSeverity::Error)
    }

    /// How many `Warning` violations the report holds.
    pub fn warning_count(&self) -> (n: usize)
        ensures
            n == count_severity(self@.violations, DrcSeverity::Warning),
    {
        self.count_by_severity(DrcSeverity::Warning)
    }

    /// How many `Info` violations the report holds.
    pub fn info_count(&self) -> (n: usize)
        ensures
            n == count_severity(self@.violations, DrcSeverity::Info),
    {
        self.count_by_severity(DrcSeverity::Info)
    }
}

/// Severity equality as an executable test.
pub fn severity_eq(a: DrcSeverity, b: DrcSeverity) -> (r: bool)
    ensures
        r == (a == b),
{
    match (a, b) {
        (DrcSeverity::Error, DrcSeverity::Error) => true,
        (DrcSeverity::Warning, DrcSeverity::Warning) => true,
        (DrcSeverity::Info, DrcSeverity::Info) => true,
        _ => false,
    }
}

} // verus!
