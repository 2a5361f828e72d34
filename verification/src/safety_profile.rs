//! Stateless threshold and budget engine for extraction passes.
//!
//! The profile is deployment-scoped configuration: hard resource budgets
//! for one excavation run and four confidence/drift thresholds. It is
//! constructed once and never mutated during a run.

use vstd::prelude::*;

verus! {

/// Fixed-point representation of the fraction 1.0: all confidence, drift,
/// stability and novelty scores are scaled by this constant.
pub const SCORE_ONE: u32 = 10000;

/// Admission margin for the deep-pass stage: 0.25, fixed, independent of
/// the profile.
pub const DEEP_PASS_MARGIN: u32 = 2500;

/// Deployment-scoped configuration of all thresholds and budgets.
pub struct ExcavationSafetyProfile {
    pub profile_name: String,
    /// Max DOM nodes processed per excavation run.
    pub node_budget: u64,
    /// Max trace spans processed per excavation run.
    pub trace_span_budget: u64,
    /// Max objects admitted into deep-pass analysis.
    pub deep_pass_budget: u64,
    /// Soft cap on the elapsed time of one run, in milliseconds.
    pub max_run_millis: u64,
    /// Minimum confidence for the auto-use label, scaled by `SCORE_ONE`.
    pub min_confidence_for_auto_use: u32,
    /// Minimum confidence for the show-with-warning label.
    pub min_confidence_for_display: u32,
    /// Maximum drift for the auto-use label.
    pub max_drift_for_auto_use: u32,
    /// Maximum drift tolerated by the citizen-facing UI.
    pub max_drift_for_citizen_ui: u32,
}

/// The three classification outcomes, in priority order.
#[derive(Clone, Copy, PartialEq, Eq, Structural, Debug)]
pub enum Classification {
    AutoUse,
    ShowWithWarning,
    Quarantine,
}

/// Usage counters observed over one excavation run.
#[derive(Clone, Copy, PartialEq, Eq, Structural, Debug)]
pub struct ExcavationStats {
    pub nodes: u64,
    pub spans: u64,
    pub deep_candidates: u64,
    pub run_millis: u64,
}

/// The label returned for each classification outcome.
pub open spec fn classification_label(c: Classification) -> Seq<char> {
    match c {
        Classification::AutoUse => "auto-use"@,
        Classification::ShowWithWarning => "show-with-warning"@,
        Classification::Quarantine => "quarantine"@,
    }
}

impl ExcavationSafetyProfile {
    /// Which of the three labels a confidence/drift pair receives under
    /// this profile: two ordered threshold tests, quarantine otherwise.
    pub open spec fn classification_of(&self, confidence: u32, drift: u32) -> Classification {
        if confidence >= self.min_confidence_for_auto_use && drift <= self.max_drift_for_auto_use {
            Classification::AutoUse
        } else if confidence >= self.min_confidence_for_display && drift
            <= self.max_drift_for_citizen_ui {
            Classification::ShowWithWarning
        } else {
            Classification::Quarantine
        }
    }

    /// The complete list of budget names breached by the observed
    /// quantities, in the fixed order the checks are made.
    pub open spec fn budget_violations(
        &self,
        nodes: u64,
        spans: u64,
        deep_candidates: u64,
        run_millis: u64,
    ) -> Seq<Seq<char>> {
        (if nodes > self.node_budget {
            seq!["nodeBudget"@]
        } else {
            Seq::empty()
        }) + (if spans > self.trace_span_budget {
            seq!["traceSpanBudget"@]
        } else {
            Seq::empty()
        }) + (if deep_candidates > self.deep_pass_budget {
            seq!["deepPassBudget"@]
        } else {
            Seq::empty()
        }) + (if run_millis > self.max_run_millis {
            seq!["maxRunSeconds"@]
        } else {
            Seq::empty()
        })
    }

    /// A fresh profile under the given name, with the stock budgets and
    /// thresholds.
    pub fn new(profile_name: &str) -> (r: Self)
        ensures
            r.profile_name@ == profile_name@,
            r.node_budget == 20000,
            r.trace_span_budget == 50000,
            r.deep_pass_budget == 2000,
            r.max_run_millis == 15000,
            r.min_confidence_for_auto_use == 8500,
            r.min_confidence_for_display == 4000,
            r.max_drift_for_auto_use == 2000,
            r.max_drift_for_citizen_ui == 6000,
    {
        ExcavationSafetyProfile {
            profile_name: profile_name.to_owned(),
            node_budget: 20000,
            trace_span_budget: 50000,
            deep_pass_budget: 2000,
            max_run_millis: 15000,
            min_confidence_for_auto_use: 8500,
            min_confidence_for_display: 4000,
            max_drift_for_auto_use: 2000,
            max_drift_for_citizen_ui: 6000,
        }
    }

    /// Whether an object should enter the expensive deep-pass stage: a
    /// value-minus-cost proxy admits exactly when the margin is at
    /// least 0.25, a fixed threshold independent of the profile.
    pub fn should_enter_deep_pass(&self, estimated_value_score: u32, cost_score: u32) -> (r: bool)
        requires
            estimated_value_score <= SCORE_ONE,
            cost_score <= SCORE_ONE,
        ensures
            r == (estimated_value_score - cost_score >= DEEP_PASS_MARGIN as int),
    {
        estimated_value_score >= cost_score + DEEP_PASS_MARGIN
    }

    /// Classifies an object based on confidence and drift scores.
    /// Returns one of: "auto-use", "show-with-warning", "quarantine".
    pub fn classify_object(&self, confidence: u32, drift: u32) -> (r: &'static str)
        ensures
            r@ == classification_label(self.classification_of(confidence, drift)),
    {
        if confidence >= self.min_confidence_for_auto_use && drift <= self.max_drift_for_auto_use {
            return "auto-use";
        }
        if confidence >= self.min_confidence_for_display && drift <= self.max_drift_for_citizen_ui {
            return "show-with-warning";
        }
        "quarantine"
    }

    /// Checks the observed quantities against all four budgets
    /// independently, never stopping at the first breach. Success is an
    /// empty violation list; failure returns every violated budget name.
    pub fn enforce_budgets(
        &self,
        nodes: u64,
        spans: u64,
        deep_candidates: u64,
        run_millis: u64,
    ) -> (r: Result<(), Vec<&'static str>>)
        ensures
            r is Ok <==> self.budget_violations(nodes, spans, deep_candidates, run_millis).len()
                == 0,
            r matches Err(v) ==> v.deep_view() == self.budget_violations(
                nodes,
                spans,
                deep_candidates,
                run_millis,
            ),
    {
        let ghost all = self.budget_violations(nodes, spans, deep_candidates, run_millis);
        let mut violations: Vec<&'static str> = Vec::new();
        if nodes > self.node_budget {
            violations.push("nodeBudget");
        }
        if spans > self.trace_span_budget {
            violations.push("traceSpanBudget");
        }
        if deep_candidates > self.deep_pass_budget {
            violations.push("deepPassBudget");
        }
        if run_millis > self.max_run_millis {
            violations.push("maxRunSeconds");
        }
        proof {
            assert(violations.deep_view() =~= all);
        }
        if violations.is_empty() {
            Ok(())
        } else {
            Err(violations)
        }
    }

    /// `enforce_budgets` applied to a bundled statistics record.
    pub fn check_stats(&self, stats: &ExcavationStats) -> (r: Result<(), Vec<&'static str>>)
        ensures
            r is Ok <==> self.budget_violations(
                stats.nodes,
                stats.spans,
                stats.deep_candidates,
                stats.run_millis,
            ).len() == 0,
            r matches Err(v) ==> v.deep_view() == self.budget_violations(
                stats.nodes,
                stats.spans,
                stats.deep_candidates,
                stats.run_millis,
            ),
    {
        self.enforce_budgets(stats.nodes, stats.spans, stats.deep_candidates, stats.run_millis)
    }
}

impl std::default::Default for ExcavationSafetyProfile {
    /// The stock profile, under the name "default".
    fn default() -> (r: Self)
        ensures
            r.profile_name@ == "default"@,
            r.node_budget == 20000,
            r.trace_span_budget == 50000,
            r.deep_pass_budget == 2000,
            r.max_run_millis == 15000,
            r.min_confidence_for_auto_use == 8500,
            r.min_confidence_for_display == 4000,
            r.max_drift_for_auto_use == 2000,
            r.max_drift_for_citizen_ui == 6000,
    {
        ExcavationSafetyProfile::new("default")
    }
}

/// Exhaustiveness: every input receives exactly one of the three labels.
/// Monotonicity: raising confidence and lowering drift never demotes an
/// auto-use verdict.
pub proof fn lemma_classification_exhaustive_and_monotonic(
    p: &ExcavationSafetyProfile,
    c1: u32,
    d1: u32,
    c2: u32,
    d2: u32,
)
    ensures
        p.classification_of(c1, d1) == Classification::AutoUse || p.classification_of(c1, d1)
            == Classification::ShowWithWarning || p.classification_of(c1, d1)
            == Classification::Quarantine,
        p.classification_of(c1, d1) == Classification::AutoUse && c2 >= c1 && d2 <= d1
            ==> p.classification_of(c2, d2) == Classification::AutoUse,
{
}

/// The budget violation list holds exactly the names of the
/// independently breached checks, and is empty exactly when all four
/// observed quantities are within the configured limits.
pub proof fn lemma_budget_violations_exact(
    p: &ExcavationSafetyProfile,
    nodes: u64,
    spans: u64,
    deep_candidates: u64,
    run_millis: u64,
)
    ensures
        p.budget_violations(nodes, spans, deep_candidates, run_millis).len() == 0 <==> (nodes
            <= p.node_budget && spans <= p.trace_span_budget && deep_candidates
            <= p.deep_pass_budget && run_millis <= p.max_run_millis),
        p.budget_violations(nodes, spans, deep_candidates, run_millis).contains("nodeBudget"@)
            <==> nodes > p.node_budget,
        p.budget_violations(nodes, spans, deep_candidates, run_millis).contains("traceSpanBudget"@)
            <==> spans > p.trace_span_budget,
        p.budget_violations(nodes, spans, deep_candidates, run_millis).contains("deepPassBudget"@)
            <==> deep_candidates > p.deep_pass_budget,
        p.budget_violations(nodes, spans, deep_candidates, run_millis).contains("maxRunSeconds"@)
            <==> run_millis > p.max_run_millis,
{
    reveal_strlit("nodeBudget");
    reveal_strlit("traceSpanBudget");
    reveal_strlit("deepPassBudget");
    reveal_strlit("maxRunSeconds");
    let vs = p.budget_violations(nodes, spans, deep_candidates, run_millis);
    assert forall|name: Seq<char>| vs.contains(name) implies (name == "nodeBudget"@ && nodes
        > p.node_budget) || (name == "traceSpanBudget"@ && spans > p.trace_span_budget) || (name
        == "deepPassBudget"@ && deep_candidates > p.deep_pass_budget) || (name == "maxRunSeconds"@
        && run_millis > p.max_run_millis) by {
        let i = choose|i: int| 0 <= i < vs.len() && vs[i] == name;
        assert(vs[i] == name);
    }
    if nodes > p.node_budget {
        assert(vs[0] == "nodeBudget"@);
    }
    if spans > p.trace_span_budget {
        let i = (if nodes > p.node_budget {
            1int
        } else {
            0int
        });
        assert(vs[i] == "traceSpanBudget"@);
    }
    if deep_candidates > p.deep_pass_budget {
        let i = (if nodes > p.node_budget {
            1int
        } else {
            0int
        }) + (if spans > p.trace_span_budget {
            1int
        } else {
            0int
        });
        assert(vs[i] == "deepPassBudget"@);
    }
    if run_millis > p.max_run_millis {
        assert(vs[vs.len() - 1] == "maxRunSeconds"@);
    }
}

} // verus!
