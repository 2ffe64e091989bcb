//! The response-selection strategies, and the configuration rules each
//! strategy demands of its listener.

use vstd::prelude::*;

use crate::config::target::{target_id_spec, targets_view, ConditionView, TargetConfig, TargetView};
use crate::errors::HttpDragonflyError;
use crate::text::str_eq;

verus! {

/// How the final response is selected from the per-target outcomes.
#[derive(PartialEq, Eq, Structural, Clone, Copy, Debug)]
pub enum ResponseStrategy {
    AlwaysOverride,
    AlwaysTargetId,
    OkThenFailed,
    OkThenTargetId,
    OkThenOverride,
    FailedThenOk,
    FailedThenTargetId,
    FailedThenOverride,
    ConditionalRouting,
}

impl Default for ResponseStrategy {
    fn default() -> (r: ResponseStrategy)
        ensures
            r == ResponseStrategy::FailedThenOverride,
    {
        ResponseStrategy::FailedThenOverride
    }
}

/// How many targets carry the `default` condition.
pub open spec fn count_defaults(ts: Seq<TargetView>) -> int
    decreases ts.len(),
{
    if ts.len() == 0 {
        0
    } else {
        count_defaults(ts.drop_last()) + if ts.last().condition == Some(ConditionView::Default) {
            1int
        } else {
            0int
        }
    }
}

/// Whether every target carries a condition.
pub open spec fn all_have_conditions(ts: Seq<TargetView>) -> bool
    decreases ts.len(),
{
    ts.len() == 0 || (ts.last().condition is Some && all_have_conditions(ts.drop_last()))
}

/// Whether `id` is the effective id of some target.
pub open spec fn id_known(ts: Seq<TargetView>, id: Seq<char>) -> bool
    decreases ts.len(),
{
    if ts.len() == 0 {
        false
    } else {
        target_id_spec(ts.last()) == id || id_known(ts.drop_last(), id)
    }
}

/// Whether the selector names an existing target id.
pub open spec fn selector_known(ts: Seq<TargetView>, sel: Option<Seq<char>>) -> bool {
    match sel {
        Some(id) => id_known(ts, id),
        None => false,
    }
}

pub proof fn lemma_all_have_conditions_index(ts: Seq<TargetView>, i: int)
    requires
        0 <= i < ts.len(),
        ts[i].condition is None,
    ensures
        !all_have_conditions(ts),
    decreases ts.len(),
{
    if i < ts.len() - 1 {
        lemma_all_have_conditions_index(ts.drop_last(), i);
    }
}

pub proof fn lemma_id_known_index(ts: Seq<TargetView>, i: int)
    requires
        0 <= i < ts.len(),
    ensures
        id_known(ts, target_id_spec(ts[i])),
    decreases ts.len(),
{
    if i < ts.len() - 1 {
        lemma_id_known_index(ts.drop_last(), i);
    }
}

/// What a strategy demands of the listener's targets and selector:
/// conditional routing demands a condition on every target and at most one
/// `default`; the `*_target_id` strategies demand a selector naming an
/// existing target.
pub open spec fn strategy_requirements(
    s: ResponseStrategy,
    ts: Seq<TargetView>,
    sel: Option<Seq<char>>,
) -> bool {
    match s {
        ResponseStrategy::ConditionalRouting => {
            &&& all_have_conditions(ts)
            &&& count_defaults(ts) <= 1
        },
        ResponseStrategy::AlwaysTargetId => selector_known(ts, sel),
        ResponseStrategy::FailedThenTargetId => selector_known(ts, sel),
        ResponseStrategy::OkThenTargetId => selector_known(ts, sel),
        _ => true,
    }
}

impl ResponseStrategy {
    /// Validates the strategy's demands on the listener's targets and
    /// selector.
    pub fn validate(&self, targets: &Vec<TargetConfig>, target_selector: &Option<String>) -> (r:
        Result<(), HttpDragonflyError>)
        ensures
            r is Ok <==> strategy_requirements(
                *self,
                targets_view(targets@),
                match target_selector {
                    Some(s) => Some(s@),
                    None => None::<Seq<char>>,
                },
            ),
            r matches Err(e) ==> e is ValidateConfig,
    {
        let n = targets.len();
        match *self {
            ResponseStrategy::ConditionalRouting => {
                let mut i: usize = 0;
                proof {
                    assert(all_have_conditions(targets_view(targets@).take(0)));
                }
                while i < n
                    invariant
                        *self is ConditionalRouting,
                        n == targets@.len(),
                        i <= n,
                        all_have_conditions(targets_view(targets@).take(i as int)),
                    decreases n - i,
                {
                    proof {
                        let ghost tv = targets_view(targets@);
                        assert(tv.take(i + 1).drop_last() =~= tv.take(i as int));
                        assert(tv.take(i + 1).last() == tv[i as int]);
                    }
                    if targets[i].condition().is_none() {
                        proof {
                            lemma_all_have_conditions_index(targets_view(targets@), i as int);
                        }
                        return Err(
                            HttpDragonflyError::ValidateConfig {
                                cause: String::from_str(
                                    "all targets must have condition defined because strategy is `conditional_routing`",
                                ),
                            },
                        );
                    }
                    i = i + 1;
                }
                proof {
                    assert(targets_view(targets@).take(n as int) =~= targets_view(targets@));
                }
                let mut count: usize = 0;
                let mut i: usize = 0;
                proof {
                    assert(targets_view(targets@).take(0) =~= Seq::<TargetView>::empty());
                }
                while i < n
                    invariant
                        n == targets@.len(),
                        i <= n,
                        count <= i,
                        count == count_defaults(targets_view(targets@).take(i as int)),
                    decreases n - i,
                {
                    let is_default = match targets[i].condition() {
                        Some(c) => c.is_default(),
                        None => false,
                    };
                    proof {
                        let ghost tv = targets_view(targets@);
                        assert(tv.take(i + 1).drop_last() =~= tv.take(i as int));
                        assert(tv.take(i + 1).last() == tv[i as int]);
                    }
                    if is_default {
                        count = count + 1;
                    }
                    i = i + 1;
                }
                proof {
                    assert(targets_view(targets@).take(n as int) =~= targets_view(targets@));
                }
                if count > 1 {
                    return Err(
                        HttpDragonflyError::ValidateConfig {
                            cause: String::from_str(
                                "more than one default target is defined but only one is allowed",
                            ),
                        },
                    );
                }
                Ok(())
            },
            ResponseStrategy::AlwaysTargetId
            | ResponseStrategy::FailedThenTargetId
            | ResponseStrategy::OkThenTargetId => {
                match target_selector {
                    None => Err(
                        HttpDragonflyError::ValidateConfig {
                            cause: String::from_str(
                                "`target_selector` should be specified for the strategy",
                            ),
                        },
                    ),
                    Some(sel) => {
                        let mut i: usize = 0;
                        proof {
                            assert(!id_known(targets_view(targets@).take(0), sel@));
                        }
                        while i < n
                            invariant
                                *self is AlwaysTargetId || *self is FailedThenTargetId
                                    || *self is OkThenTargetId,
                                target_selector matches Some(s) && s@ == sel@,
                                n == targets@.len(),
                                i <= n,
                                !id_known(targets_view(targets@).take(i as int), sel@),
                            decreases n - i,
                        {
                            proof {
                                let ghost tv = targets_view(targets@);
                                assert(tv.take(i + 1).drop_last() =~= tv.take(i as int));
                                assert(tv.take(i + 1).last() == tv[i as int]);
                            }
                            let id = targets[i].id();
                            if str_eq(id.as_str(), sel.as_str()) {
                                proof {
                                    lemma_id_known_index(targets_view(targets@), i as int);
                                }
                                return Ok(());
                            }
                            i = i + 1;
                        }
                        proof {
                            assert(targets_view(targets@).take(n as int) =~= targets_view(
                                targets@,
                            ));
                        }
                        Err(
                            HttpDragonflyError::ValidateConfig {
                                cause: String::from_str(
                                    "`target_selector` points to unknown target_id",
                                ),
                            },
                        )
                    },
                }
            },
            _ => Ok(()),
        }
    }
}

} // verus!
