//! The expression syntax tree: a closed set of variants, the only data type
//! crossing component boundaries. Nodes are immutable after construction;
//! the parser is the sole producer.

use vstd::prelude::*;

verus! {

broadcast use vstd::std_specs::vec::axiom_vec_index_decreases;

/// One node of a schedule expression.
///
/// A whole schedule is a `CronExpr` holding one sub-expression for each of
/// the five fields (minute, hour, day of month, month, day of week).
#[derive(Debug, PartialEq)]
pub enum Expr {
    /// Marker for an absent step modifier; never matches on its own.
    NoOp,
    /// A literal field value.
    ValueExpr(u8),
    /// Matches only when the field holds its maximum for the current context
    /// (for day of month: the last day of the current month).
    LastValueExpr,
    /// Matches every value (`*`).
    AnyValueExpr,
    /// Every `option`-th unit counted from the base of `digit` (`*/n`).
    PerExpr { digit: Box<Expr>, option: Box<Expr> },
    /// An inclusive range `from..=to`, optionally stepped by `per_option`
    /// (`a-b` or `a-b/n`).
    RangeExpr { from: Box<Expr>, to: Box<Expr>, per_option: Box<Expr> },
    /// A non-empty list of alternatives, satisfied if any element matches.
    ListExpr { exprs: Vec<Expr> },
    /// The root: five field sub-expressions combined by logical AND.
    CronExpr {
        mins: Box<Expr>,
        hours: Box<Expr>,
        days: Box<Expr>,
        months: Box<Expr>,
        day_of_weeks: Box<Expr>,
    },
}

/// The mathematical shape of an [`Expr`]: the same tree, with lists as
/// sequences, so that contracts can build and compare trees in ghost code.
#[verifier::ext_equal]
pub enum ExprModel {
    NoOp,
    ValueExpr(u8),
    LastValueExpr,
    AnyValueExpr,
    PerExpr { digit: Box<ExprModel>, option: Box<ExprModel> },
    RangeExpr { from: Box<ExprModel>, to: Box<ExprModel>, per_option: Box<ExprModel> },
    ListExpr { exprs: Seq<ExprModel> },
    CronExpr {
        mins: Box<ExprModel>,
        hours: Box<ExprModel>,
        days: Box<ExprModel>,
        months: Box<ExprModel>,
        day_of_weeks: Box<ExprModel>,
    },
}

impl Expr {
    /// The tree this node denotes, with every list read off as a sequence.
    pub open spec fn model(&self) -> ExprModel
        decreases self,
    {
        match self {
            Expr::NoOp => ExprModel::NoOp,
            Expr::ValueExpr(n) => ExprModel::ValueExpr(*n),
            Expr::LastValueExpr => ExprModel::LastValueExpr,
            Expr::AnyValueExpr => ExprModel::AnyValueExpr,
            Expr::PerExpr { digit, option } => ExprModel::PerExpr {
                digit: Box::new(digit.model()),
                option: Box::new(option.model()),
            },
            Expr::RangeExpr { from, to, per_option } => ExprModel::RangeExpr {
                from: Box::new(from.model()),
                to: Box::new(to.model()),
                per_option: Box::new(per_option.model()),
            },
            Expr::ListExpr { exprs } => ExprModel::ListExpr {
                exprs: Seq::new(
                    exprs@.len(),
                    |i: int|
                        if 0 <= i < exprs.len() {
                            exprs[i].model()
                        } else {
                            ExprModel::NoOp
                        },
                ),
            },
            Expr::CronExpr { mins, hours, days, months, day_of_weeks } => ExprModel::CronExpr {
                mins: Box::new(mins.model()),
                hours: Box::new(hours.model()),
                days: Box::new(days.model()),
                months: Box::new(months.model()),
                day_of_weeks: Box::new(day_of_weeks.model()),
            },
        }
    }
}

impl Clone for Expr {
    /// A structural copy denoting the same tree.
    #[verifier::loop_isolation(false)]
    fn clone(&self) -> (res: Self)
        ensures
            res.model() == self.model(),
        decreases self,
    {
        match self {
            Expr::NoOp => Expr::NoOp,
            Expr::ValueExpr(n) => Expr::ValueExpr(*n),
            Expr::LastValueExpr => Expr::LastValueExpr,
            Expr::AnyValueExpr => Expr::AnyValueExpr,
            Expr::PerExpr { digit, option } => Expr::PerExpr {
                digit: Box::new((**digit).clone()),
                option: Box::new((**option).clone()),
            },
            Expr::RangeExpr { from, to, per_option } => Expr::RangeExpr {
                from: Box::new((**from).clone()),
                to: Box::new((**to).clone()),
                per_option: Box::new((**per_option).clone()),
            },
            Expr::ListExpr { exprs } => {
                let mut copies: Vec<Expr> = Vec::new();
                let mut i: usize = 0;
                while i < exprs.len()
                    invariant
                        i <= exprs.len(),
                        copies@.len() == i as int,
                        forall|k: int|
                            0 <= k < i as int ==> #[trigger] copies@[k].model()
                                == exprs@[k].model(),
                    decreases exprs.len() - i,
                {
                    proof {
                        assert(decreases_to!(*self => (*self)->ListExpr_exprs));
                        vstd::std_specs::vec::axiom_vec_index_decreases::<Expr>(
                            *exprs,
                            i as int,
                        );
                    }
                    copies.push(exprs[i].clone());
                    i = i + 1;
                }
                let res = Expr::ListExpr { exprs: copies };
                proof {
                    let a = res.model();
                    let b = self.model();
                    assert forall|k: int| 0 <= k < a->ListExpr_exprs.len() implies a
                        ->ListExpr_exprs[k] == b->ListExpr_exprs[k] by {
                        assert(copies@[k].model() == exprs@[k].model());
                    }
                    assert(a->ListExpr_exprs =~= b->ListExpr_exprs);
                }
                res
            },
            Expr::CronExpr { mins, hours, days, months, day_of_weeks } => Expr::CronExpr {
                mins: Box::new((**mins).clone()),
                hours: Box::new((**hours).clone()),
                days: Box::new((**days).clone()),
                months: Box::new((**months).clone()),
                day_of_weeks: Box::new((**day_of_weeks).clone()),
            },
        }
    }
}

/// The sequence of trees denoted by a sequence of nodes, element by element.
pub open spec fn models_seq(s: Seq<Expr>) -> Seq<ExprModel> {
    Seq::new(
        s.len(),
        |k: int|
            if 0 <= k < s.len() {
                s[k].model()
            } else {
                ExprModel::NoOp
            },
    )
}

/// A list node denotes the list of the trees its elements denote.
pub proof fn lemma_list_model(e: Expr)
    requires
        e is ListExpr,
    ensures
        e.model() matches ExprModel::ListExpr { exprs: ms } && ms == models_seq(
            e->ListExpr_exprs@,
        ),
{
    assert(e.model()->ListExpr_exprs =~= models_seq(e->ListExpr_exprs@));
}

} // verus!
