//! The decisions of the batch commands (`analyze`, `brief`, `compare`, the
//! query commands, `screen`): how per-fund outcomes are split and when a
//! batch has failed as a whole, how the screening pool is sized, and the
//! rows of the comparison tables.

use vstd::prelude::*;
use vstd::string::StringExecFns;
use vstd::string::StrSliceExecFns;

verus! {

/// The successful values of a run of outcomes, in order.
pub open spec fn ok_values<T>(s: Seq<Result<T, String>>) -> Seq<T>
    decreases s.len(),
{
    if s.len() == 0 {
        Seq::empty()
    } else {
        match s.last() {
            Ok(x) => ok_values(s.drop_last()).push(x),
            Err(_) => ok_values(s.drop_last()),
        }
    }
}

/// The error messages of a run of outcomes, in order.
pub open spec fn err_values<T>(s: Seq<Result<T, String>>) -> Seq<String>
    decreases s.len(),
{
    if s.len() == 0 {
        Seq::empty()
    } else {
        match s.last() {
            Ok(_) => err_values(s.drop_last()),
            Err(e) => err_values(s.drop_last()).push(e),
        }
    }
}

/// Every outcome failed (true of an empty run).
pub open spec fn all_failed<T>(s: Seq<Result<T, String>>) -> bool {
    forall|i: int| 0 <= i < s.len() ==> (#[trigger] s[i]) is Err
}

/// Each outcome lands on exactly one side, and nothing succeeded exactly
/// when every outcome failed.
pub proof fn lemma_outcome_counts<T>(s: Seq<Result<T, String>>)
    ensures
        ok_values(s).len() + err_values(s).len() == s.len(),
        ok_values(s).len() == 0 <==> all_failed(s),
    decreases s.len(),
{
    if s.len() > 0 {
        lemma_outcome_counts(s.drop_last());
        let p = s.drop_last();
        assert forall|i: int| 0 <= i < p.len() implies p[i] == s[i] by {}
        if all_failed(s) {
            assert(all_failed(p));
        }
        if !all_failed(s) && s.last() is Err {
            let i = choose|i: int| 0 <= i < s.len() && !((#[trigger] s[i]) is Err);
            assert(i < p.len());
            assert(!(p[i] is Err));
        }
        if all_failed(p) && s.last() is Err {
            assert forall|i: int| 0 <= i < s.len() implies (#[trigger] s[i]) is Err by {
                if i < p.len() {
                    assert(p[i] is Err);
                }
            }
        }
    }
}

/// Per-fund outcomes of a batch, split: what succeeded and the message of
/// each failure, both in the order of the funds.
pub struct CompareGather<T> {
    pub items: Vec<T>,
    pub errors: Vec<String>,
}

/// Splits outcomes into the successful values and the failure messages,
/// keeping the order of each side.
pub fn gather_outcomes<T>(outcomes: Vec<Result<T, String>>) -> (g: CompareGather<T>)
    ensures
        g.items@ == ok_values(outcomes@),
        g.errors@ == err_values(outcomes@),
        g.items@.len() + g.errors@.len() == outcomes@.len(),
{
    let ghost all = outcomes@;
    let total = outcomes.len();
    let mut rest = outcomes;
    let mut items: Vec<T> = Vec::new();
    let mut errors: Vec<String> = Vec::new();
    let mut k: usize = 0;
    assert(all.take(0) =~= Seq::<Result<T, String>>::empty());
    while rest.len() > 0
        invariant
            k + rest@.len() == all.len(),
            all.len() == total,
            rest@ == all.skip(k as int),
            items@ == ok_values(all.take(k as int)),
            errors@ == err_values(all.take(k as int)),
        decreases rest@.len(),
    {
        let ghost before = rest@;
        let x = rest.remove(0);
        proof {
            assert(all.take(k + 1).drop_last() =~= all.take(k as int));
            assert(all.take(k + 1).last() == all[k as int]);
            assert(before[0] == all[k as int]);
            assert(rest@ =~= all.skip(k + 1));
        }
        match x {
            Ok(v) => {
                items.push(v);
            },
            Err(e) => {
                errors.push(e);
            },
        }
        k += 1;
    }
    assert(all.take(k as int) =~= all);
    proof {
        lemma_outcome_counts(all);
    }
    CompareGather { items, errors }
}

/// Splits a batch and fails with `message` when nothing succeeded.
fn nonempty_batch<T>(outcomes: Vec<Result<T, String>>, message: &str) -> (r: Result<
    (Vec<T>, Vec<String>, usize),
    String,
>)
    ensures
        r is Err <==> all_failed(outcomes@),
        r matches Err(m) ==> m@ == message@,
        r matches Ok((items, errors, n)) ==> items@ == ok_values(outcomes@) && errors@ == err_values(
            outcomes@,
        ) && n == items@.len() && items@.len() + errors@.len() == outcomes@.len(),
{
    let ghost all = outcomes@;
    let g = gather_outcomes(outcomes);
    proof {
        lemma_outcome_counts(all);
    }
    if g.items.len() == 0 {
        Err(String::from_str(message))
    } else {
        let n = g.items.len();
        Ok((g.items, g.errors, n))
    }
}

/// The outcome of `analyze` over `requested` funds: the reports that came,
/// the messages of the funds that gave none, and how many succeeded; an
/// error when none did.
pub fn batch_outcome<T>(requested: usize, outcomes: Vec<Result<T, String>>) -> (r: Result<
    (Vec<T>, Vec<String>, usize),
    String,
>)
    requires
        outcomes@.len() == requested,
    ensures
        r is Err <==> all_failed(outcomes@),
        r matches Err(m) ==> m@ == "无有效分析结果（数据不足或全部失败）"@,
        r matches Ok((items, errors, succeeded)) ==> items@ == ok_values(outcomes@) && errors@
            == err_values(outcomes@) && succeeded == items@.len() && succeeded + errors@.len()
            == requested,
{
    nonempty_batch(outcomes, "无有效分析结果（数据不足或全部失败）")
}

/// The outcome of `brief` over its funds: the briefs that came and the
/// messages of the others; an error when none came.
pub fn brief_outcome<T>(outcomes: Vec<Result<T, String>>) -> (r: Result<
    (Vec<T>, Vec<String>, usize),
    String,
>)
    ensures
        r is Err <==> all_failed(outcomes@),
        r matches Err(m) ==> m@ == "无有效简报结果"@,
        r matches Ok((items, errors, succeeded)) ==> items@ == ok_values(outcomes@) && errors@
            == err_values(outcomes@) && succeeded == items@.len(),
{
    nonempty_batch(outcomes, "无有效简报结果")
}

/// The outcome of a query command (`fetch`, `info`, `sectors`,
/// `holdings`) over its funds; an error when every entry failed.
pub fn collect_batch<T>(outcomes: Vec<Result<T, String>>) -> (r: Result<
    (Vec<T>, Vec<String>, usize),
    String,
>)
    ensures
        r is Err <==> all_failed(outcomes@),
        r matches Err(m) ==> m@ == "全部条目处理失败"@,
        r matches Ok((items, errors, succeeded)) ==> items@ == ok_values(outcomes@) && errors@
            == err_values(outcomes@) && succeeded == items@.len(),
{
    nonempty_batch(outcomes, "全部条目处理失败")
}

/// `x` held within `lo..=hi` (`u32::clamp`, for `lo <= hi`).
pub open spec fn clamp(x: u32, lo: u32, hi: u32) -> u32 {
    if x < lo {
        lo
    } else if x > hi {
        hi
    } else {
        x
    }
}

/// The sizes of a screening run: how many ranked funds to fetch (5 to 100),
/// how many passing funds to show (2 to 30), and how many of the
/// `n_candidates` that survive the pre-filter to analyse in depth: all of
/// them on a full scan, else at most the deep limit (3 up to the pool).
pub fn screen_plan(rank_top: u32, limit: u32, deep_limit: u32, full_scan: bool, n_candidates: usize) -> (r: (
    u32,
    u32,
    usize,
))
    ensures
        r.0 == clamp(rank_top, 5, 100),
        r.1 == clamp(limit, 2, 30),
        r.2 == if full_scan {
            n_candidates as int
        } else {
            vstd::math::min(n_candidates as int, clamp(deep_limit, 3, r.0) as int)
        },
{
    let pool: u32 = if rank_top < 5 {
        5
    } else if rank_top > 100 {
        100
    } else {
        rank_top
    };
    let show: u32 = if limit < 2 {
        2
    } else if limit > 30 {
        30
    } else {
        limit
    };
    let deep_cap: u32 = if full_scan {
        pool
    } else if deep_limit < 3 {
        3
    } else if deep_limit > pool {
        pool
    } else {
        deep_limit
    };
    let to_analyze: usize = if full_scan {
        n_candidates
    } else if n_candidates < deep_cap as usize {
        n_candidates
    } else {
        deep_cap as usize
    };
    (pool, show, to_analyze)
}

/// A screening run shows no comparison when fewer than two funds passed.
pub fn screen_insufficient(passed_len: usize) -> (b: bool)
    ensures
        b == (passed_len < 2),
{
    passed_len < 2
}

/// A comparison needs at least two funds that gave an analysis.
pub fn compare_insufficient(succeeded: usize) -> (b: bool)
    ensures
        b == (succeeded < 2),
{
    succeeded < 2
}

/// The figures of one analysed fund as the comparison tables show them:
/// each number already written out by the caller (ratios in percent points
/// with two decimals, the other ratios with two decimals, the tenure in
/// years with one), the fees only where they are above zero.
pub struct AnalysisFigures {
    pub code: String,
    pub name: String,
    pub total_return: String,
    pub annualized_return: String,
    pub volatility: String,
    pub max_drawdown: String,
    pub sharpe_ratio: String,
    pub sortino_ratio: String,
    pub calmar_ratio: String,
    pub alpha: String,
    pub beta: String,
    pub management_fee: Option<String>,
    pub custody_fee: Option<String>,
    pub manager_name: String,
    pub tenure_years: String,
    pub manager_total_return: String,
}

/// One row of the fund comparison table.
pub struct ComparisonTableRow {
    pub code: String,
    pub name: String,
    pub total_return: String,
    pub annualized_return: String,
    pub volatility: String,
    pub max_drawdown: String,
    pub sharpe_ratio: String,
    pub sortino_ratio: String,
    pub calmar_ratio: String,
    pub alpha: String,
    pub beta: String,
    pub management_fee: String,
    pub custody_fee: String,
}

/// One row of the manager comparison table.
pub struct ManagerCompareRow {
    pub code: String,
    pub name: String,
    pub manager_name: String,
    pub tenure_years: String,
    pub tenure_return: String,
}

/// A name cut to `n` characters with `..` after it when longer.
pub open spec fn truncated(s: Seq<char>, n: int) -> Seq<char> {
    if s.len() <= n {
        s
    } else {
        s.take(n) + ".."@
    }
}

/// A fee column: the fee in percent, or `-` when there is none.
pub open spec fn fee_cell(f: Option<String>) -> Seq<char> {
    match f {
        Some(t) => t@ + "%"@,
        None => "-"@,
    }
}

/// `r` is the comparison row of `a`: the name cut to 14 characters, a `%`
/// after each percentage, the plain ratios as given, `-` for a missing fee.
pub open spec fn is_comparison_row(a: AnalysisFigures, r: ComparisonTableRow) -> bool {
    &&& r.code@ == a.code@
    &&& r.name@ == truncated(a.name@, 14)
    &&& r.total_return@ == a.total_return@ + "%"@
    &&& r.annualized_return@ == a.annualized_return@ + "%"@
    &&& r.volatility@ == a.volatility@ + "%"@
    &&& r.max_drawdown@ == a.max_drawdown@ + "%"@
    &&& r.sharpe_ratio@ == a.sharpe_ratio@
    &&& r.sortino_ratio@ == a.sortino_ratio@
    &&& r.calmar_ratio@ == a.calmar_ratio@
    &&& r.alpha@ == a.alpha@ + "%"@
    &&& r.beta@ == a.beta@
    &&& r.management_fee@ == fee_cell(a.management_fee)
    &&& r.custody_fee@ == fee_cell(a.custody_fee)
}

fn copy_text(s: &String) -> (r: String)
    ensures
        r@ == s@,
{
    String::from_str(s.as_str())
}

fn percent_text(s: &String) -> (r: String)
    ensures
        r@ == s@ + "%"@,
{
    String::from_str(s.as_str()).concat("%")
}

fn fee_text(f: &Option<String>) -> (r: String)
    ensures
        r@ == fee_cell(*f),
{
    match f {
        Some(t) => percent_text(t),
        None => String::from_str("-"),
    }
}

fn comparison_row(a: &AnalysisFigures) -> (r: ComparisonTableRow)
    ensures
        is_comparison_row(*a, r),
{
    ComparisonTableRow {
        code: copy_text(&a.code),
        name: crate::commands::truncate_string(a.name.as_str(), 14),
        total_return: percent_text(&a.total_return),
        annualized_return: percent_text(&a.annualized_return),
        volatility: percent_text(&a.volatility),
        max_drawdown: percent_text(&a.max_drawdown),
        sharpe_ratio: copy_text(&a.sharpe_ratio),
        sortino_ratio: copy_text(&a.sortino_ratio),
        calmar_ratio: copy_text(&a.calmar_ratio),
        alpha: percent_text(&a.alpha),
        beta: copy_text(&a.beta),
        management_fee: fee_text(&a.management_fee),
        custody_fee: fee_text(&a.custody_fee),
    }
}

/// Each cell of a comparison row holds its own figure of the fund: the
/// code, the name cut to 14 characters with `..`, the return, volatility,
/// drawdown and alpha figures with `%`, the Sharpe, Sortino, Calmar and
/// beta figures as given, and each fee with `%` or `-` without one.
pub proof fn lemma_comparison_row_cells(a: AnalysisFigures, r: ComparisonTableRow)
    requires
        is_comparison_row(a, r),
    ensures
        ({
            &&& r.code@ == a.code@
            &&& (a.name@.len() <= 14 ==> r.name@ == a.name@)
            &&& (a.name@.len() > 14 ==> r.name@ == a.name@.take(14) + ".."@)
            &&& r.total_return@ == a.total_return@ + "%"@
            &&& r.annualized_return@ == a.annualized_return@ + "%"@
            &&& r.volatility@ == a.volatility@ + "%"@
            &&& r.max_drawdown@ == a.max_drawdown@ + "%"@
            &&& r.sharpe_ratio@ == a.sharpe_ratio@
            &&& r.sortino_ratio@ == a.sortino_ratio@
            &&& r.calmar_ratio@ == a.calmar_ratio@
            &&& r.alpha@ == a.alpha@ + "%"@
            &&& r.beta@ == a.beta@
            &&& r.management_fee@ == match a.management_fee {
                Some(t) => t@ + "%"@,
                None => "-"@,
            }
            &&& r.custody_fee@ == match a.custody_fee {
                Some(t) => t@ + "%"@,
                None => "-"@,
            }
        }),
{
}

/// The comparison table: one row per fund, in the given order.
pub fn comparison_rows(analyses: &[AnalysisFigures]) -> (rows: Vec<ComparisonTableRow>)
    ensures
        rows@.len() == analyses@.len(),
        forall|i: int| 0 <= i < rows@.len() ==> is_comparison_row(analyses@[i], #[trigger] rows@[i]),
        forall|i: int| 0 <= i < rows@.len() ==> {
            let a = analyses@[i];
            let r = #[trigger] rows@[i];
            &&& r.code@ == a.code@
            &&& (a.name@.len() <= 14 ==> r.name@ == a.name@)
            &&& (a.name@.len() > 14 ==> r.name@ == a.name@.take(14) + ".."@)
            &&& r.total_return@ == a.total_return@ + "%"@
            &&& r.annualized_return@ == a.annualized_return@ + "%"@
            &&& r.volatility@ == a.volatility@ + "%"@
            &&& r.max_drawdown@ == a.max_drawdown@ + "%"@
            &&& r.sharpe_ratio@ == a.sharpe_ratio@
            &&& r.sortino_ratio@ == a.sortino_ratio@
            &&& r.calmar_ratio@ == a.calmar_ratio@
            &&& r.alpha@ == a.alpha@ + "%"@
            &&& r.beta@ == a.beta@
            &&& r.management_fee@ == match a.management_fee {
                Some(t) => t@ + "%"@,
                None => "-"@,
            }
            &&& r.custody_fee@ == match a.custody_fee {
                Some(t) => t@ + "%"@,
                None => "-"@,
            }
        },
{
    let mut rows: Vec<ComparisonTableRow> = Vec::new();
    let mut i: usize = 0;
    while i < analyses.len()
        invariant
            i <= analyses@.len(),
            rows@.len() == i,
            forall|j: int| 0 <= j < i ==> is_comparison_row(analyses@[j], #[trigger] rows@[j]),
        decreases analyses@.len() - i,
    {
        let r = comparison_row(&analyses[i]);
        rows.push(r);
        i += 1;
    }
    rows
}

/// The funds that name a manager, in order.
pub open spec fn with_manager(s: Seq<AnalysisFigures>) -> Seq<AnalysisFigures>
    decreases s.len(),
{
    if s.len() == 0 {
        Seq::empty()
    } else if s.last().manager_name@.len() > 0 {
        with_manager(s.drop_last()).push(s.last())
    } else {
        with_manager(s.drop_last())
    }
}

/// `r` is the manager row of `a`: the name cut to 14 characters, the
/// manager, the tenure as given and the tenure return in percent.
pub open spec fn is_manager_row(a: AnalysisFigures, r: ManagerCompareRow) -> bool {
    &&& r.code@ == a.code@
    &&& r.name@ == truncated(a.name@, 14)
    &&& r.manager_name@ == a.manager_name@
    &&& r.tenure_years@ == a.tenure_years@
    &&& r.tenure_return@ == a.manager_total_return@ + "%"@
}

/// A manager row holds the fund's code, its name cut to 14 characters
/// with `..`, its manager, the tenure as given and the tenure return with
/// `%`; and the funds kept for the table are exactly those naming a
/// manager: each kept one names one, all are kept when all do, none when
/// none does.
pub proof fn lemma_manager_rows(a: AnalysisFigures, r: ManagerCompareRow, s: Seq<AnalysisFigures>)
    ensures
        is_manager_row(a, r) ==> {
            &&& r.code@ == a.code@
            &&& (a.name@.len() <= 14 ==> r.name@ == a.name@)
            &&& (a.name@.len() > 14 ==> r.name@ == a.name@.take(14) + ".."@)
            &&& r.manager_name@ == a.manager_name@
            &&& r.tenure_years@ == a.tenure_years@
            &&& r.tenure_return@ == a.manager_total_return@ + "%"@
        },
        with_manager(s).len() <= s.len(),
        forall|i: int| 0 <= i < with_manager(s).len() ==> (#[trigger] with_manager(s)[i]).manager_name@.len() > 0,
        (forall|i: int| 0 <= i < s.len() ==> (#[trigger] s[i]).manager_name@.len() > 0) ==> with_manager(s) == s,
        (forall|i: int| 0 <= i < s.len() ==> (#[trigger] s[i]).manager_name@.len() == 0) ==> with_manager(s).len() == 0,
    decreases s.len(),
{
    if s.len() > 0 {
        let p = s.drop_last();
        lemma_manager_rows(a, r, p);
        assert forall|i: int| 0 <= i < p.len() implies p[i] == s[i] by {}
        if forall|i: int| 0 <= i < s.len() ==> (#[trigger] s[i]).manager_name@.len() > 0 {
            assert(s.last() == s[s.len() - 1]);
            assert forall|i: int| 0 <= i < p.len() implies (#[trigger] p[i]).manager_name@.len() > 0 by {
                assert(p[i] == s[i]);
            }
            assert(p.push(s.last()) =~= s);
        }
        if forall|i: int| 0 <= i < s.len() ==> (#[trigger] s[i]).manager_name@.len() == 0 {
            assert(s.last() == s[s.len() - 1]);
            assert forall|i: int| 0 <= i < p.len() implies (#[trigger] p[i]).manager_name@.len() == 0 by {
                assert(p[i] == s[i]);
            }
        }
        let w = with_manager(s);
        assert forall|i: int| 0 <= i < w.len() implies (#[trigger] w[i]).manager_name@.len() > 0 by {
            if i < with_manager(p).len() {
                assert(w[i] == with_manager(p)[i]);
            }
        }
    }
}

/// The manager table: a row for each fund that names a manager, in the
/// given order; funds without one are left out.
pub fn manager_compare_rows(analyses: &[AnalysisFigures]) -> (rows: Vec<ManagerCompareRow>)
    ensures
        rows@.len() == with_manager(analyses@).len(),
        forall|i: int| 0 <= i < rows@.len() ==> is_manager_row(with_manager(analyses@)[i], #[trigger] rows@[i]),
{
    let mut rows: Vec<ManagerCompareRow> = Vec::new();
    let mut i: usize = 0;
    assert(analyses@.take(0) =~= Seq::<AnalysisFigures>::empty());
    while i < analyses.len()
        invariant
            i <= analyses@.len(),
            rows@.len() == with_manager(analyses@.take(i as int)).len(),
            forall|j: int| 0 <= j < rows@.len() ==> is_manager_row(with_manager(analyses@.take(i as int))[j], #[trigger] rows@[j]),
        decreases analyses@.len() - i,
    {
        let a = &analyses[i];
        proof {
            assert(analyses@.take(i + 1).drop_last() =~= analyses@.take(i as int));
            assert(analyses@.take(i + 1).last() == analyses@[i as int]);
        }
        if a.manager_name.unicode_len() > 0 {
            let r = ManagerCompareRow {
                code: copy_text(&a.code),
                name: crate::commands::truncate_string(a.name.as_str(), 14),
                manager_name: copy_text(&a.manager_name),
                tenure_years: copy_text(&a.tenure_years),
                tenure_return: percent_text(&a.manager_total_return),
            };
            rows.push(r);
        }
        i += 1;
    }
    assert(analyses@.take(i as int) =~= analyses@);
    rows
}

} // verus!
