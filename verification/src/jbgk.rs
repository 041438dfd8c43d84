//! The fund fact sheet of the F10 pages (`jbgk`).

use crate::f10::{clean_html, clean_html_exec};
use crate::numbers::is_digit;
use crate::text::{
    chars_of, concat3, contains, contains_lit, find, find_in_suffix, opt_view,
    prefix_within_bytes, prefix_within_bytes_exec, string_of, trim, trimmed, without_prefix,
    starts_with_exec,
};
use vstd::prelude::*;

verus! {

/// The cell after a header cell: the text of the first `<td ...>...</td>`
/// after `<th>label</th>`, cleaned.
pub open spec fn td_after_th(html: Seq<char>, label: Seq<char>) -> Option<Seq<char>> {
    let th = "<th>"@ + label + "</th>"@;
    match find(html, th) {
        None => None,
        Some(idx) => {
            let tail = html.skip(idx + th.len());
            match find(tail, "<td"@) {
                None => None,
                Some(o) => {
                    let after_open = tail.skip(o);
                    match find(after_open, seq!['>']) {
                        None => None,
                        Some(g) => {
                            let inner = after_open.skip(g + 1);
                            match find(inner, "</td>"@) {
                                None => None,
                                Some(c) => Some(clean_html(inner.take(c))),
                            }
                        },
                    }
                },
            }
        },
    }
}

/// The text between `open` and the first `</td>` after it, where `open` is
/// the first occurrence of the cell opening after `anchor`, cleaned.
pub open spec fn cell_after_anchor(html: Seq<char>, anchor: Seq<char>, open: Seq<char>) -> Option<
    Seq<char>,
> {
    match find(html, anchor) {
        None => None,
        Some(idx) => {
            let tail = html.skip(idx);
            match find(tail, open) {
                None => None,
                Some(o) => {
                    let inner = tail.skip(o + open.len());
                    match find(inner, "</td>"@) {
                        None => None,
                        Some(c) => Some(clean_html(inner.take(c))),
                    }
                },
            }
        },
    }
}

/// The first `<td class="tditem">` cell after `anchor`, cleaned.
pub open spec fn tditem_after_keyword(html: Seq<char>, anchor: Seq<char>) -> Option<Seq<char>> {
    cell_after_anchor(html, anchor, "<td class=\"tditem\">"@)
}

/// The first plain `<td>` cell after `anchor`, cleaned.
pub open spec fn td_after_keyword(html: Seq<char>, anchor: Seq<char>) -> Option<Seq<char>> {
    cell_after_anchor(html, anchor, "<td>"@)
}

fn cleaned_string(s: &[char], lo: usize, hi: usize) -> (r: String)
    requires
        lo <= hi <= s@.len(),
    ensures
        r@ == clean_html(s@.subrange(lo as int, hi as int)),
{
    let v = clean_html_exec(&s[lo..hi]);
    string_of(v.as_slice())
}

/// `td_after_th(html, label)`.
pub fn extract_td_after_th(html: &[char], label: &str) -> (r: Option<String>)
    ensures
        opt_view(r) == td_after_th(html@, label@),
{
    let th = concat3("<th>", label, "</th>");
    let td = chars_of("<td");
    let gt = ['>'];
    let close = chars_of("</td>");
    proof {
        assert(gt@ =~= seq!['>']);
        assert(html@.skip(0) =~= html@);
    }
    let idx = match find_in_suffix(html, 0, th.as_slice()) {
        None => return None,
        Some(i) => i,
    };
    let t0 = idx + th.len();
    let o = match find_in_suffix(html, t0, td.as_slice()) {
        None => return None,
        Some(o) => o,
    };
    proof {
        assert(html@.skip(t0 as int).skip(o - t0) =~= html@.skip(o as int));
    }
    let g = match find_in_suffix(html, o, &gt) {
        None => return None,
        Some(g) => g,
    };
    proof {
        assert(html@.skip(o as int).skip(g - o + 1) =~= html@.skip(g + 1));
    }
    let c = match find_in_suffix(html, g + 1, close.as_slice()) {
        None => return None,
        Some(c) => c,
    };
    proof {
        assert(html@.skip(g + 1).take(c - (g + 1)) =~= html@.subrange(g + 1, c as int));
    }
    Some(cleaned_string(html, g + 1, c))
}

/// `cell_after_anchor(html, anchor, open)`.
fn extract_cell_after_anchor(html: &[char], anchor: &str, open: &str) -> (r: Option<String>)
    ensures
        opt_view(r) == cell_after_anchor(html@, anchor@, open@),
{
    let a = chars_of(anchor);
    let op = chars_of(open);
    let close = chars_of("</td>");
    proof {
        assert(html@.skip(0) =~= html@);
    }
    let idx = match find_in_suffix(html, 0, a.as_slice()) {
        None => return None,
        Some(i) => i,
    };
    let o = match find_in_suffix(html, idx, op.as_slice()) {
        None => return None,
        Some(o) => o,
    };
    let i0 = o + op.len();
    proof {
        assert(html@.skip(idx as int).skip(o - idx + op@.len()) =~= html@.skip(i0 as int));
    }
    let c = match find_in_suffix(html, i0, close.as_slice()) {
        None => return None,
        Some(c) => c,
    };
    proof {
        assert(html@.skip(i0 as int).take(c - i0) =~= html@.subrange(i0 as int, c as int));
    }
    Some(cleaned_string(html, i0, c))
}

/// The first `<td class="tditem">` cell after `anchor`, as plain text.
pub fn extract_tditem_after_keyword(html: &[char], anchor: &str) -> (r: Option<String>)
    ensures
        opt_view(r) == tditem_after_keyword(html@, anchor@),
{
    extract_cell_after_anchor(html, anchor, "<td class=\"tditem\">")
}

/// The first plain `<td>` cell after `anchor`, as plain text.
pub fn extract_td_after_keyword(html: &[char], anchor: &str) -> (r: Option<String>)
    ensures
        opt_view(r) == td_after_keyword(html@, anchor@),
{
    extract_cell_after_anchor(html, anchor, "<td>")
}

/// `s` up to its first `（` or `(` (the first piece of a split at them).
pub open spec fn before_paren(s: Seq<char>) -> Seq<char> {
    match (find(s, seq!['（']), find(s, seq!['('])) {
        (Some(a), Some(b)) => s.take(if a <= b { a } else { b }),
        (Some(a), None) => s.take(a),
        (None, Some(b)) => s.take(b),
        (None, None) => s,
    }
}

/// The trading window: from `交易状态：` on, as much as fits in 500 bytes.
pub open spec fn trade_window(html: Seq<char>, idx: int) -> Seq<char> {
    html.subrange(idx, idx + prefix_within_bytes(html.skip(idx), 500))
}

/// The redemption states that the page may name, in the order they are
/// looked for.
pub open spec fn redeem_status_of(cleaned: Seq<char>) -> Seq<char> {
    if contains(cleaned, "开放赎回"@) {
        "开放赎回"@
    } else if contains(cleaned, "暂停赎回"@) {
        "暂停赎回"@
    } else if contains(cleaned, "限制赎回"@) {
        "限制赎回"@
    } else if contains(cleaned, "封闭期"@) {
        "封闭期"@
    } else {
        seq![]
    }
}

/// Subscription and redemption state from the `交易状态：` block: the
/// cleaned window without its label, up to the first parenthesis, trimmed;
/// and the first redemption state named in the window. Both empty when
/// there is no such block.
pub open spec fn trade_status(html: Seq<char>) -> (Seq<char>, Seq<char>) {
    match find(html, "交易状态："@) {
        None => (seq![], seq![]),
        Some(idx) => {
            let cleaned = clean_html(trade_window(html, idx));
            (
                trim(before_paren(without_prefix(cleaned, "交易状态："@))),
                redeem_status_of(cleaned),
            )
        },
    }
}

fn lit_string(s: &str) -> (r: String)
    ensures
        r@ == s@,
{
    String::from_str(s)
}

/// `trade_status(html)`.
pub fn parse_trade_status(html: &[char]) -> (r: (String, String))
    ensures
        (r.0@, r.1@) == trade_status(html@),
{
    let label = chars_of("交易状态：");
    proof {
        assert(html@.skip(0) =~= html@);
    }
    let idx = match find_in_suffix(html, 0, label.as_slice()) {
        None => return (String::new(), String::new()),
        Some(i) => i,
    };
    let k = prefix_within_bytes_exec(html, idx, 500);
    let cleaned = clean_html_exec(&html[idx..idx + k]);
    let lo: usize = if starts_with_exec(cleaned.as_slice(), label.as_slice()) {
        label.len()
    } else {
        0
    };
    let rest = &cleaned.as_slice()[lo..cleaned.len()];
    proof {
        assert(rest@ =~= without_prefix(cleaned@, "交易状态："@));
        assert(rest@.skip(0) =~= rest@);
    }
    let wide = ['（'];
    let narrow = ['('];
    proof {
        assert(wide@ =~= seq!['（']);
        assert(narrow@ =~= seq!['(']);
    }
    let a = find_in_suffix(rest, 0, &wide);
    let b = find_in_suffix(rest, 0, &narrow);
    let cut = match (a, b) {
        (Some(a), Some(b)) => if a <= b {
            a
        } else {
            b
        },
        (Some(a), None) => a,
        (None, Some(b)) => b,
        (None, None) => rest.len(),
    };
    let head = trimmed(&rest[0..cut]);
    proof {
        assert(rest@.subrange(0, cut as int) =~= before_paren(rest@));
    }
    let sub = string_of(head.as_slice());
    let c = cleaned.as_slice();
    let redeem = if contains_lit(c, "开放赎回") {
        lit_string("开放赎回")
    } else if contains_lit(c, "暂停赎回") {
        lit_string("暂停赎回")
    } else if contains_lit(c, "限制赎回") {
        lit_string("限制赎回")
    } else if contains_lit(c, "封闭期") {
        lit_string("封闭期")
    } else {
        String::new()
    };
    (sub, redeem)
}

/// A percentage figure can start at `i`: a digit, or a `.` that is not the
/// last character.
pub open spec fn pct_start(cs: Seq<char>, i: int) -> bool {
    is_digit(cs[i]) || (cs[i] == '.' && i + 1 < cs.len())
}

/// The end of the run of digits and dots that starts at `i`.
pub open spec fn num_run_end(cs: Seq<char>, i: int) -> int
    decreases cs.len() - i,
{
    if 0 <= i < cs.len() && (is_digit(cs[i]) || cs[i] == '.') {
        num_run_end(cs, i + 1)
    } else {
        i
    }
}

pub proof fn lemma_num_run_end(cs: Seq<char>, i: int)
    requires
        0 <= i <= cs.len(),
    ensures
        i <= num_run_end(cs, i) <= cs.len(),
        i < cs.len() && (is_digit(cs[i]) || cs[i] == '.') ==> num_run_end(cs, i) > i,
    decreases cs.len() - i,
{
    if 0 <= i < cs.len() && (is_digit(cs[i]) || cs[i] == '.') {
        lemma_num_run_end(cs, i + 1);
    }
}

/// The runs of digits and dots directly followed by `%`, from `i` on,
/// in order: the texts that a percentage is read from.
pub open spec fn pct_texts_from(cs: Seq<char>, i: int) -> Seq<Seq<char>>
    decreases cs.len() - i,
{
    if i < 0 || i >= cs.len() {
        seq![]
    } else if pct_start(cs, i) {
        proof {
            lemma_num_run_end(cs, i);
        }
        let j = num_run_end(cs, i);
        if j < cs.len() && cs[j] == '%' {
            seq![cs.subrange(i, j)] + pct_texts_from(cs, j)
        } else {
            pct_texts_from(cs, j)
        }
    } else {
        pct_texts_from(cs, i + 1)
    }
}

/// The number texts directly followed by `%` in `text`, in order.
pub fn percent_texts(text: &str) -> (v: Vec<String>)
    ensures
        v@.map_values(|s: String| s@) == pct_texts_from(text@, 0),
{
    let cs = chars_of(text);
    let mut out: Vec<String> = Vec::new();
    let mut i: usize = 0;
    while i < cs.len()
        invariant
            i <= cs@.len(),
            pct_texts_from(cs@, 0) =~= out@.map_values(|s: String| s@) + pct_texts_from(
                cs@,
                i as int,
            ),
        decreases cs@.len() - i,
    {
        let c = cs[i];
        if ('0' <= c && c <= '9') || (c == '.' && i + 1 < cs.len()) {
            let start = i;
            proof {
                lemma_num_run_end(cs@, i as int);
            }
            while i < cs.len() && (('0' <= cs[i] && cs[i] <= '9') || cs[i] == '.')
                invariant
                    start <= i <= cs@.len(),
                    num_run_end(cs@, start as int) == num_run_end(cs@, i as int),
                decreases cs@.len() - i,
            {
                i += 1;
            }
            if i < cs.len() && cs[i] == '%' {
                let ghost before = out@.map_values(|s: String| s@);
                let piece = string_of(&cs.as_slice()[start..i]);
                out.push(piece);
                assert(out@.map_values(|s: String| s@) =~= before + seq![
                    cs@.subrange(start as int, i as int),
                ]);
            }
        } else {
            i += 1;
        }
    }
    assert(pct_texts_from(cs@, i as int) =~= Seq::<Seq<char>>::empty());
    out
}

/// The index of the first figure that could be read, if any.
pub open spec fn first_readable(ok: Seq<bool>) -> Option<int> {
    if exists|i: int| 0 <= i < ok.len() && ok[i] {
        Some(choose|i: int| 0 <= i < ok.len() && ok[i] && forall|j: int| 0 <= j < i ==> !ok[j])
    } else {
        None
    }
}

/// The index of the first figure that could be read, if any.
pub fn first_readable_exec(ok: &[bool]) -> (r: Option<usize>)
    ensures
        match r {
            Some(i) => i < ok@.len() && ok@[i as int] && forall|j: int|
                0 <= j < i ==> !ok@[j],
            None => forall|j: int| 0 <= j < ok@.len() ==> !ok@[j],
        },
{
    let mut i: usize = 0;
    while i < ok.len()
        invariant
            i <= ok@.len(),
            forall|j: int| 0 <= j < i ==> !ok@[j],
        decreases ok@.len() - i,
    {
        if ok[i] {
            return Some(i);
        }
        i += 1;
    }
    None
}

/// Which figure of a purchase-fee cell counts, given which of its
/// figures (from `percent_texts`) could be read as numbers: the last
/// readable one when the cell names a discount (`优惠`) and at least two
/// are readable, else the first readable one.
pub fn purchase_fee_index(text: &str, readable: &[bool]) -> (r: Option<usize>)
    ensures
        match r {
            None => forall|j: int| 0 <= j < readable@.len() ==> !readable@[j],
            Some(i) => i < readable@.len() && readable@[i as int] && ({
                let count = readable@.filter(|b: bool| b).len();
                if contains(text@, "优惠"@) && count >= 2 {
                    forall|j: int| i < j < readable@.len() ==> !readable@[j]
                } else {
                    forall|j: int| 0 <= j < i ==> !readable@[j]
                }
            }),
        },
{
    let cs = chars_of(text);
    let first = first_readable_exec(readable);
    let mut count: usize = 0;
    let mut last: usize = 0;
    let mut i: usize = 0;
    while i < readable.len()
        invariant
            i <= readable@.len(),
            count <= i,
            count == readable@.take(i as int).filter(|b: bool| b).len(),
            count > 0 ==> last < i && readable@[last as int] && forall|j: int|
                last < j < i ==> !readable@[j],
        decreases readable@.len() - i,
    {
        proof {
            let t = readable@.take(i + 1);
            assert(t.drop_last() =~= readable@.take(i as int));
            reveal_with_fuel(Seq::filter, 1);
        }
        if readable[i] {
            count = count + 1;
            last = i;
        }
        i += 1;
    }
    assert(readable@.take(i as int) =~= readable@);
    match first {
        None => None,
        Some(f) => {
            if contains_lit(cs.as_slice(), "优惠") && count >= 2 {
                Some(last)
            } else {
                Some(f)
            }
        },
    }
}

/// `o.unwrap_or_default()` for an optional text.
pub open spec fn or_empty(o: Option<Seq<char>>) -> Seq<char> {
    match o {
        Some(s) => s,
        None => seq![],
    }
}

/// `a.or(b)` for optional texts.
pub open spec fn or_else(a: Option<Seq<char>>, b: Option<Seq<char>>) -> Option<Seq<char>> {
    match a {
        Some(s) => Some(s),
        None => b,
    }
}

/// The fact sheet as the page states it. The fee fields hold the text of
/// their cells; the figures in them are found with `percent_texts`.
#[derive(Debug, Clone, Default)]
pub struct FundDetailInfo {
    pub full_name: Option<String>,
    pub fund_type: String,
    pub establishment_date: String,
    pub asset_size: String,
    pub company: String,
    pub investment_target: String,
    pub investment_scope: String,
    pub investment_strategy: String,
    pub benchmark: String,
    /// The management-fee cell (yearly, in percent).
    pub management_fee: Option<String>,
    /// The custody-fee cell (yearly, in percent).
    pub custody_fee: Option<String>,
    /// The highest-purchase-fee cell; a discounted tier may follow the list
    /// price.
    pub purchase_fee: Option<String>,
    /// The highest-redemption-fee cell.
    pub redemption_fee: Option<String>,
    /// Subscription state, such as `限大额` or `开放申购`.
    pub subscribe_status: String,
    /// Redemption state, such as `开放赎回`.
    pub redeem_status: String,
}

fn or_empty_exec(o: Option<String>) -> (r: String)
    ensures
        r@ == or_empty(opt_view(o)),
{
    match o {
        Some(s) => s,
        None => String::new(),
    }
}

fn or_else_exec(a: Option<String>, html: &[char], label: &str) -> (r: Option<String>)
    ensures
        opt_view(r) == or_else(opt_view(a), td_after_th(html@, label@)),
{
    match a {
        Some(s) => Some(s),
        None => extract_td_after_th(html, label),
    }
}

/// Reads the fact sheet (`jbgk`) page.
pub fn parse_fund_detail(html: &str) -> (d: FundDetailInfo)
    ensures
        opt_view(d.full_name) == td_after_th(html@, "基金全称"@),
        d.fund_type@ == or_empty(td_after_th(html@, "基金类型"@)),
        d.establishment_date@ == or_empty(
            or_else(td_after_th(html@, "成立日期/规模"@), td_after_th(html@, "成立日期"@)),
        ),
        d.asset_size@ == or_empty(
            or_else(td_after_th(html@, "净资产规模"@), td_after_th(html@, "资产规模"@)),
        ),
        d.company@ == or_empty(td_after_th(html@, "基金管理人"@)),
        d.investment_target@ == or_empty(tditem_after_keyword(html@, "投资目标"@)),
        d.investment_scope@ == or_empty(tditem_after_keyword(html@, "投资范围"@)),
        d.investment_strategy@ == or_empty(tditem_after_keyword(html@, "投资策略"@)),
        d.benchmark@ == or_empty(td_after_th(html@, "业绩比较基准"@)),
        opt_view(d.management_fee) == td_after_th(html@, "管理费率"@),
        opt_view(d.custody_fee) == td_after_th(html@, "托管费率"@),
        opt_view(d.purchase_fee) == td_after_th(html@, "最高申购费率"@),
        opt_view(d.redemption_fee) == td_after_th(html@, "最高赎回费率"@),
        (d.subscribe_status@, d.redeem_status@) == trade_status(html@),
{
    let h = chars_of(html);
    let hs = h.as_slice();
    let purchase = extract_td_after_th(hs, "最高申购费率");
    let (subscribe_status, redeem_status) = parse_trade_status(hs);
    let est = extract_td_after_th(hs, "成立日期/规模");
    let est = or_else_exec(est, hs, "成立日期");
    let size = extract_td_after_th(hs, "净资产规模");
    let size = or_else_exec(size, hs, "资产规模");
    FundDetailInfo {
        full_name: extract_td_after_th(hs, "基金全称"),
        fund_type: or_empty_exec(extract_td_after_th(hs, "基金类型")),
        establishment_date: or_empty_exec(est),
        asset_size: or_empty_exec(size),
        company: or_empty_exec(extract_td_after_th(hs, "基金管理人")),
        investment_target: or_empty_exec(extract_tditem_after_keyword(hs, "投资目标")),
        investment_scope: or_empty_exec(extract_tditem_after_keyword(hs, "投资范围")),
        investment_strategy: or_empty_exec(extract_tditem_after_keyword(hs, "投资策略")),
        benchmark: or_empty_exec(extract_td_after_th(hs, "业绩比较基准")),
        management_fee: extract_td_after_th(hs, "管理费率"),
        custody_fee: extract_td_after_th(hs, "托管费率"),
        purchase_fee: purchase,
        redemption_fee: extract_td_after_th(hs, "最高赎回费率"),
        subscribe_status,
        redeem_status,
    }
}

/// The fact-sheet fields that the fund profile uses, read from plain
/// `<td>` cells after each label (and `tditem` cells for the three
/// investment texts).
#[derive(Debug, Clone, Default)]
pub struct FundDetailBasic {
    pub full_name: Option<String>,
    pub fund_type: String,
    pub establishment_date: String,
    pub asset_size: String,
    pub company: String,
    pub investment_target: String,
    pub investment_scope: String,
    pub investment_strategy: String,
    pub benchmark: String,
}

/// Reads the fact-sheet fields of the fund profile, looking for the
/// first plain `<td>` after each label.
pub fn parse_fund_detail_basic(html: &str) -> (d: FundDetailBasic)
    ensures
        opt_view(d.full_name) == td_after_keyword(html@, "基金全称"@),
        d.fund_type@ == or_empty(td_after_keyword(html@, "基金类型"@)),
        d.establishment_date@ == or_empty(td_after_keyword(html@, "成立日期"@)),
        d.asset_size@ == or_empty(td_after_keyword(html@, "资产规模"@)),
        d.company@ == or_empty(td_after_keyword(html@, "基金管理人"@)),
        d.investment_target@ == or_empty(tditem_after_keyword(html@, "投资目标"@)),
        d.investment_scope@ == or_empty(tditem_after_keyword(html@, "投资范围"@)),
        d.investment_strategy@ == or_empty(tditem_after_keyword(html@, "投资策略"@)),
        d.benchmark@ == or_empty(td_after_keyword(html@, "业绩比较基准"@)),
{
    let h = chars_of(html);
    let hs = h.as_slice();
    FundDetailBasic {
        full_name: extract_td_after_keyword(hs, "基金全称"),
        fund_type: or_empty_exec(extract_td_after_keyword(hs, "基金类型")),
        establishment_date: or_empty_exec(extract_td_after_keyword(hs, "成立日期")),
        asset_size: or_empty_exec(extract_td_after_keyword(hs, "资产规模")),
        company: or_empty_exec(extract_td_after_keyword(hs, "基金管理人")),
        investment_target: or_empty_exec(extract_tditem_after_keyword(hs, "投资目标")),
        investment_scope: or_empty_exec(extract_tditem_after_keyword(hs, "投资范围")),
        investment_strategy: or_empty_exec(extract_tditem_after_keyword(hs, "投资策略")),
        benchmark: or_empty_exec(extract_td_after_keyword(hs, "业绩比较基准")),
    }
}

} // verus!
