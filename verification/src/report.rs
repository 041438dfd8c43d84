//! The text of the fund profile as the command line shows it.

use crate::eastmoney::FundProfile;
use crate::text::{chars_of, split, split_exec, string_of, trim, trimmed, utf8_len};
use vstd::prelude::*;

verus! {

/// The text of each line.
pub open spec fn lines_view(v: Seq<String>) -> Seq<Seq<char>> {
    v.map_values(|s: String| s@)
}

/// The rule under a title: sixty `=`.
pub open spec fn double_rule() -> Seq<char> {
    "============================================================"@
}

/// The rule under a section title: sixty `-`.
pub open spec fn single_rule() -> Seq<char> {
    "------------------------------------------------------------"@
}

/// `label + value` when the value is not empty; nothing otherwise.
pub open spec fn labeled_if_set(label: Seq<char>, value: Seq<char>) -> Seq<Seq<char>> {
    if value.len() == 0 {
        Seq::empty()
    } else {
        seq![label + value]
    }
}

/// A section: an empty line, the title, a rule and the body lines.
pub open spec fn section(title: Seq<char>, body: Seq<Seq<char>>) -> Seq<Seq<char>> {
    seq![Seq::empty(), title, single_rule()] + body
}

/// A section shown only when its text is not empty.
pub open spec fn section_if_set(title: Seq<char>, text: Seq<char>) -> Seq<Seq<char>> {
    if text.len() == 0 {
        Seq::empty()
    } else {
        section(title, seq![text])
    }
}

/// The non-empty pieces of `parts`, each trimmed.
pub open spec fn trimmed_nonempty(parts: Seq<Seq<char>>) -> Seq<Seq<char>>
    decreases parts.len(),
{
    if parts.len() == 0 {
        Seq::empty()
    } else {
        let rest = trimmed_nonempty(parts.drop_last());
        if parts.last().len() == 0 {
            rest
        } else {
            rest.push(trim(parts.last()))
        }
    }
}

/// The investment scope: split into its sentences at `。` when it is
/// longer than 80 bytes, else as it stands.
pub open spec fn scope_lines(scope: Seq<char>) -> Seq<Seq<char>> {
    if utf8_len(scope) > 80 {
        trimmed_nonempty(split(scope, "。"@))
    } else {
        seq![scope]
    }
}

/// The lines of the profile; the numbers come as text already written:
/// the tenure in years, the tenure return and the fees in percent.
pub open spec fn profile_report(
    p: FundProfile,
    tenure_years: Seq<char>,
    total_return_pct: Seq<char>,
    management_fee_pct: Seq<char>,
    custody_fee_pct: Option<Seq<char>>,
) -> Seq<Seq<char>> {
    seq!["基金概况"@, double_rule()] + labeled_if_set("基金全称: "@, p.full_name@) + seq![
        "基金简称: "@ + p.name@,
        "基金代码: "@ + p.code@,
    ] + labeled_if_set("基金类型: "@, p.fund_type@) + labeled_if_set(
        "成立日期: "@,
        p.establishment_date@,
    ) + labeled_if_set("资产规模: "@, p.asset_size@) + labeled_if_set("管理公司: "@, p.company@)
        + section_if_set("业绩比较基准"@, p.benchmark@) + section(
        "基金经理"@,
        seq![
            "姓名: "@ + p.manager_name@,
            "任期: "@ + tenure_years + " 年"@,
            "任职回报: "@ + total_return_pct + "%"@,
        ],
    ) + section(
        "费率信息"@,
        seq!["管理费率: "@ + management_fee_pct + "%"@] + match custody_fee_pct {
            Some(c) => seq!["托管费率: "@ + c + "%"@],
            None => Seq::empty(),
        },
    ) + section_if_set("投资目标"@, p.investment_target@) + if p.investment_scope@.len() == 0 {
        Seq::<Seq<char>>::empty()
    } else {
        section("投资范围"@, scope_lines(p.investment_scope@))
    }
}

/// The profile report shows each field under its own label: the short
/// name and code always, the full name, type, start date, size and
/// management company each exactly as the profile holds it whenever it is
/// not empty, the benchmark and investment target texts when set, the
/// manager's name, tenure and tenure return, the management fee and, when
/// given, the custody fee.
pub proof fn lemma_profile_report_fields(
    p: FundProfile,
    tenure_years: Seq<char>,
    total_return_pct: Seq<char>,
    management_fee_pct: Seq<char>,
    custody_fee_pct: Option<Seq<char>>,
)
    ensures
        ({
            let lines = profile_report(p, tenure_years, total_return_pct, management_fee_pct, custody_fee_pct);
            &&& lines[0] == "基金概况"@
            &&& (p.full_name@.len() > 0 ==> lines.contains("基金全称: "@ + p.full_name@))
            &&& lines.contains("基金简称: "@ + p.name@)
            &&& lines.contains("基金代码: "@ + p.code@)
            &&& (p.fund_type@.len() > 0 ==> lines.contains("基金类型: "@ + p.fund_type@))
            &&& (p.establishment_date@.len() > 0 ==> lines.contains("成立日期: "@ + p.establishment_date@))
            &&& (p.asset_size@.len() > 0 ==> lines.contains("资产规模: "@ + p.asset_size@))
            &&& (p.company@.len() > 0 ==> lines.contains("管理公司: "@ + p.company@))
            &&& (p.benchmark@.len() > 0 ==> lines.contains(p.benchmark@))
            &&& lines.contains("姓名: "@ + p.manager_name@)
            &&& lines.contains("任期: "@ + tenure_years + " 年"@)
            &&& lines.contains("任职回报: "@ + total_return_pct + "%"@)
            &&& lines.contains("管理费率: "@ + management_fee_pct + "%"@)
            &&& (custody_fee_pct matches Some(c) ==> lines.contains("托管费率: "@ + c + "%"@))
            &&& (p.investment_target@.len() > 0 ==> lines.contains(p.investment_target@))
        }),
{
    let s0 = seq!["基金概况"@, double_rule()];
    let s1 = s0 + labeled_if_set("基金全称: "@, p.full_name@);
    let s2 = s1 + seq!["基金简称: "@ + p.name@, "基金代码: "@ + p.code@];
    let s3 = s2 + labeled_if_set("基金类型: "@, p.fund_type@);
    let s4 = s3 + labeled_if_set("成立日期: "@, p.establishment_date@);
    let s5 = s4 + labeled_if_set("资产规模: "@, p.asset_size@);
    let s6 = s5 + labeled_if_set("管理公司: "@, p.company@);
    let s7 = s6 + section_if_set("业绩比较基准"@, p.benchmark@);
    let mgr = seq![
        "姓名: "@ + p.manager_name@,
        "任期: "@ + tenure_years + " 年"@,
        "任职回报: "@ + total_return_pct + "%"@,
    ];
    let s8 = s7 + section("基金经理"@, mgr);
    let fees = seq!["管理费率: "@ + management_fee_pct + "%"@] + match custody_fee_pct {
        Some(c) => seq!["托管费率: "@ + c + "%"@],
        None => Seq::empty(),
    };
    let s9 = s8 + section("费率信息"@, fees);
    let s10 = s9 + section_if_set("投资目标"@, p.investment_target@);
    let tail = if p.investment_scope@.len() == 0 {
        Seq::<Seq<char>>::empty()
    } else {
        section("投资范围"@, scope_lines(p.investment_scope@))
    };
    let lines = profile_report(p, tenure_years, total_return_pct, management_fee_pct, custody_fee_pct);
    assert(lines == s10 + tail);
    assert(lines[0] == "基金概况"@);
    if p.full_name@.len() > 0 {
        assert(lines[s0.len() as int] == "基金全称: "@ + p.full_name@);
    }
    assert(lines[s1.len() as int] == "基金简称: "@ + p.name@);
    assert(lines[s1.len() as int + 1] == "基金代码: "@ + p.code@);
    if p.fund_type@.len() > 0 {
        assert(lines[s2.len() as int] == "基金类型: "@ + p.fund_type@);
    }
    if p.establishment_date@.len() > 0 {
        assert(lines[s3.len() as int] == "成立日期: "@ + p.establishment_date@);
    }
    if p.asset_size@.len() > 0 {
        assert(lines[s4.len() as int] == "资产规模: "@ + p.asset_size@);
    }
    if p.company@.len() > 0 {
        assert(lines[s5.len() as int] == "管理公司: "@ + p.company@);
    }
    if p.benchmark@.len() > 0 {
        assert(lines[s6.len() as int + 3] == p.benchmark@);
    }
    assert(lines[s7.len() as int + 3] == "姓名: "@ + p.manager_name@);
    assert(lines[s7.len() as int + 4] == "任期: "@ + tenure_years + " 年"@);
    assert(lines[s7.len() as int + 5] == "任职回报: "@ + total_return_pct + "%"@);
    assert(lines[s8.len() as int + 3] == "管理费率: "@ + management_fee_pct + "%"@);
    if let Some(c) = custody_fee_pct {
        assert(lines[s8.len() as int + 4] == "托管费率: "@ + c + "%"@);
    }
    if p.investment_target@.len() > 0 {
        assert(lines[s9.len() as int + 3] == p.investment_target@);
    }
}

fn push_line(v: &mut Vec<String>, s: String)
    ensures
        lines_view(final(v)@) == lines_view(old(v)@).push(s@),
{
    let ghost before = v@;
    v.push(s);
    assert(lines_view(v@) =~= lines_view(before).push(s@));
}

fn push_labeled(v: &mut Vec<String>, label: &str, value: &String)
    ensures
        lines_view(final(v)@) == lines_view(old(v)@) + labeled_if_set(label@, value@),
{
    if value.as_str().unicode_len() == 0 {
        assert(lines_view(v@) + Seq::<Seq<char>>::empty() =~= lines_view(v@));
    } else {
        let ghost before = lines_view(v@);
        push_line(v, String::from_str(label).concat(value.as_str()));
        assert(lines_view(v@) =~= before + labeled_if_set(label@, value@));
    }
}

fn push_section_head(v: &mut Vec<String>, title: &str)
    ensures
        lines_view(final(v)@) == lines_view(old(v)@) + seq![Seq::<char>::empty(), title@, single_rule()],
{
    let ghost before = lines_view(v@);
    push_line(v, String::new());
    push_line(v, String::from_str(title));
    push_line(v, String::from_str("------------------------------------------------------------"));
    assert(lines_view(v@) =~= before + seq![Seq::<char>::empty(), title@, single_rule()]);
}

fn push_section_if_set(v: &mut Vec<String>, title: &str, text: &String)
    ensures
        lines_view(final(v)@) == lines_view(old(v)@) + section_if_set(title@, text@),
{
    if text.as_str().unicode_len() == 0 {
        assert(lines_view(v@) + Seq::<Seq<char>>::empty() =~= lines_view(v@));
    } else {
        let ghost before = lines_view(v@);
        push_section_head(v, title);
        push_line(v, text.clone());
        assert(lines_view(v@) =~= before + section(title@, seq![text@]));
    }
}

fn push_scope(v: &mut Vec<String>, scope: &String)
    ensures
        lines_view(final(v)@) == lines_view(old(v)@) + scope_lines(scope@),
{
    let cs = chars_of(scope.as_str());
    if crate::text::utf8_len_exceeds(cs.as_slice(), 80) {
        let stop = chars_of("。");
        proof {
            reveal_strlit("。");
        }
        let parts = split_exec(cs.as_slice(), stop.as_slice());
        let ghost ps = split(scope@, "。"@);
        let ghost before = lines_view(v@);
        let mut i: usize = 0;
        assert(ps.take(0) =~= Seq::<Seq<char>>::empty());
        assert(before + Seq::<Seq<char>>::empty() =~= before);
        while i < parts.len()
            invariant
                i <= parts@.len(),
                parts@.len() == ps.len(),
                forall|j: int| 0 <= j < parts@.len() ==> (#[trigger] parts@[j])@ == ps[j],
                lines_view(v@) == before + trimmed_nonempty(ps.take(i as int)),
            decreases parts@.len() - i,
        {
            proof {
                assert(ps.take(i + 1).drop_last() =~= ps.take(i as int));
                assert(ps.take(i + 1).last() == ps[i as int]);
            }
            if parts[i].len() > 0 {
                let ghost mid = lines_view(v@);
                let t = trimmed(parts[i].as_slice());
                push_line(v, string_of(t.as_slice()));
                assert(lines_view(v@) =~= before + trimmed_nonempty(ps.take(i + 1)));
            }
            i += 1;
        }
        assert(ps.take(i as int) =~= ps);
    } else {
        push_line(v, scope.clone());
    }
}

/// The profile as the command line shows it, line by line.
pub fn profile_report_lines(
    p: &FundProfile,
    tenure_years: &str,
    total_return_pct: &str,
    management_fee_pct: &str,
    custody_fee_pct: Option<&str>,
) -> (v: Vec<String>)
    ensures
        lines_view(v@) == profile_report(
            *p,
            tenure_years@,
            total_return_pct@,
            management_fee_pct@,
            match custody_fee_pct {
                Some(c) => Some(c@),
                None => None,
            },
        ),
{
    let mut v: Vec<String> = Vec::new();
    push_line(&mut v, String::from_str("基金概况"));
    push_line(&mut v, String::from_str("============================================================"));
    let ghost a = lines_view(v@);
    push_labeled(&mut v, "基金全称: ", &p.full_name);
    push_line(&mut v, String::from_str("基金简称: ").concat(p.name.as_str()));
    push_line(&mut v, String::from_str("基金代码: ").concat(p.code.as_str()));
    let ghost b = lines_view(v@);
    push_labeled(&mut v, "基金类型: ", &p.fund_type);
    push_labeled(&mut v, "成立日期: ", &p.establishment_date);
    push_labeled(&mut v, "资产规模: ", &p.asset_size);
    push_labeled(&mut v, "管理公司: ", &p.company);
    let ghost c = lines_view(v@);
    push_section_if_set(&mut v, "业绩比较基准", &p.benchmark);
    let ghost d = lines_view(v@);
    push_section_head(&mut v, "基金经理");
    push_line(&mut v, String::from_str("姓名: ").concat(p.manager_name.as_str()));
    push_line(&mut v, crate::text::join3("任期: ", tenure_years, " 年"));
    push_line(&mut v, crate::text::join3("任职回报: ", total_return_pct, "%"));
    let ghost e = lines_view(v@);
    push_section_head(&mut v, "费率信息");
    push_line(&mut v, crate::text::join3("管理费率: ", management_fee_pct, "%"));
    match custody_fee_pct {
        Some(cf) => push_line(&mut v, crate::text::join3("托管费率: ", cf, "%")),
        None => {},
    }
    let ghost f = lines_view(v@);
    push_section_if_set(&mut v, "投资目标", &p.investment_target);
    let ghost g = lines_view(v@);
    if p.investment_scope.as_str().unicode_len() > 0 {
        push_section_head(&mut v, "投资范围");
        push_scope(&mut v, &p.investment_scope);
    }
    proof {
        let want = profile_report(
            *p,
            tenure_years@,
            total_return_pct@,
            management_fee_pct@,
            match custody_fee_pct {
                Some(c) => Some(c@),
                None => None,
            },
        );
        assert(lines_view(v@) =~= want);
    }
    v
}

} // verus!
