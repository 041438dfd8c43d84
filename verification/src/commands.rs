//! The decisions of the command layer: output profiles, online checks and
//! which funds a command works on.

use crate::text::{join3, trimmed, ascii_lower_exec, ascii_lower_all, chars_eq, chars_of, trim};
use vstd::prelude::*;

verus! {

#[verifier::external_type_specification]
#[verifier::external_body]
pub struct ExPathBuf(std::path::PathBuf);

/// How much a structured (JSON) answer holds.
#[derive(Debug, Clone, Copy, PartialEq, Eq, Default)]
pub enum OutputProfile {
    /// Scalar snapshots only: no series and no holding details.
    Summary,
    /// No series; the business fields are kept.
    #[default]
    Standard,
    /// Everything, series included.
    Full,
}

impl OutputProfile {
    /// Reads `summary`, `standard` or `full`.
    pub fn parse(s: &str) -> (r: Result<OutputProfile, String>)
        ensures
            s@ == "summary"@ ==> r == Ok::<OutputProfile, String>(OutputProfile::Summary),
            s@ == "standard"@ ==> r == Ok::<OutputProfile, String>(OutputProfile::Standard),
            s@ == "full"@ ==> r == Ok::<OutputProfile, String>(OutputProfile::Full),
            s@ != "summary"@ && s@ != "standard"@ && s@ != "full"@ ==> (r matches Err(e) && e@
                == "无效 profile："@ + s@ + "，可选 summary/standard/full"@),
    {
        proof {
            reveal_strlit("summary");
            reveal_strlit("standard");
            reveal_strlit("full");
            assert("summary"@.len() == 7);
            assert("standard"@.len() == 8);
            assert("full"@.len() == 4);
        }
        let v = chars_of(s);
        if chars_eq(v.as_slice(), chars_of("summary").as_slice()) {
            Ok(OutputProfile::Summary)
        } else if chars_eq(v.as_slice(), chars_of("standard").as_slice()) {
            Ok(OutputProfile::Standard)
        } else if chars_eq(v.as_slice(), chars_of("full").as_slice()) {
            Ok(OutputProfile::Full)
        } else {
            Err(join3("无效 profile：", s, "，可选 summary/standard/full"))
        }
    }

    /// Series are left out in every profile but `full`.
    pub fn compact_series(self) -> (b: bool)
        ensures
            b == (self != OutputProfile::Full),
    {
        !matches!(self, OutputProfile::Full)
    }

    /// Single-line JSON in `summary` and `standard`.
    pub fn json_compact(self) -> (b: bool)
        ensures
            b == (self == OutputProfile::Summary || self == OutputProfile::Standard),
    {
        matches!(self, OutputProfile::Summary | OutputProfile::Standard)
    }

    /// Only `summary` is the summary mode.
    pub fn summary_mode(self) -> (b: bool)
        ensures
            b == (self == OutputProfile::Summary),
    {
        matches!(self, OutputProfile::Summary)
    }
}

/// The structured-output switches of one command run.
#[derive(Debug, Clone, Copy)]
pub struct StructuredOutput {
    pub enabled: bool,
    pub json_compact: bool,
    pub compact_series: bool,
    /// The profile the switches came from, when one was named.
    pub profile: Option<OutputProfile>,
}

impl StructuredOutput {
    /// Structured output switched off.
    pub fn off() -> (r: StructuredOutput)
        ensures
            !r.enabled && !r.json_compact && !r.compact_series && r.profile is None,
    {
        StructuredOutput { enabled: false, json_compact: false, compact_series: false, profile: None }
    }

    pub fn new(enabled: bool, json_compact: bool, compact_series: bool) -> (r: StructuredOutput)
        ensures
            r.enabled == enabled,
            r.json_compact == json_compact,
            r.compact_series == compact_series,
            r.profile is None,
    {
        StructuredOutput { enabled, json_compact, compact_series, profile: None }
    }

    pub fn with_profile(
        enabled: bool,
        json_compact: bool,
        compact_series: bool,
        profile: Option<OutputProfile>,
    ) -> (r: StructuredOutput)
        ensures
            r.enabled == enabled,
            r.json_compact == json_compact,
            r.compact_series == compact_series,
            r.profile == profile,
    {
        StructuredOutput { enabled, json_compact, compact_series, profile }
    }
}

/// The switches of the `json` command: a named profile decides both
/// switches; without one, the `--compact` and `--compact-series` flags do.
pub fn json_structured_output(compact: bool, compact_series: bool, profile: Option<String>) -> (r:
    Result<StructuredOutput, String>)
    ensures
        match profile {
            None => r == Ok::<StructuredOutput, String>(
                StructuredOutput { enabled: true, json_compact: compact, compact_series, profile: None },
            ),
            Some(p) => if p@ == "summary"@ || p@ == "standard"@ || p@ == "full"@ {
                &&& r matches Ok(so)
                &&& so.enabled
                &&& so.profile matches Some(pr)
                &&& so.json_compact == (pr != OutputProfile::Full)
                &&& so.compact_series == (pr != OutputProfile::Full)
                &&& (p@ == "summary"@ <==> pr == OutputProfile::Summary)
                &&& (p@ == "full"@ <==> pr == OutputProfile::Full)
            } else {
                r matches Err(e) && e@ == "无效 profile："@ + p@ + "，可选 summary/standard/full"@
            },
        },
{
    match profile {
        Some(p) => {
            let pr = OutputProfile::parse(p.as_str())?;
            Ok(StructuredOutput::with_profile(true, pr.json_compact(), pr.compact_series(), Some(pr)))
        },
        None => Ok(StructuredOutput::new(true, compact, compact_series)),
    }
}

/// The message of a command that needs the network in offline mode.
pub open spec fn offline_message(cmd: Seq<char>) -> Seq<char> {
    "`"@ + cmd + "` 需要访问网络，勿使用 `--offline`"@
}

/// Refuses a command that needs the network when running offline.
pub fn require_online(offline: bool, cmd: &str) -> (r: Result<(), String>)
    ensures
        !offline ==> r is Ok,
        offline ==> (r matches Err(e) && e@ == offline_message(cmd@)),
{
    if offline {
        return Err(join3("`", cmd, "` 需要访问网络，勿使用 `--offline`"));
    }
    Ok(())
}

/// What `resolve_fund_ids` answers: the watchlist entries when the
/// watchlist is asked for (an error when it holds none), else the one code
/// given (an error naming the flag when none is).
pub open spec fn fund_ids(
    code: Option<Seq<char>>,
    pick_watchlist: bool,
    watchlist_path: Seq<char>,
    watchlist: Seq<Seq<char>>,
    flag_hint: Seq<char>,
) -> Result<Seq<Seq<char>>, Seq<char>> {
    if pick_watchlist {
        if watchlist.len() == 0 {
            Err("自选列表为空或无有效项："@ + watchlist_path)
        } else {
            Ok(watchlist)
        }
    } else {
        match code {
            None => Err("请指定 `"@ + flag_hint + "`"@),
            Some(c) => Ok(seq![c]),
        }
    }
}

/// The views of a list of strings.
pub open spec fn views(v: Seq<String>) -> Seq<Seq<char>> {
    v.map_values(|s: String| s@)
}

/// The view of an optional string.
pub open spec fn opt_str(o: Option<String>) -> Option<Seq<char>> {
    match o {
        Some(s) => Some(s@),
        None => None,
    }
}

/// The view of a list-or-message result.
pub open spec fn ids_view(r: Result<Vec<String>, String>) -> Result<Seq<Seq<char>>, Seq<char>> {
    match r {
        Ok(v) => Ok(views(v@)),
        Err(e) => Err(e@),
    }
}

/// The funds a single-fund command works on: `--code`, or every entry of
/// the watchlist (already read from `watchlist_path`) with `--watchlist`.
pub fn resolve_fund_ids(
    code: Option<String>,
    pick_watchlist: bool,
    watchlist_path: &str,
    watchlist: Vec<String>,
    flag_hint: &str,
) -> (r: Result<Vec<String>, String>)
    ensures
        ids_view(r) == fund_ids(
            opt_str(code),
            pick_watchlist,
            watchlist_path@,
            views(watchlist@),
            flag_hint@,
        ),
{
    if pick_watchlist {
        if watchlist.len() == 0 {
            return Err(String::from_str("自选列表为空或无有效项：").concat(watchlist_path));
        }
        Ok(watchlist)
    } else {
        match code {
            None => Err(join3("请指定 `", flag_hint, "`")),
            Some(c) => {
                let mut v: Vec<String> = Vec::new();
                v.push(c);
                proof {
                    assert(views(v@) =~= seq![c@]);
                }
                Ok(v)
            },
        }
    }
}

/// What `resolve_many_fund_ids` answers: the watchlist entries with
/// `--watchlist` (an error when it holds none), else the codes given (an
/// error when there are none).
pub open spec fn many_fund_ids(
    codes: Seq<Seq<char>>,
    pick_watchlist: bool,
    watchlist_path: Seq<char>,
    watchlist: Seq<Seq<char>>,
) -> Result<Seq<Seq<char>>, Seq<char>> {
    if pick_watchlist {
        if watchlist.len() == 0 {
            Err("自选列表为空或无有效项："@ + watchlist_path)
        } else {
            Ok(watchlist)
        }
    } else if codes.len() == 0 {
        Err("请提供 --codes 或使用 --watchlist"@)
    } else {
        Ok(codes)
    }
}

/// The funds a multi-fund command works on.
pub fn resolve_many_fund_ids(
    codes: Vec<String>,
    pick_watchlist: bool,
    watchlist_path: &str,
    watchlist: Vec<String>,
) -> (r: Result<Vec<String>, String>)
    ensures
        ids_view(r) == many_fund_ids(
            views(codes@),
            pick_watchlist,
            watchlist_path@,
            views(watchlist@),
        ),
{
    if pick_watchlist {
        if watchlist.len() == 0 {
            return Err(String::from_str("自选列表为空或无有效项：").concat(watchlist_path));
        }
        Ok(watchlist)
    } else if codes.len() == 0 {
        Err(String::from_str("请提供 --codes 或使用 --watchlist"))
    } else {
        Ok(codes)
    }
}

/// `require_online` as the command-line layer names it.
pub fn no_offline(offline: bool, cmd: &str) -> (r: Result<(), String>)
    ensures
        !offline ==> r is Ok,
        offline ==> (r matches Err(e) && e@ == offline_message(cmd@)),
{
    require_online(offline, cmd)
}

/// `resolve_fund_ids` as the command-line layer names it.
pub fn identifiers_one_or_watchlist(
    code: Option<String>,
    pick_watchlist: bool,
    path: &str,
    watchlist: Vec<String>,
    flag_hint: &str,
) -> (r: Result<Vec<String>, String>)
    ensures
        ids_view(r) == fund_ids(opt_str(code), pick_watchlist, path@, views(watchlist@), flag_hint@),
{
    resolve_fund_ids(code, pick_watchlist, path, watchlist, flag_hint)
}

/// `resolve_many_fund_ids` as the command-line layer names it.
pub fn identifiers_many_or_watchlist(
    codes: Vec<String>,
    pick_watchlist: bool,
    path: &str,
    watchlist: Vec<String>,
) -> (r: Result<Vec<String>, String>)
    ensures
        ids_view(r) == many_fund_ids(views(codes@), pick_watchlist, path@, views(watchlist@)),
{
    resolve_many_fund_ids(codes, pick_watchlist, path, watchlist)
}

/// The code given positionally and the one given with `--code`.
#[derive(Debug, Clone, Default)]
pub struct FundCodeArg {
    /// The positional fund code or name.
    pub positional: Option<String>,
    /// The fund code or name given with `-c` / `--code`.
    pub flag: Option<String>,
}

impl FundCodeArg {
    /// Either form, or an error when both are given and differ.
    pub fn resolve(&self) -> (r: Result<Option<String>, String>)
        ensures
            match (self.positional, self.flag) {
                (Some(p), Some(f)) => if p@ != f@ {
                    r matches Err(e) && e@ == "位置参数 `"@ + p@ + "` 与 --code `"@ + f@
                        + "` 不一致，请只指定一种方式"@
                } else {
                    r matches Ok(Some(x)) && x@ == p@
                },
                (Some(p), None) => r matches Ok(Some(x)) && x@ == p@,
                (None, Some(f)) => r matches Ok(Some(x)) && x@ == f@,
                (None, None) => r matches Ok(None),
            },
    {
        match (&self.positional, &self.flag) {
            (Some(p), Some(f)) => {
                if *p != *f {
                    return Err(crate::text::join5(
                        "位置参数 `",
                        p.as_str(),
                        "` 与 --code `",
                        f.as_str(),
                        "` 不一致，请只指定一种方式",
                    ));
                }
                Ok(Some(p.clone()))
            },
            (Some(p), None) => Ok(Some(p.clone())),
            (None, Some(f)) => Ok(Some(f.clone())),
            (None, None) => Ok(None),
        }
    }
}

/// The ranking type code for a `--kind`, matched after trimming and ASCII
/// lower-casing.
pub open spec fn rank_ft(kind: Seq<char>) -> Option<Seq<char>> {
    let k = ascii_lower_all(trim(kind));
    if k == "gp"@ || k == "股票"@ || k == "股票型"@ {
        Some("gp"@)
    } else if k == "hh"@ || k == "混合"@ || k == "混合型"@ {
        Some("hh"@)
    } else if k == "zq"@ || k == "债券"@ || k == "债券型"@ {
        Some("zq"@)
    } else if k == "zs"@ || k == "指数"@ || k == "指数型"@ {
        Some("zs"@)
    } else if k == "qdii"@ {
        Some("qdii"@)
    } else if k == "fof"@ || k == "fof型"@ {
        Some("fof"@)
    } else {
        None
    }
}

pub(crate) fn is_lit(k: &[char], lit: &str) -> (b: bool)
    ensures
        b == (k@ == lit@),
{
    let l = chars_of(lit);
    chars_eq(k, l.as_slice())
}

/// Maps a `--kind` (`gp`/`hh`/`zq`/`zs`/`qdii`/`fof` or a Chinese alias) to
/// the ranking type code.
pub fn rank_ft_code(kind: &str) -> (r: Result<&'static str, String>)
    ensures
        match rank_ft(kind@) {
            Some(ft) => r matches Ok(x) && x@ == ft,
            None => r matches Err(e) && e@
                == "`--kind` 须为 gp/hh/zq/zs/qdii/fof 或中文别名（股票/混合/债券/指数）"@,
        },
{
    let raw = chars_of(kind);
    let t = trimmed(raw.as_slice());
    let k = ascii_lower_exec(t.as_slice());
    let k = k.as_slice();
    if is_lit(k, "gp") || is_lit(k, "股票") || is_lit(k, "股票型") {
        Ok("gp")
    } else if is_lit(k, "hh") || is_lit(k, "混合") || is_lit(k, "混合型") {
        Ok("hh")
    } else if is_lit(k, "zq") || is_lit(k, "债券") || is_lit(k, "债券型") {
        Ok("zq")
    } else if is_lit(k, "zs") || is_lit(k, "指数") || is_lit(k, "指数型") {
        Ok("zs")
    } else if is_lit(k, "qdii") {
        Ok("qdii")
    } else if is_lit(k, "fof") || is_lit(k, "fof型") {
        Ok("fof")
    } else {
        Err(String::from_str("`--kind` 须为 gp/hh/zq/zs/qdii/fof 或中文别名（股票/混合/债券/指数）"))
    }
}

/// `s` cut to `max_chars` characters, with `..` appended when cut.
pub fn truncate_string(s: &str, max_chars: usize) -> (r: String)
    ensures
        s@.len() <= max_chars ==> r@ == s@,
        s@.len() > max_chars ==> r@ == s@.take(max_chars as int) + ".."@,
{
    let cs = chars_of(s);
    if cs.len() <= max_chars {
        String::from_str(s)
    } else {
        let head = crate::text::string_of(&cs.as_slice()[0..max_chars]);
        proof {
            assert(cs@.subrange(0, max_chars as int) =~= s@.take(max_chars as int));
        }
        head.concat("..")
    }
}

/// The request of the `analyze` command.
pub struct AnalyzeRequest {
    pub code: Option<String>,
    pub pick_watchlist: bool,
    pub days: u32,
    pub period: Option<String>,
    pub rolling_window: u32,
    pub output: Option<std::path::PathBuf>,
    pub format: String,
}

/// The request of the `brief` command.
pub struct BriefRequest {
    pub code: Option<String>,
    pub pick_watchlist: bool,
    pub days: u32,
    pub period: Option<String>,
    pub industry_top: u32,
    pub holdings_top: u32,
    pub output: Option<std::path::PathBuf>,
}

/// The request of the `compare` command.
pub struct CompareRequest {
    pub codes: Vec<String>,
    pub pick_watchlist: bool,
    pub days: u32,
    pub period: Option<String>,
    pub sort: Option<String>,
    pub output: Option<std::path::PathBuf>,
    pub format: String,
}

/// The request of the `export` command.
pub struct ExportRequest {
    pub code: Option<String>,
    pub pick_watchlist: bool,
    pub days: u32,
    pub output: Option<String>,
    pub output_dir: Option<String>,
    pub format: String,
}

/// The request of the `portfolio` command.
pub struct PortfolioRequest {
    pub portfolio_path: std::path::PathBuf,
    pub days: u32,
    pub period: Option<String>,
    pub holdings_top: u32,
    pub rolling_window: u32,
    pub output: Option<std::path::PathBuf>,
    pub format: String,
}

/// The request of the `fetch` command.
pub struct FetchRequest {
    pub code: Option<String>,
    pub pick_watchlist: bool,
    pub limit: u32,
}

/// The request of the `info` command.
pub struct InfoRequest {
    pub code: Option<String>,
    pub pick_watchlist: bool,
}

/// The request of the `rank` command.
pub struct RankRequest {
    pub kind: String,
    pub top: u32,
    pub sort: String,
}

/// What the `rank` command asks the service for: the ranking type code
/// and the trimmed sort column; or why it asks for nothing (offline, a
/// `--top` outside 1 to 500, an unknown `--kind`, an empty `--sort`, in
/// that order).
pub open spec fn rank_plan_spec(
    offline: bool,
    kind: Seq<char>,
    top: u32,
    sort: Seq<char>,
) -> Result<(Seq<char>, Seq<char>), Seq<char>> {
    if offline {
        Err(offline_message("rank"@))
    } else if top == 0 {
        Err("`--top` 须 ≥ 1"@)
    } else if top > 500 {
        Err("`--top` 上限为 500"@)
    } else {
        match rank_ft(kind) {
            None => Err("`--kind` 须为 gp/hh/zq/zs/qdii/fof 或中文别名（股票/混合/债券/指数）"@),
            Some(ft) => if trim(sort).len() == 0 {
                Err("`--sort` 不能为空（默认可用 1n）"@)
            } else {
                Ok((ft, trim(sort)))
            },
        }
    }
}

impl RankRequest {
    /// The ranking type code and sort column of the request, checked.
    pub fn plan(&self, offline: bool) -> (r: Result<(&'static str, String), String>)
        ensures
            match rank_plan_spec(offline, self.kind@, self.top, self.sort@) {
                Ok((ft, sc)) => r matches Ok((f, s)) && f@ == ft && s@ == sc,
                Err(m) => r matches Err(e) && e@ == m,
            },
    {
        require_online(offline, "rank")?;
        if self.top == 0 {
            return Err(String::from_str("`--top` 须 ≥ 1"));
        }
        if self.top > 500 {
            return Err(String::from_str("`--top` 上限为 500"));
        }
        let ft = rank_ft_code(self.kind.as_str())?;
        let sc = trimmed(chars_of(self.sort.as_str()).as_slice());
        if sc.len() == 0 {
            return Err(String::from_str("`--sort` 不能为空（默认可用 1n）"));
        }
        Ok((ft, crate::text::string_of(sc.as_slice())))
    }
}

/// The request of the `sectors` command.
pub struct SectorsRequest {
    pub code: Option<String>,
    pub pick_watchlist: bool,
}

/// The request of the `holdings` command.
pub struct HoldingsRequest {
    pub code: Option<String>,
    pub pick_watchlist: bool,
    pub top: u32,
}

/// The options of the command-line `analyze`.
pub struct AnalyzeOpts {
    pub code: Option<String>,
    pub pick_watchlist: bool,
    pub days: u32,
    pub period: Option<String>,
}

/// The options of the command-line `compare`.
pub struct CompareOpts {
    pub codes: Vec<String>,
    pub days: u32,
    pub period: Option<String>,
    pub sort: Option<String>,
    pub output: Option<std::path::PathBuf>,
    pub format: String,
}

/// One entry of the watchlist answer.
#[derive(Debug, Clone)]
pub struct WatchlistItem {
    pub code: String,
}

/// The watchlist entries as answer items, in order.
pub fn watchlist_items(funds: Vec<String>) -> (items: Vec<WatchlistItem>)
    ensures
        items@.len() == funds@.len(),
        forall|i: int| 0 <= i < funds@.len() ==> (#[trigger] items@[i]).code@ == funds@[i]@,
{
    let mut items: Vec<WatchlistItem> = Vec::new();
    let mut i: usize = 0;
    while i < funds.len()
        invariant
            i <= funds@.len(),
            items@.len() == i,
            forall|j: int| 0 <= j < i ==> (#[trigger] items@[j]).code@ == funds@[j]@,
        decreases funds@.len() - i,
    {
        items.push(WatchlistItem { code: funds[i].clone() });
        i += 1;
    }
    items
}

/// What a watchlist action changes.
#[derive(Debug, Clone)]
pub enum WatchlistAction {
    /// Lists the watchlist.
    List,
    /// Appends fund codes.
    Add { codes: Vec<String> },
    /// Removes fund codes.
    Remove { codes: Vec<String> },
}

} // verus!
