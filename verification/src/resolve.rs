//! Turning what the user typed (a fund code or a fund name) into a code
//! and a name, with the name cache and, online, the data service.

use crate::cache::FundCache;
use crate::text::{chars_of, join3};
use vstd::prelude::*;

verus! {

/// Six ASCII digits: taken for a fund code.
pub open spec fn likely_code(id: Seq<char>) -> bool {
    id.len() == 6 && forall|i: int| 0 <= i < 6 ==> crate::numbers::is_digit(#[trigger] id[i])
}

/// `likely_code(id@)`.
pub fn is_likely_code(id: &str) -> (b: bool)
    ensures
        b == likely_code(id@),
{
    let cs = chars_of(id);
    if cs.len() != 6 {
        return false;
    }
    let mut i: usize = 0;
    while i < 6
        invariant
            i <= 6,
            cs@ == id@,
            cs@.len() == 6,
            forall|j: int| 0 <= j < i ==> crate::numbers::is_digit(#[trigger] id@[j]),
        decreases 6 - i,
    {
        if !('0' <= cs[i] && cs[i] <= '9') {
            return false;
        }
        i += 1;
    }
    true
}

/// What resolving an identifier needs next.
#[derive(Debug, Clone)]
pub enum IdentifierStep {
    /// The code and the name.
    Resolved(String, String),
    /// A code whose name is not cached: ask the service for it.
    FetchName(String),
    /// A name whose code is not cached: search the service for it.
    Search,
    /// The identifier cannot be resolved; the message says why.
    Failed(String),
}

pub enum StepView {
    Resolved(Seq<char>, Seq<char>),
    FetchName(Seq<char>),
    Search,
    Failed(Seq<char>),
}

impl View for IdentifierStep {
    type V = StepView;

    open spec fn view(&self) -> StepView {
        match self {
            IdentifierStep::Resolved(c, n) => StepView::Resolved(c@, n@),
            IdentifierStep::FetchName(c) => StepView::FetchName(c@),
            IdentifierStep::Search => StepView::Search,
            IdentifierStep::Failed(m) => StepView::Failed(m@),
        }
    }
}

/// The message for a name that cannot be resolved offline.
pub open spec fn offline_name_message(id: Seq<char>) -> Seq<char> {
    "`--offline` 无法解析名称 `"@ + id + "`，请先在线跑一次或直接使用 6 位代码"@
}

/// The first step of resolving `id` with a cache whose maps are `names`
/// (code to name) and `codes` (name to code). A code resolves to its cached
/// name; offline, to itself without one, online it needs the service. A
/// name resolves to its cached code; offline it fails without one, online
/// it needs a search.
pub open spec fn identifier_step(
    names: Map<Seq<char>, Seq<char>>,
    codes: Map<Seq<char>, Seq<char>>,
    id: Seq<char>,
    offline: bool,
) -> StepView {
    if likely_code(id) {
        if names.contains_key(id) {
            StepView::Resolved(id, names[id])
        } else if offline {
            StepView::Resolved(id, id)
        } else {
            StepView::FetchName(id)
        }
    } else if codes.contains_key(id) {
        StepView::Resolved(codes[id], id)
    } else if offline {
        StepView::Failed(offline_name_message(id))
    } else {
        StepView::Search
    }
}

/// The first step of resolving `identifier`.
pub fn resolve_identifier_step(cache: &FundCache, identifier: &str, offline: bool) -> (r:
    IdentifierStep)
    ensures
        r@ == identifier_step(cache@.0, cache@.1, identifier@, offline),
{
    if is_likely_code(identifier) {
        match cache.get_name(identifier) {
            Some(name) => IdentifierStep::Resolved(String::from_str(identifier), name),
            None => if offline {
                IdentifierStep::Resolved(String::from_str(identifier), String::from_str(identifier))
            } else {
                IdentifierStep::FetchName(String::from_str(identifier))
            },
        }
    } else {
        match cache.get_code(identifier) {
            Some(code) => IdentifierStep::Resolved(code, String::from_str(identifier)),
            None => if offline {
                IdentifierStep::Failed(
                    join3(
                        "`--offline` 无法解析名称 `",
                        identifier,
                        "`，请先在线跑一次或直接使用 6 位代码",
                    ),
                )
            } else {
                IdentifierStep::Search
            },
        }
    }
}

/// The name of `code` once the service was asked: the name it gave, which
/// is then cached; the code itself when it gave none.
pub fn fund_name_fetched(cache: &mut FundCache, code: &str, fetched: Option<String>) -> (r: String)
    ensures
        match fetched {
            Some(n) => r@ == n@ && final(cache)@.0 == old(cache)@.0.insert(code@, n@)
                && final(cache)@.1 == old(cache)@.1.insert(n@, code@),
            None => r@ == code@ && final(cache)@ == old(cache)@,
        },
{
    match fetched {
        Some(name) => {
            cache.set_mapping(code, name.as_str());
            name
        },
        None => String::from_str(code),
    }
}

/// The message of a search that found nothing.
pub open spec fn not_found_message(id: Seq<char>) -> Seq<char> {
    "未找到与 `"@ + id + "` 匹配的基金"@
}

/// The message of a search that failed.
pub open spec fn search_failed_message(e: Seq<char>) -> Seq<char> {
    "基金搜索失败："@ + e
}

/// The code and name of `identifier` once the service was searched: the
/// first result, which is then cached; an error when there is none or the
/// search failed (`results` holds its message).
pub fn identifier_searched(
    cache: &mut FundCache,
    identifier: &str,
    results: Result<Vec<(String, String)>, String>,
) -> (r: Result<(String, String), String>)
    ensures
        match results {
            Ok(v) => if v@.len() > 0 {
                r matches Ok((c, n)) && c@ == v@[0].0@ && n@ == v@[0].1@ && final(cache)@.0
                    == old(cache)@.0.insert(c@, n@) && final(cache)@.1 == old(cache)@.1.insert(
                    n@,
                    c@,
                )
            } else {
                (r matches Err(m) && m@ == not_found_message(identifier@)) && final(cache)@
                    == old(cache)@
            },
            Err(e) => (r matches Err(m) && m@ == search_failed_message(e@)) && final(cache)@
                == old(cache)@,
        },
{
    match results {
        Ok(v) => {
            if v.len() > 0 {
                let code = v[0].0.clone();
                let name = v[0].1.clone();
                cache.set_mapping(code.as_str(), name.as_str());
                Ok((code, name))
            } else {
                Err(join3("未找到与 `", identifier, "` 匹配的基金"))
            }
        },
        Err(e) => Err(String::from_str("基金搜索失败：").concat(e.as_str())),
    }
}

/// What a search resolves is remembered: afterwards the name resolves to
/// the same code from the cache alone, offline too, and the code to the
/// same name.
pub proof fn lemma_search_result_is_remembered(
    names: Map<Seq<char>, Seq<char>>,
    codes: Map<Seq<char>, Seq<char>>,
    code: Seq<char>,
    name: Seq<char>,
    offline: bool,
)
    requires
        !likely_code(name),
    ensures
        identifier_step(names.insert(code, name), codes.insert(name, code), name, offline)
            == StepView::Resolved(code, name),
        likely_code(code) ==> identifier_step(
            names.insert(code, name),
            codes.insert(name, code),
            code,
            offline,
        ) == StepView::Resolved(code, name),
{
}

} // verus!
