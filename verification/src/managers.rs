//! The current-manager block of the F10 manager page (`jjjl`).

use crate::text::{
    chars_of, find, find_from_exec, lemma_find_from, prefix_within_bytes,
    prefix_within_bytes_exec, string_of, trim, trimmed, utf8_len, utf8_width, utf8_width_exec,
};
use vstd::prelude::*;

verus! {

/// A current manager of the fund and the day they took it over.
#[derive(Debug, Clone, PartialEq, Eq)]
pub struct ManagerAppointment {
    pub name: String,
    /// The day the manager took over this fund (`YYYY-MM-DD`).
    pub start_date: String,
}

impl View for ManagerAppointment {
    type V = (Seq<char>, Seq<char>);

    open spec fn view(&self) -> (Seq<char>, Seq<char>) {
        (self.name@, self.start_date@)
    }
}

/// The name that follows a `姓名：</strong>` label: the text of the first
/// link after it, trimmed, when there is a link and it holds text; else the
/// text up to the next `<` (or, with no `<` left, the longest start that
/// fits in 32 bytes), trimmed. A link whose `>` or closing `<` is missing
/// gives no name.
pub open spec fn name_after_label(a: Seq<char>) -> Option<Seq<char>> {
    let end = match find(a, seq!['<']) {
        Some(e) => e,
        None => prefix_within_bytes(a, 32) as int,
    };
    let plain = trim(a.take(end));
    let fallback = if plain.len() == 0 {
        None
    } else {
        Some(plain)
    };
    match find(a, "<a"@) {
        None => fallback,
        Some(ai) => {
            let from_a = a.skip(ai);
            match find(from_a, seq!['>']) {
                None => None,
                Some(gt) => {
                    let inner = from_a.skip(gt + 1);
                    match find(inner, seq!['<']) {
                        None => None,
                        Some(close) => {
                            let name = trim(inner.take(close));
                            if name.len() > 0 {
                                Some(name)
                            } else {
                                fallback
                            }
                        },
                    }
                },
            }
        },
    }
}

/// The byte at offset `b` of the UTF-8 form of `s` is `-`.
pub open spec fn dash_at_byte(s: Seq<char>, b: int) -> bool
    decreases s.len(),
{
    if s.len() == 0 || b < 0 {
        false
    } else if b == 0 {
        s[0] == '-'
    } else if b < utf8_width(s[0]) {
        false
    } else {
        dash_at_byte(s.drop_first(), b - utf8_width(s[0]))
    }
}

/// Ten bytes long with a `-` as the fifth byte, as `YYYY-MM-DD` is.
pub open spec fn date_like(s: Seq<char>) -> bool {
    utf8_len(s) == 10 && dash_at_byte(s, 4)
}

/// The first (up to) ten characters of `s`.
pub open spec fn first_ten(s: Seq<char>) -> Seq<char> {
    if s.len() < 10 {
        s
    } else {
        s.take(10)
    }
}

/// The appointments found in `rest`, in order. Each `姓名：</strong>`
/// label is read with `name_after_label`; when it gives no name the scan
/// goes on one character after the label; when no `上任日期：</strong>`
/// follows, the scan goes on right after the label; else the first ten
/// characters after the date label are taken, kept when `date_like`, and the
/// scan goes on after the date label.
pub open spec fn managers_in(rest: Seq<char>) -> Seq<(Seq<char>, Seq<char>)>
    decreases rest.len(),
{
    let nm = "姓名：</strong>"@;
    let dm = "上任日期：</strong>"@;
    match find(rest, nm) {
        None => seq![],
        Some(ni) => {
            proof {
                reveal_strlit("姓名：</strong>");
                lemma_find_from(rest, nm, 0);
            }
            let after = rest.skip(ni + nm.len());
            match name_after_label(after) {
                None => managers_in(after.skip(if after.len() > 0 { 1int } else { 0int })),
                Some(name) => match find(after, dm) {
                    None => managers_in(after),
                    Some(dr) => {
                        proof {
                            lemma_find_from(after, dm, 0);
                        }
                        let ad = after.skip(dr + dm.len());
                        let sd = first_ten(ad);
                        if date_like(sd) {
                            seq![(name, sd)] + managers_in(ad)
                        } else {
                            managers_in(ad)
                        }
                    },
                },
            }
        },
    }
}

fn find_in(a: &[char], p: &[char]) -> (r: Option<usize>)
    ensures
        match find(a@, p@) {
            Some(k) => 0 <= k <= a@.len() && r == Some(k as usize),
            None => r is None,
        },
        a@.len() <= usize::MAX,
        r matches Some(k) ==> k + p@.len() <= a@.len(),
{
    let r = find_from_exec(a, p, 0);
    r
}

/// `name_after_label(a)`.
fn name_after_label_exec(a: &[char]) -> (r: Option<Vec<char>>)
    ensures
        match name_after_label(a@) {
            Some(n) => r matches Some(v) && v@ == n,
            None => r is None,
        },
{
    let lt = ['<'];
    let gt = ['>'];
    let link = chars_of("<a");
    proof {
        assert(lt@ =~= seq!['<']);
        assert(gt@ =~= seq!['>']);
    }
    let end = match find_in(a, &lt) {
        Some(e) => e,
        None => prefix_within_bytes_exec(a, 0, 32),
    };
    proof {
        assert(a@.skip(0) =~= a@);
    }
    let plain = trimmed(&a[0..end]);
    proof {
        assert(a@.subrange(0, end as int) =~= a@.take(end as int));
    }
    let ai = find_in(a, link.as_slice());
    match ai {
        None => {
            if plain.len() == 0 {
                None
            } else {
                Some(plain)
            }
        },
        Some(ai) => {
            let from_a = &a[ai..a.len()];
            proof {
                assert(from_a@ =~= a@.skip(ai as int));
            }
            match find_in(from_a, &gt) {
                None => None,
                Some(g) => {
                    let inner = &from_a[g + 1..from_a.len()];
                    proof {
                        assert(inner@ =~= from_a@.skip(g + 1));
                    }
                    match find_in(inner, &lt) {
                        None => None,
                        Some(close) => {
                            let name = trimmed(&inner[0..close]);
                            proof {
                                assert(inner@.subrange(0, close as int) =~= inner@.take(
                                    close as int,
                                ));
                            }
                            if name.len() > 0 {
                                Some(name)
                            } else if plain.len() == 0 {
                                None
                            } else {
                                Some(plain)
                            }
                        },
                    }
                },
            }
        },
    }
}

/// `date_like(s)`.
fn date_like_exec(s: &[char]) -> (b: bool)
    ensures
        b == date_like(s@),
{
    let mut total: usize = 0;
    let mut i: usize = 0;
    while i < s.len()
        invariant
            i <= s@.len(),
            total == utf8_len(s@.take(i as int)),
            total <= 10,
        decreases s.len() - i,
    {
        let w = utf8_width_exec(s[i]);
        assert(s@.take(i + 1).drop_last() =~= s@.take(i as int));
        if total + w > 10 {
            proof {
                lemma_utf8_len_prefix(s@, i + 1);
            }
            return false;
        }
        total = total + w;
        i += 1;
    }
    assert(s@.take(i as int) =~= s@);
    if total != 10 {
        return false;
    }
    let mut j: usize = 0;
    let mut b: usize = 4;
    while j < s.len()
        invariant
            j <= s@.len(),
            b <= 4,
            utf8_len(s@) == 10,
            dash_at_byte(s@, 4) == dash_at_byte(s@.skip(j as int), b as int),
        decreases s.len() - j,
    {
        let ghost t = s@.skip(j as int);
        assert(t[0] == s@[j as int]);
        if b == 0 {
            return s[j] == '-';
        }
        let w = utf8_width_exec(s[j]);
        if b < w {
            return false;
        }
        assert(t.drop_first() =~= s@.skip(j + 1));
        b = b - w;
        j += 1;
    }
    false
}

proof fn lemma_utf8_len_prefix(s: Seq<char>, i: int)
    requires
        0 <= i <= s.len(),
    ensures
        utf8_len(s.take(i)) <= utf8_len(s),
    decreases s.len() - i,
{
    if i < s.len() {
        lemma_utf8_len_prefix(s, i + 1);
        assert(s.take(i + 1).drop_last() =~= s.take(i));
    } else {
        assert(s.take(i) =~= s);
    }
}

/// Names and start days of the current managers in the manager page, in
/// page order.
pub fn parse_current_managers(html: &str) -> (out: Vec<ManagerAppointment>)
    ensures
        out@.map_values(|m: ManagerAppointment| m@) == managers_in(html@),
{
    let s = chars_of(html);
    let nm = chars_of("姓名：</strong>");
    let dm = chars_of("上任日期：</strong>");
    proof {
        reveal_strlit("姓名：</strong>");
    }
    let mut out: Vec<ManagerAppointment> = Vec::new();
    let mut pos: usize = 0;
    proof {
        assert(s@.skip(0) =~= s@);
    }
    loop
        invariant
            pos <= s@.len(),
            nm@ == "姓名：</strong>"@,
            dm@ == "上任日期：</strong>"@,
            nm@.len() > 0,
            managers_in(html@) =~= out@.map_values(|m: ManagerAppointment| m@) + managers_in(
                s@.skip(pos as int),
            ),
            s@ == html@,
        decreases s@.len() - pos,
    {
        let ghost rest = s@.skip(pos as int);
        let rest_s = &s.as_slice()[pos..s.len()];
        assert(rest_s@ =~= rest);
        let r = find_in(rest_s, nm.as_slice());
        match r {
            None => {
                assert(managers_in(rest) =~= Seq::<(Seq<char>, Seq<char>)>::empty());
                return out;
            },
            Some(ni) => {
                let a0 = pos + ni + nm.len();
                let after = &s.as_slice()[a0..s.len()];
                assert(after@ =~= rest.skip(ni + nm@.len()));
                assert(after@ =~= s@.skip(a0 as int));
                let name = name_after_label_exec(after);
                match name {
                    None => {
                        let step: usize = if after.len() > 0 {
                            1
                        } else {
                            0
                        };
                        assert(after@.skip(step as int) =~= s@.skip(a0 + step));
                        pos = a0 + step;
                    },
                    Some(name) => {
                        let rd = find_in(after, dm.as_slice());
                        match rd {
                            None => {
                                pos = a0;
                            },
                            Some(dr) => {
                                let d0 = a0 + dr + dm.len();
                                let ad = &s.as_slice()[d0..s.len()];
                                assert(ad@ =~= after@.skip(dr + dm@.len()));
                                assert(ad@ =~= s@.skip(d0 as int));
                                let n = if ad.len() < 10 {
                                    ad.len()
                                } else {
                                    10
                                };
                                let sd = &ad[0..n];
                                assert(sd@ =~= first_ten(ad@));
                                if date_like_exec(sd) {
                                    let ghost before = out@.map_values(
                                        |m: ManagerAppointment| m@,
                                    );
                                    let m = ManagerAppointment {
                                        name: string_of(name.as_slice()),
                                        start_date: string_of(sd),
                                    };
                                    out.push(m);
                                    assert(out@.map_values(|m: ManagerAppointment| m@) =~= before
                                        + seq![(name@, sd@)]);
                                }
                                pos = d0;
                            },
                        }
                    },
                }
            },
        }
    }
}

} // verus!
