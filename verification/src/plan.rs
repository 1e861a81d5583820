use crate::text::{
    append_string, chars_of, decimal, decimal_string, find, find_from_exec, is_digit, push_char,
    slice_chars, split_by, split_chars, string_of, trim, trim_chars,
};
use vstd::prelude::*;

verus! {

/// Whether a trimmed line of a model reply starts a chapter: it mentions
/// `章` and begins with `第` or an ASCII digit ("第1章 …", "3章 …").
pub open spec fn is_chapter_line(l: Seq<char>) -> bool {
    l.contains('章') && l.len() > 0 && (l[0] == '第' || is_digit(l[0]))
}

/// The title in a chapter line: the trimmed text after `章 `, else after the
/// first `章`.
pub open spec fn chapter_line_title(l: Seq<char>) -> Seq<char> {
    match find(l, seq!['章', ' ']) {
        Some(p) => trim(l.skip(p + 2int)),
        None => match find(l, seq!['章']) {
            Some(p) => trim(l.skip(p + 1int)),
            None => l,
        },
    }
}

/// Whether the trimmed line `l` is a chapter line whose title would be cut
/// after `章：` with no `章 ` before: the title is then taken from inside the
/// full-width colon, which the reader refuses (the text cannot be cut there).
pub open spec fn colon_title_line(l: Seq<char>) -> bool {
    &&& is_chapter_line(l)
    &&& find(l, seq!['章', ' ']) is None
    &&& find(l, seq!['章', '：']) is Some
}

/// Whether a reply can be read as a chapter plan: none of its lines is a
/// chapter line titled only after `章：`.
pub open spec fn plan_readable(text: Seq<char>) -> bool {
    let lines = split_by(text, seq!['\n']);
    forall|k: int| 0 <= k < lines.len() ==> !colon_title_line(trim(#[trigger] lines[k]))
}

/// A (title, brief) pair of a chapter plan.
pub type PlanEntry = (Seq<char>, Seq<char>);

/// The state while scanning a reply: entries found, the current title and
/// the brief gathered for it.
pub type PlanScan = (Seq<PlanEntry>, Seq<char>, Seq<char>);

/// One line of the reply read into the scan.
pub open spec fn plan_step(st: PlanScan, line: Seq<char>) -> PlanScan {
    let l = trim(line);
    let (res, title, brief) = st;
    if l.len() == 0 {
        st
    } else if is_chapter_line(l) {
        if title.len() > 0 {
            (res.push((title, trim(brief))), chapter_line_title(l), Seq::empty())
        } else {
            (res, chapter_line_title(l), brief)
        }
    } else if title.len() > 0 {
        if brief.len() > 0 {
            (res, title, brief.push(' ') + l)
        } else {
            (res, title, brief + l)
        }
    } else {
        st
    }
}

/// The scan after reading `lines` in order.
pub open spec fn plan_scan(lines: Seq<Seq<char>>) -> PlanScan
    decreases lines.len(),
{
    if lines.len() == 0 {
        (Seq::empty(), Seq::empty(), Seq::empty())
    } else {
        plan_step(plan_scan(lines.drop_last()), lines.last())
    }
}

/// The (title, brief) pairs found in a reply, the last one included.
pub open spec fn parsed_plan(text: Seq<char>) -> Seq<PlanEntry> {
    let (res, title, brief) = plan_scan(split_by(text, seq!['\n']));
    if title.len() > 0 {
        res.push((title, trim(brief)))
    } else {
        res
    }
}

/// The placeholder title of chapter `n`: `第n章`.
pub open spec fn generic_title(n: nat) -> Seq<char> {
    seq!['第'] + decimal(n) + seq!['章']
}

/// The parsed entries that are kept: none when fewer than `min(count, 3)`
/// were found, else the first `count` of them.
pub open spec fn kept_plan(parsed: Seq<PlanEntry>, count: nat) -> Seq<PlanEntry> {
    let need = if count < 3 {
        count
    } else {
        3
    };
    if parsed.len() < need {
        Seq::empty()
    } else if parsed.len() > count {
        parsed.take(count as int)
    } else {
        parsed
    }
}

/// The chapter plan for `count` chapters read from a model reply: the kept
/// entries, then placeholder titles with empty briefs up to `count`.
pub open spec fn chapter_plan(text: Seq<char>, count: nat) -> Seq<PlanEntry> {
    let kept = kept_plan(parsed_plan(text), count);
    Seq::new(
        count,
        |i: int|
            if i < kept.len() {
                kept[i]
            } else {
                (generic_title((i + 1) as nat), Seq::<char>::empty())
            },
    )
}

fn chapter_line_test(l: &Vec<char>) -> (r: bool)
    ensures
        r == is_chapter_line(l@),
{
    let mut seen = false;
    let mut k: usize = 0;
    while k < l.len()
        invariant
            k <= l.len(),
            seen == (exists|j: int| 0 <= j < k && l@[j] == '章'),
        decreases l.len() - k,
    {
        if l[k] == '章' {
            seen = true;
        }
        k += 1;
    }
    proof {
        if seen {
            let j = choose|j: int| 0 <= j < k && l@[j] == '章';
            assert(l@.contains('章')) by {
                assert(l@[j] == '章');
            }
        }
        if l@.contains('章') {
            let j = choose|j: int| 0 <= j < l@.len() && l@[j] == '章';
            assert(seen);
        }
    }
    if !seen || l.len() == 0 {
        return false;
    }
    let c = l[0];
    let u = c as u32;
    c == '第' || (48 <= u && u <= 57)
}

fn chapter_title_of(l: &Vec<char>) -> (r: Vec<char>)
    ensures
        r@ == chapter_line_title(l@),
{
    let n = l.len();
    let p1: Vec<char> = vec!['章', ' '];
    let p3: Vec<char> = vec!['章'];
    proof {
        assert(p1@ =~= seq!['章', ' ']);
        assert(p3@ =~= seq!['章']);
        assert(p1@.len() == 2 && p3@.len() == 1);
    }
    match find_from_exec(l, &p1, 0) {
        Some(p) => {
            proof {
                lemma_found_in_range(l@, p1@, 0, p as nat);
            }
            trim_chars(&slice_chars(l, p + 2, n))
        },
        None => match find_from_exec(l, &p3, 0) {
            Some(p) => {
                proof {
                    lemma_found_in_range(l@, p3@, 0, p as nat);
                }
                trim_chars(&slice_chars(l, p + 1, n))
            },
            None => slice_chars(l, 0, n),
        },
    }
}

/// Whether a trimmed line is a chapter line titled only after `章：`.
fn colon_title_test(l: &Vec<char>) -> (r: bool)
    ensures
        r == colon_title_line(l@),
{
    let p1: Vec<char> = vec!['章', ' '];
    let p2: Vec<char> = vec!['章', '：'];
    proof {
        assert(p1@ =~= seq!['章', ' ']);
        assert(p2@ =~= seq!['章', '：']);
    }
    chapter_line_test(l) && find_from_exec(l, &p1, 0).is_none() && find_from_exec(l, &p2, 0).is_some()
}

/// Whether a model reply can be read as a chapter plan (see `plan_readable`).
pub fn plan_is_readable(text: &str) -> (r: bool)
    ensures
        r == plan_readable(text@),
{
    let v = chars_of(text);
    let nl: [char; 1] = ['\n'];
    proof {
        assert(nl@ =~= seq!['\n']);
    }
    let lines = split_chars(&v, &nl);
    let ghost ls = split_by(text@, seq!['\n']);
    let mut i: usize = 0;
    while i < lines.len()
        invariant
            i <= lines.len() == ls.len(),
            ls == split_by(text@, seq!['\n']),
            forall|k: int| 0 <= k < lines.len() ==> #[trigger] lines@[k]@ == ls[k],
            forall|k: int| 0 <= k < i ==> !colon_title_line(trim(#[trigger] ls[k])),
        decreases lines.len() - i,
    {
        let l = trim_chars(&lines[i]);
        if colon_title_test(&l) {
            proof {
                assert(colon_title_line(trim(ls[i as int])));
                assert(!plan_readable(text@)) by {
                    let lines_s = split_by(text@, seq!['\n']);
                    assert(lines_s == ls);
                    assert(0 <= i < lines_s.len() && colon_title_line(trim(lines_s[i as int])));
                }
            }
            return false;
        }
        i += 1;
    }
    true
}

proof fn lemma_found_in_range(s: Seq<char>, pat: Seq<char>, i: nat, p: nat)
    requires
        crate::text::find_from(s, pat, i) == Some(p),
    ensures
        i <= p,
        p + pat.len() <= s.len(),
    decreases s.len() - i,
{
    if i + pat.len() > s.len() {
    } else if crate::text::occurs_at(s, pat, i as int) {
    } else if i < s.len() {
        lemma_found_in_range(s, pat, i + 1, p);
    }
}

/// Whether the character vectors in `res` hold exactly the entries `es`.
pub open spec fn entries_match(res: Seq<(Vec<char>, Vec<char>)>, es: Seq<PlanEntry>) -> bool {
    &&& res.len() == es.len()
    &&& forall|k: int| 0 <= k < res.len() ==> (#[trigger] res[k]).0@ == es[k].0 && res[k].1@ == es[k].1
}

/// Reads one line into the scan state.
fn scan_line(
    res: &mut Vec<(Vec<char>, Vec<char>)>,
    title: &mut Vec<char>,
    brief: &mut Vec<char>,
    line: &Vec<char>,
)
    requires
        entries_match(old(res)@, old(res)@.map_values(|e: (Vec<char>, Vec<char>)| (e.0@, e.1@))),
    ensures
        ({
            let st = plan_step(
                (old(res)@.map_values(|e: (Vec<char>, Vec<char>)| (e.0@, e.1@)), old(title)@, old(brief)@),
                line@,
            );
            &&& entries_match(final(res)@, st.0)
            &&& final(title)@ == st.1
            &&& final(brief)@ == st.2
        }),
{
    let ghost es = res@.map_values(|e: (Vec<char>, Vec<char>)| (e.0@, e.1@));
    let l = trim_chars(line);
    if l.len() == 0 {
        return;
    }
    if chapter_line_test(&l) {
        let t = chapter_title_of(&l);
        if title.len() > 0 {
            let mut done_title = t;
            std::mem::swap(title, &mut done_title);
            let b = trim_chars(brief);
            res.push((done_title, b));
            *brief = Vec::new();
            proof {
                let st = (es.push((old(title)@, trim(old(brief)@))), chapter_line_title(l@), Seq::<char>::empty());
                assert(entries_match(res@, st.0));
            }
        } else {
            *title = t;
        }
    } else if title.len() > 0 {
        if brief.len() > 0 {
            brief.push(' ');
        }
        let mut k: usize = 0;
        let ghost start = brief@;
        while k < l.len()
            invariant
                k <= l.len(),
                brief@ == start + l@.take(k as int),
            decreases l.len() - k,
        {
            brief.push(l[k]);
            proof {
                assert(l@.take(k as int).push(l@[k as int]) =~= l@.take(k + 1));
                assert((start + l@.take(k as int)).push(l@[k as int]) =~= start + l@.take(k + 1));
            }
            k += 1;
        }
        proof {
            assert(l@.take(l.len() as int) =~= l@);
        }
    }
}

/// Reads a model's chapter plan for `count` chapters: each chapter line
/// ("第N章 title") starts an entry, the non-empty lines after it form its
/// brief; when fewer than `min(count, 3)` entries are found all titles are
/// placeholders, and the list is cut or padded with placeholders to `count`.
/// A reply with a chapter line titled only after `章：` cannot be read (see
/// `plan_readable`); `plan_is_readable` tells such replies apart.
pub fn parse_chapter_plan(text: &str, count: usize) -> (r: Vec<(String, String)>)
    requires
        plan_readable(text@),
    ensures
        r.len() == count,
        forall|k: int|
            0 <= k < count ==> (#[trigger] r@[k]).0@ == chapter_plan(text@, count as nat)[k].0
                && r@[k].1@ == chapter_plan(text@, count as nat)[k].1,
{
    let v = chars_of(text);
    let nl: [char; 1] = ['\n'];
    proof {
        assert(nl@ =~= seq!['\n']);
    }
    let lines = split_chars(&v, &nl);
    let ghost ls = split_by(text@, seq!['\n']);
    let mut res: Vec<(Vec<char>, Vec<char>)> = Vec::new();
    let mut title: Vec<char> = Vec::new();
    let mut brief: Vec<char> = Vec::new();
    let mut i: usize = 0;
    proof {
        assert(ls.take(0) =~= Seq::<Seq<char>>::empty());
    }
    while i < lines.len()
        invariant
            i <= lines.len() == ls.len(),
            forall|k: int| 0 <= k < lines.len() ==> #[trigger] lines@[k]@ == ls[k],
            entries_match(res@, plan_scan(ls.take(i as int)).0),
            title@ == plan_scan(ls.take(i as int)).1,
            brief@ == plan_scan(ls.take(i as int)).2,
        decreases lines.len() - i,
    {
        proof {
            let es = res@.map_values(|e: (Vec<char>, Vec<char>)| (e.0@, e.1@));
            assert(es =~= plan_scan(ls.take(i as int)).0);
            assert(ls.take(i + 1).drop_last() =~= ls.take(i as int));
            assert(ls.take(i + 1).last() == lines@[i as int]@);
        }
        scan_line(&mut res, &mut title, &mut brief, &lines[i]);
        i += 1;
    }
    proof {
        assert(ls.take(ls.len() as int) =~= ls);
    }
    if title.len() > 0 {
        let b = trim_chars(&brief);
        res.push((title, b));
    }
    let ghost parsed = parsed_plan(text@);
    assert(entries_match(res@, parsed));
    let need: usize = if count < 3 {
        count
    } else {
        3
    };
    let ghost kept = kept_plan(parsed, count as nat);
    if res.len() < need {
        res = Vec::new();
    } else if res.len() > count {
        res.truncate(count);
    }
    assert(entries_match(res@, kept));
    let mut out: Vec<(String, String)> = Vec::new();
    let mut k: usize = 0;
    while k < count
        invariant
            k <= count,
            entries_match(res@, kept),
            kept == kept_plan(parsed_plan(text@), count as nat),
            kept.len() <= count,
            out.len() == k,
            forall|j: int|
                0 <= j < k ==> (#[trigger] out@[j]).0@ == chapter_plan(text@, count as nat)[j].0
                    && out@[j].1@ == chapter_plan(text@, count as nat)[j].1,
        decreases count - k,
    {
        if k < res.len() {
            let t = string_of(&res[k].0);
            let b = string_of(&res[k].1);
            out.push((t, b));
        } else {
            out.push((generic_chapter_title(k + 1), String::new()));
        }
        k += 1;
    }
    out
}

/// The placeholder title `第n章`.
fn generic_chapter_title(n: usize) -> (r: String)
    ensures
        r@ == generic_title(n as nat),
{
    let mut s = String::new();
    push_char(&mut s, '第');
    append_string(&mut s, &decimal_string(n));
    push_char(&mut s, '章');
    proof {
        assert(s@ =~= generic_title(n as nat));
    }
    s
}

} // verus!
