use crate::api::{famous_names_note, reduce_ai_note, step_for, PromptTemplate, WorkerCmd};
use crate::config::{
    default_base_url, default_model, default_provider, offers_model, preset_named, preset_table,
};
use crate::edit::{toggled, typed_chapter_count, typed_word_target};
use crate::novel::{novel_text, Chapter, CustomRealm, NovelProject};
use crate::realms::{
    category_table, custom_realms_prompt, realm_prompt, realm_table, realm_with_id, insert_by_order, kept_levels, level_separators, normalized_levels, sort_by_order,
};
use crate::session::{first_unfinished, first_unfinished_from, launched, needs_writing, Effect, GenState, Session};
use crate::text::{
    decimal, digit, digits_value, is_digit, is_ws, join, lemma_split_by_nonempty, parse_unsigned, split_by,
    tail, trim, trim_end, trim_start, unsigned_body,
};
use crate::picture::{delay_at, frame_delay, gif_outcome, next_frame};
use vstd::prelude::*;

verus! {

/// Whether the realms in `s` are in nondecreasing order.
pub open spec fn orders_sorted(s: Seq<CustomRealm>) -> bool {
    forall|i: int, j: int| 0 <= i <= j < s.len() ==> s[i].order <= s[j].order
}

proof fn lemma_insert_sorted(s: Seq<CustomRealm>, x: CustomRealm)
    requires
        orders_sorted(s),
    ensures
        orders_sorted(insert_by_order(s, x)),
        insert_by_order(s, x).to_multiset() == s.to_multiset().insert(x),
    decreases s.len(),
{
    broadcast use vstd::seq_lib::group_to_multiset_ensures;
    if s.len() == 0 {
        assert(insert_by_order(s, x) =~= seq![x]);
        assert(seq![x] =~= Seq::<CustomRealm>::empty().push(x));
    } else if s[0].order > x.order {
        let r = seq![x] + s;
        assert forall|i: int, j: int| 0 <= i <= j < r.len() implies r[i].order <= r[j].order by {
            if i > 0 {
                assert(r[i] == s[i - 1] && r[j] == s[j - 1]);
            } else {
                if j > 0 {
                    assert(r[j] == s[j - 1]);
                    assert(s[0].order <= s[j - 1].order);
                }
            }
        }
        lemma_cons_multiset(x, s);
    } else {
        let t = s.drop_first();
        assert forall|i: int, j: int| 0 <= i <= j < t.len() implies t[i].order <= t[j].order by {
            assert(t[i] == s[i + 1] && t[j] == s[j + 1]);
        }
        lemma_insert_sorted(t, x);
        let u = insert_by_order(t, x);
        let r = seq![s[0]] + u;
        assert forall|k: int| 0 <= k < u.len() implies s[0].order <= #[trigger] u[k].order by {
            lemma_insert_members(t, x, k);
            if u[k] != x {
                let m = choose|m: int| 0 <= m < t.len() && t[m] == u[k];
                assert(t[m] == s[m + 1]);
            }
        }
        assert forall|i: int, j: int| 0 <= i <= j < r.len() implies r[i].order <= r[j].order by {
            if i > 0 {
                assert(r[i] == u[i - 1] && r[j] == u[j - 1]);
            } else if j > 0 {
                assert(r[j] == u[j - 1]);
            }
        }
        lemma_cons_multiset(s[0], u);
        lemma_cons_multiset(s[0], t);
        assert(seq![s[0]] + t =~= s);
    }
}

proof fn lemma_cons_multiset(x: CustomRealm, s: Seq<CustomRealm>)
    ensures
        (seq![x] + s).to_multiset() == s.to_multiset().insert(x),
    decreases s.len(),
{
    broadcast use vstd::seq_lib::group_to_multiset_ensures;
    if s.len() == 0 {
        assert(seq![x] + s =~= Seq::<CustomRealm>::empty().push(x));
    } else {
        lemma_cons_multiset(x, s.drop_last());
        assert((seq![x] + s).drop_last() =~= seq![x] + s.drop_last());
        assert(s.drop_last().push(s.last()) =~= s);
        assert((seq![x] + s.drop_last()).push(s.last()) =~= seq![x] + s);
    }
}

proof fn lemma_insert_members(s: Seq<CustomRealm>, x: CustomRealm, k: int)
    requires
        0 <= k < insert_by_order(s, x).len(),
    ensures
        insert_by_order(s, x)[k] == x || exists|m: int| 0 <= m < s.len() && s[m] == insert_by_order(s, x)[k],
    decreases s.len(),
{
    if s.len() == 0 {
    } else if s[0].order > x.order {
        if k > 0 {
            assert(s[k - 1] == insert_by_order(s, x)[k]);
        }
    } else {
        let t = s.drop_first();
        if k == 0 {
            assert(s[0] == insert_by_order(s, x)[0]);
        } else {
            lemma_insert_members(t, x, k - 1);
            if insert_by_order(t, x)[k - 1] != x {
                let m = choose|m: int| 0 <= m < t.len() && t[m] == insert_by_order(t, x)[k - 1];
                assert(s[m + 1] == insert_by_order(s, x)[k]);
            }
        }
    }
}

/// User-defined realms are listed in nondecreasing order, and sorting keeps
/// exactly the realms it was given (the same multiset).
pub proof fn law_realm_sort_orders_and_keeps(s: Seq<CustomRealm>)
    ensures
        orders_sorted(sort_by_order(s)),
        sort_by_order(s).to_multiset() == s.to_multiset(),
    decreases s.len(),
{
    broadcast use vstd::seq_lib::group_to_multiset_ensures;
    if s.len() == 0 {
    } else {
        law_realm_sort_orders_and_keeps(s.drop_last());
        lemma_insert_sorted(sort_by_order(s.drop_last()), s.last());
        assert(s.drop_last().push(s.last()) =~= s);
    }
}

proof fn lemma_digit_code(d: nat)
    requires
        d < 10,
    ensures
        digit(d) as u32 == d + 48,
{
}

proof fn lemma_decimal_digits(n: nat)
    ensures
        decimal(n).len() > 0,
        forall|k: int| 0 <= k < decimal(n).len() ==> is_digit(#[trigger] decimal(n)[k]),
        digits_value(decimal(n)) == n,
    decreases n,
{
    if n < 10 {
        lemma_digit_code(n);
        assert(decimal(n).drop_last() =~= Seq::<char>::empty());
        assert(decimal(n).last() == digit(n));
        assert(digits_value(decimal(n)) == digits_value(Seq::<char>::empty()) * 10 + ((digit(n) as u32) - 48) as nat);
    } else {
        lemma_digit_code(n % 10);
        lemma_decimal_digits(n / 10);
        let d = decimal(n);
        assert(d.drop_last() =~= decimal(n / 10));
        assert(d.last() == digit(n % 10));
        assert(digits_value(d) == digits_value(decimal(n / 10)) * 10 + (n % 10));
        assert((n / 10) * 10 + n % 10 == n);
        assert forall|k: int| 0 <= k < d.len() implies is_digit(#[trigger] d[k]) by {
            if k < d.len() - 1 {
                assert(d[k] == decimal(n / 10)[k]);
            }
        }
    }
}

/// A number written in decimal reads back as the same number (the settings
/// fields are filled with `to_string` of the current values and parsed back).
pub proof fn law_decimal_parses_back(n: nat, max: nat)
    requires
        n <= max,
    ensures
        parse_unsigned(decimal(n), max) == Some(n),
{
    lemma_decimal_digits(n);
    let d = decimal(n);
    assert(d[0] != '+') by {
        assert(is_digit(d[0]));
    }
    assert(unsigned_body(d) == d);
}

/// Writing a chapter count between 1 and 500 into the count field and
/// reading it back sets exactly that count; likewise for a word target
/// between 200 and 10000.
pub proof fn law_typed_targets_round_trip(n: usize, current: usize)
    ensures
        1 <= n <= 500 ==> typed_chapter_count(decimal(n as nat), current) == n,
        200 <= n <= 10000 ==> typed_word_target(decimal(n as nat), current) == n,
{
    law_decimal_parses_back(n as nat, usize::MAX as nat);
}

/// The state that pausing leaves.
pub open spec fn paused_state(g: GenState) -> GenState {
    match g {
        GenState::GeneratingChapter(n) => GenState::Paused(if n == 0 {
            0usize
        } else {
            (n - 1) as usize
        }),
        _ => g,
    }
}

/// Pausing while chapter number `n` (from one) is written and then resuming
/// starts that same chapter again: resuming from `Paused(k)` starts index
/// `k`, that is chapter number `k + 1`.
pub proof fn law_pause_then_resume_same_chapter(n: usize)
    requires
        n >= 1,
    ensures
        paused_state(GenState::GeneratingChapter(n)) matches GenState::Paused(k) && k + 1 == n,
{
}

/// Toggling a realm system that is not selected, twice, restores the
/// selection.
pub proof fn law_toggle_twice_restores(ids: Seq<String>, id: Seq<char>)
    requires
        !ids.map_values(|s: String| s@).contains(id),
    ensures
        ({
            let once = toggled(ids, id);
            once.contains(id) && once.filter(|s: Seq<char>| s != id) == ids.map_values(|s: String| s@)
        }),
{
    let views = ids.map_values(|s: String| s@);
    let once = views.push(id);
    assert(once[views.len() as int] == id);
    lemma_filter_push_removes(views, id);
}

proof fn lemma_filter_push_removes(v: Seq<Seq<char>>, id: Seq<char>)
    requires
        !v.contains(id),
    ensures
        v.push(id).filter(|s: Seq<char>| s != id) == v,
    decreases v.len(),
{
    reveal(Seq::filter);
    assert(v.push(id).drop_last() =~= v);
    lemma_filter_keeps_all(v, id);
}

proof fn lemma_filter_keeps_all(v: Seq<Seq<char>>, id: Seq<char>)
    requires
        !v.contains(id),
    ensures
        v.filter(|s: Seq<char>| s != id) == v,
    decreases v.len(),
{
    reveal(Seq::filter);
    if v.len() > 0 {
        assert(!v.drop_last().contains(id)) by {
            if v.drop_last().contains(id) {
                let k = choose|k: int| 0 <= k < v.drop_last().len() && v.drop_last()[k] == id;
                assert(v[k] == id);
            }
        }
        lemma_filter_keeps_all(v.drop_last(), id);
        assert(v.last() != id) by {
            assert(v[v.len() - 1] == v.last());
        }
        assert(v.drop_last().push(v.last()) =~= v);
    }
}

/// The context sent with a chapter is a suffix of the previous chapter of
/// at most the requested length.
pub proof fn law_tail_is_short_suffix(s: Seq<char>, n: nat)
    ensures
        tail(s, n).len() == if s.len() <= n {
            s.len()
        } else {
            n
        },
        tail(s, n) == s.subrange(s.len() - tail(s, n).len(), s.len() as int),
{
    if s.len() <= n {
        assert(s.subrange(0, s.len() as int) =~= s);
    }
}

/// Typing into the count fields either leaves the value as it was or sets
/// one in range: 1 to 500 chapters, 200 to 10000 words per chapter.
pub proof fn law_typed_targets_in_range(text: Seq<char>, current: usize)
    ensures
        typed_chapter_count(text, current) == current || 1 <= typed_chapter_count(text, current) <= 500,
        typed_word_target(text, current) == current || 200 <= typed_word_target(text, current) <= 10000,
{
}

/// Whether no character of `p` is one of `seps`.
pub open spec fn sep_free(p: Seq<char>, seps: Seq<char>) -> bool {
    forall|j: int| 0 <= j < p.len() ==> !seps.contains(#[trigger] p[j])
}

proof fn lemma_split_pieces_sep_free(s: Seq<char>, seps: Seq<char>)
    ensures
        forall|k: int| 0 <= k < split_by(s, seps).len() ==> sep_free(#[trigger] split_by(s, seps)[k], seps),
    decreases s.len(),
{
    lemma_split_by_nonempty(s, seps);
    if s.len() > 0 {
        let p = split_by(s.drop_last(), seps);
        lemma_split_pieces_sep_free(s.drop_last(), seps);
        lemma_split_by_nonempty(s.drop_last(), seps);
        if !seps.contains(s.last()) {
            let q = p.update(p.len() - 1, p.last().push(s.last()));
            assert forall|k: int| 0 <= k < q.len() implies sep_free(#[trigger] q[k], seps) by {
                if k == p.len() - 1 {
                    assert(sep_free(p[k], seps));
                    assert forall|j: int| 0 <= j < q[k].len() implies !seps.contains(#[trigger] q[k][j]) by {
                        if j < p[k].len() {
                            assert(q[k][j] == p[k][j]);
                        }
                    }
                }
            }
        } else {
            let q = p.push(Seq::<char>::empty());
            assert forall|k: int| 0 <= k < q.len() implies sep_free(#[trigger] q[k], seps) by {
                if k < p.len() {
                    assert(q[k] == p[k]);
                }
            }
        }
    }
}

proof fn lemma_trim_start_suffix(p: Seq<char>)
    ensures
        trim_start(p).len() <= p.len(),
        trim_start(p) == p.subrange(p.len() - trim_start(p).len(), p.len() as int),
        trim_start(p).len() > 0 ==> !is_ws(trim_start(p)[0]),
    decreases p.len(),
{
    if p.len() > 0 && is_ws(p[0]) {
        lemma_trim_start_suffix(p.drop_first());
        let t = trim_start(p.drop_first());
        assert(p.drop_first().subrange(p.drop_first().len() - t.len(), p.drop_first().len() as int) =~= p.subrange(
            p.len() - t.len(),
            p.len() as int,
        ));
    } else {
        assert(p.subrange(0, p.len() as int) =~= p);
    }
}

proof fn lemma_trim_end_prefix(p: Seq<char>)
    ensures
        trim_end(p).len() <= p.len(),
        trim_end(p) == p.subrange(0, trim_end(p).len() as int),
        trim_end(p).len() > 0 ==> !is_ws(trim_end(p).last()),
    decreases p.len(),
{
    if p.len() > 0 && is_ws(p.last()) {
        lemma_trim_end_prefix(p.drop_last());
        let t = trim_end(p.drop_last());
        assert(p.drop_last().subrange(0, t.len() as int) =~= p.subrange(0, t.len() as int));
    } else {
        assert(p.subrange(0, p.len() as int) =~= p);
    }
}

proof fn lemma_trim_facts(p: Seq<char>, seps: Seq<char>)
    ensures
        sep_free(p, seps) ==> sep_free(trim(p), seps),
        trim(trim(p)) == trim(p),
{
    let a = trim_start(p);
    lemma_trim_start_suffix(p);
    lemma_trim_end_prefix(a);
    let t = trim_end(a);
    if sep_free(p, seps) {
        assert forall|j: int| 0 <= j < t.len() implies !seps.contains(#[trigger] t[j]) by {
            assert(t[j] == a[j]);
            assert(a[j] == p[p.len() - a.len() + j]);
        }
    }
    if t.len() > 0 {
        assert(t[0] == a[0]);
        assert(trim_start(t) == t);
        assert(trim_end(t) == t);
    } else {
        assert(trim_start(t) == t);
    }
}

proof fn lemma_split_append_free(x: Seq<char>, b: Seq<char>, seps: Seq<char>)
    requires
        sep_free(b, seps),
    ensures
        split_by(x + b, seps) == split_by(x, seps).update(
            split_by(x, seps).len() - 1,
            split_by(x, seps).last() + b,
        ),
    decreases b.len(),
{
    lemma_split_by_nonempty(x, seps);
    let p = split_by(x, seps);
    if b.len() == 0 {
        assert(x + b =~= x);
        assert(p.last() + b =~= p.last());
        assert(p.update(p.len() - 1, p.last()) =~= p);
    } else {
        let b0 = b.drop_last();
        assert forall|j: int| 0 <= j < b0.len() implies !seps.contains(#[trigger] b0[j]) by {
            assert(b0[j] == b[j]);
        }
        lemma_split_append_free(x, b0, seps);
        assert((x + b).drop_last() =~= x + b0);
        assert((x + b).last() == b.last());
        assert(!seps.contains(b[b.len() - 1]));
        let q = p.update(p.len() - 1, p.last() + b0);
        assert(q.last().push(b.last()) =~= p.last() + b);
        assert(q.update(q.len() - 1, q.last().push(b.last())) =~= p.update(p.len() - 1, p.last() + b));
    }
}

proof fn lemma_split_join(ks: Seq<Seq<char>>, c: char, seps: Seq<char>)
    requires
        ks.len() > 0,
        seps.contains(c),
        forall|k: int| 0 <= k < ks.len() ==> sep_free(#[trigger] ks[k], seps),
    ensures
        split_by(join(ks, seq![c]), seps) == ks,
    decreases ks.len(),
{
    if ks.len() == 1 {
        lemma_split_append_free(Seq::<char>::empty(), ks[0], seps);
        assert(Seq::<char>::empty() + ks[0] =~= ks[0]);
        assert(seq![Seq::<char>::empty()].update(0, Seq::<char>::empty() + ks[0]) =~= ks);
    } else {
        let rest = ks.drop_last();
        assert forall|k: int| 0 <= k < rest.len() implies sep_free(#[trigger] rest[k], seps) by {
            assert(rest[k] == ks[k]);
        }
        lemma_split_join(rest, c, seps);
        let jr = join(rest, seq![c]);
        let x = jr + seq![c];
        assert(x.drop_last() =~= jr);
        assert(x.last() == c);
        assert(split_by(x, seps) == split_by(jr, seps).push(Seq::<char>::empty()));
        assert(sep_free(ks[ks.len() - 1], seps));
        lemma_split_append_free(x, ks.last(), seps);
        lemma_split_by_nonempty(x, seps);
        assert(split_by(x, seps).last() + ks.last() =~= ks.last());
        assert(rest.push(Seq::<char>::empty()).update(rest.len() as int, ks.last()) =~= ks);
    }
}

proof fn lemma_kept_levels_facts(ps: Seq<Seq<char>>, seps: Seq<char>)
    requires
        forall|k: int| 0 <= k < ps.len() ==> sep_free(#[trigger] ps[k], seps),
    ensures
        forall|k: int|
            0 <= k < kept_levels(ps).len() ==> {
                &&& (#[trigger] kept_levels(ps)[k]).len() > 0
                &&& trim(kept_levels(ps)[k]) == kept_levels(ps)[k]
                &&& sep_free(kept_levels(ps)[k], seps)
            },
    decreases ps.len(),
{
    if ps.len() > 0 {
        let rest = ps.drop_last();
        assert forall|k: int| 0 <= k < rest.len() implies sep_free(#[trigger] rest[k], seps) by {
            assert(rest[k] == ps[k]);
        }
        lemma_kept_levels_facts(rest, seps);
        assert(sep_free(ps[ps.len() - 1], seps));
        lemma_trim_facts(ps.last(), seps);
        let r = kept_levels(rest);
        let t = trim(ps.last());
        let kp = kept_levels(ps);
        assert forall|k: int| 0 <= k < kp.len() implies {
            &&& (#[trigger] kp[k]).len() > 0
            &&& trim(kp[k]) == kp[k]
            &&& sep_free(kp[k], seps)
        } by {
            if k < r.len() {
                assert(kp[k] == r[k]);
            } else {
                assert(kp[k] == t);
            }
        }
    }
}

proof fn lemma_kept_levels_fixed(ks: Seq<Seq<char>>)
    requires
        forall|k: int| 0 <= k < ks.len() ==> (#[trigger] ks[k]).len() > 0 && trim(ks[k]) == ks[k],
    ensures
        kept_levels(ks) == ks,
    decreases ks.len(),
{
    if ks.len() > 0 {
        let rest = ks.drop_last();
        assert forall|k: int| 0 <= k < rest.len() implies (#[trigger] rest[k]).len() > 0 && trim(rest[k]) == rest[k] by {
            assert(rest[k] == ks[k]);
        }
        lemma_kept_levels_fixed(rest);
        assert(ks[ks.len() - 1].len() > 0 && trim(ks[ks.len() - 1]) == ks[ks.len() - 1]);
        assert(rest.push(ks.last()) =~= ks);
    }
}

/// Normalizing the minor stages of a realm twice gives the same text as
/// normalizing them once.
pub proof fn law_normalize_idempotent(s: Seq<char>)
    ensures
        normalized_levels(normalized_levels(s)) == normalized_levels(s),
{
    let seps = level_separators();
    let ps = split_by(s, seps);
    lemma_split_pieces_sep_free(s, seps);
    lemma_kept_levels_facts(ps, seps);
    let ks = kept_levels(ps);
    if ks.len() == 0 {
        let e = Seq::<char>::empty();
        assert(join(ks, seq!['→']) == e);
        assert(split_by(e, seps) == seq![e]);
        assert(seq![e].drop_last() =~= Seq::<Seq<char>>::empty());
        assert(seq![e].last() == e);
        assert(trim_start(e) == e);
        assert(trim_end(e) == e);
        assert(trim(e) == e);
        assert(kept_levels(Seq::<Seq<char>>::empty()) == Seq::<Seq<char>>::empty());
        assert(kept_levels(seq![e]) =~= Seq::<Seq<char>>::empty());
    } else {
        assert(seps.contains('→')) by {
            assert(seps[2] == '→');
        }
        lemma_split_join(ks, '→', seps);
        lemma_kept_levels_fixed(ks);
    }
}

proof fn lemma_first_unfinished_from_at_most(cs: Seq<Chapter>, threshold: nat, from: nat, i: nat)
    requires
        from <= i < cs.len(),
        needs_writing(cs[i as int], threshold),
    ensures
        first_unfinished_from(cs, threshold, from) matches Some(k) && from <= k <= i,
    decreases i - from,
{
    if !needs_writing(cs[from as int], threshold) {
        lemma_first_unfinished_from_at_most(cs, threshold, from + 1, i);
    }
}

/// A chapter left unfinished (for instance one that was stopped, or cut off
/// when the project was saved, and so made pending again) is written again
/// when the generation is continued: continuing starts at that chapter or
/// at an earlier one that also needs writing.
pub proof fn law_unfinished_chapter_is_resumed(cs: Seq<Chapter>, threshold: nat, i: nat)
    requires
        i < cs.len(),
        !(cs[i as int].status is Done),
    ensures
        first_unfinished(cs, threshold) matches Some(k) && k <= i && needs_writing(cs[k as int], threshold),
{
    lemma_first_unfinished_from_at_most(cs, threshold, 0, i);
    lemma_needs_at(cs, threshold, 0);
}

proof fn lemma_needs_at(cs: Seq<Chapter>, threshold: nat, from: nat)
    ensures
        first_unfinished_from(cs, threshold, from) matches Some(k) ==> k < cs.len() && needs_writing(
            cs[k as int],
            threshold,
        ),
    decreases cs.len() - from,
{
    if from < cs.len() && !needs_writing(cs[from as int], threshold) {
        lemma_needs_at(cs, threshold, from + 1);
    }
}

/// A background animation only ever shows one of its frames: stepping from a
/// frame in range lands on a frame in range.
pub proof fn law_animation_stays_in_range(delays: Seq<u32>, index: int, count: int, elapsed: int)
    requires
        0 <= index < count,
    ensures
        0 <= next_frame(delays, index, count, elapsed) < count,
{
}

/// Every frame of an animation stays on screen at least 20 ms: each display
/// time of a decoded GIF, and each delay looked up while it plays.
pub proof fn law_frames_last_at_least_20ms(
    frames: Seq<((u32, u32, Seq<u8>), u32, u32)>,
    delays: Seq<u32>,
    index: int,
)
    ensures
        gif_outcome(Ok(frames)) matches Ok((images, ds)) ==> forall|k: int|
            0 <= k < ds.len() ==> #[trigger] ds[k] >= 20,
        delay_at(delays, index) >= 20,
{
    if frames.len() > 0 {
        let ds = frames.map_values(|f: ((u32, u32, Seq<u8>), u32, u32)| frame_delay(f.1, f.2));
        assert forall|k: int| 0 <= k < ds.len() implies #[trigger] ds[k] >= 20 by {
            assert(ds[k] == frame_delay(frames[k].1, frames[k].2));
        }
    }
}

/// Whether no two realms of `s` share an order.
pub open spec fn distinct_orders(s: Seq<CustomRealm>) -> bool {
    forall|i: int, j: int|
        0 <= i < s.len() && 0 <= j < s.len() && i != j ==> #[trigger] s[i].order != #[trigger] s[j].order
}

proof fn lemma_insert_commute(s: Seq<CustomRealm>, x: CustomRealm, y: CustomRealm)
    requires
        x.order != y.order,
    ensures
        insert_by_order(insert_by_order(s, x), y) == insert_by_order(insert_by_order(s, y), x),
    decreases s.len(),
{
    assert((seq![x] + s)[0] == x);
    assert((seq![x] + s).drop_first() =~= s);
    assert((seq![y] + s)[0] == y);
    assert((seq![y] + s).drop_first() =~= s);
    if s.len() == 0 {
        let e = Seq::<CustomRealm>::empty();
        assert(seq![x].drop_first() =~= e);
        assert(seq![y].drop_first() =~= e);
        assert(seq![x][0] == x);
        assert(seq![y][0] == y);
        assert(insert_by_order(s, x) == seq![x]);
        assert(insert_by_order(s, y) == seq![y]);
        assert(insert_by_order(e, x) == seq![x]);
        assert(insert_by_order(e, y) == seq![y]);
        if x.order > y.order {
            assert(seq![x] + seq![y] =~= seq![x, y]);
            assert(seq![y] + seq![x] =~= seq![y, x]);
        } else {
            assert(seq![x] + seq![y] =~= seq![x, y]);
            assert(seq![y] + seq![x] =~= seq![y, x]);
        }
    } else {
        let t = s.drop_first();
        let s0 = s[0];
        assert(seq![s0] + t =~= s);
        let ix = insert_by_order(t, x);
        let iy = insert_by_order(t, y);
        assert((seq![s0] + ix)[0] == s0);
        assert((seq![s0] + ix).drop_first() =~= ix);
        assert((seq![s0] + iy)[0] == s0);
        assert((seq![s0] + iy).drop_first() =~= iy);
        if s0.order > x.order && s0.order > y.order {
            assert((seq![y] + s)[0] == y);
            assert((seq![x] + (seq![y] + s)).drop_first() =~= seq![y] + s);
            assert((seq![y] + (seq![x] + s)).drop_first() =~= seq![x] + s);
            assert(seq![x] + (seq![y] + s) =~= seq![x, y] + s);
            assert(seq![y] + (seq![x] + s) =~= seq![y, x] + s);
        } else if s0.order > x.order {
            assert((seq![x] + (seq![s0] + iy)).drop_first() =~= seq![s0] + iy);
        } else if s0.order > y.order {
            assert((seq![y] + (seq![s0] + ix)).drop_first() =~= seq![s0] + ix);
        } else {
            lemma_insert_commute(t, x, y);
        }
    }
}

proof fn lemma_sort_pull(b: Seq<CustomRealm>, j: int)
    requires
        0 <= j < b.len(),
        distinct_orders(b),
    ensures
        sort_by_order(b) == insert_by_order(sort_by_order(b.remove(j)), b[j]),
    decreases b.len(),
{
    if j == b.len() - 1 {
        assert(b.remove(j) =~= b.drop_last());
    } else {
        let c = b.drop_last();
        let y = b.last();
        assert forall|i: int, k: int|
            0 <= i < c.len() && 0 <= k < c.len() && i != k implies #[trigger] c[i].order != #[trigger] c[k].order by {
            assert(c[i] == b[i] && c[k] == b[k]);
        }
        lemma_sort_pull(c, j);
        assert(c[j] == b[j]);
        assert(b[j].order != b[b.len() - 1].order);
        lemma_insert_commute(sort_by_order(c.remove(j)), c[j], y);
        let bj = b.remove(j);
        assert(bj.drop_last() =~= c.remove(j));
        assert(bj.last() == y);
    }
}

proof fn lemma_distinct_transfer(a: Seq<CustomRealm>, b: Seq<CustomRealm>)
    requires
        a.to_multiset() == b.to_multiset(),
        distinct_orders(a),
    ensures
        distinct_orders(b),
{
    broadcast use vstd::seq_lib::group_to_multiset_ensures;
    assert forall|i: int, j: int|
        0 <= i < b.len() && 0 <= j < b.len() && i != j implies #[trigger] b[i].order != #[trigger] b[j].order by {
        if b[i].order == b[j].order {
            let v = b[i];
            assert(b.contains(v));
            assert(b.to_multiset().count(v) > 0);
            assert(a.to_multiset().count(v) > 0);
            assert(a.contains(v));
            let p = choose|p: int| 0 <= p < a.len() && a[p] == v;
            let bi = b.remove(i);
            let jj = if j < i { j } else { j - 1 };
            assert(bi[jj] == b[j]);
            assert(bi.contains(b[j]));
            assert(a.remove(p).to_multiset() == bi.to_multiset());
            assert(bi.to_multiset().count(b[j]) > 0);
            assert(a.remove(p).to_multiset().count(b[j]) > 0);
            assert(a.remove(p).contains(b[j]));
            let ap = a.remove(p);
            let q = choose|q: int| 0 <= q < ap.len() && ap[q] == b[j];
            let qq = if q < p { q } else { q + 1 };
            assert(a[qq] == b[j]);
            assert(a[qq].order == a[p].order);
        }
    }
}

proof fn lemma_sort_permutation(a: Seq<CustomRealm>, b: Seq<CustomRealm>)
    requires
        a.to_multiset() == b.to_multiset(),
        distinct_orders(a),
    ensures
        sort_by_order(a) == sort_by_order(b),
    decreases a.len(),
{
    broadcast use vstd::seq_lib::group_to_multiset_ensures;
    broadcast use vstd::multiset::group_multiset_axioms;
    lemma_distinct_transfer(a, b);
    assert(a.to_multiset().len() == a.len());
    assert(b.to_multiset().len() == b.len());
    if a.len() == 0 {
        assert(b.len() == 0);
        assert(a =~= b);
    } else {
        let x = a.last();
        let a1 = a.drop_last();
        assert(a1.push(x) =~= a);
        assert(a.contains(x)) by {
            assert(a[a.len() - 1] == x);
        }
        assert(a.to_multiset().count(x) > 0);
        assert(b.to_multiset().count(x) > 0);
        assert(b.contains(x));
        let j = choose|j: int| 0 <= j < b.len() && b[j] == x;
        assert(a1.to_multiset() =~= b.remove(j).to_multiset());
        assert forall|i: int, k: int|
            0 <= i < a1.len() && 0 <= k < a1.len() && i != k implies #[trigger] a1[i].order != #[trigger] a1[k].order by {
            assert(a1[i] == a[i] && a1[k] == a[k]);
        }
        lemma_sort_permutation(a1, b.remove(j));
        lemma_sort_pull(b, j);
    }
}

/// User-defined realms whose orders are pairwise distinct give the same
/// prompt section whatever order they were entered in.
pub proof fn law_custom_prompt_ignores_entry_order(s1: Seq<CustomRealm>, s2: Seq<CustomRealm>)
    requires
        s1.to_multiset() == s2.to_multiset(),
        distinct_orders(s1),
    ensures
        custom_realms_prompt(s1) == custom_realms_prompt(s2),
{
    broadcast use vstd::seq_lib::group_to_multiset_ensures;
    lemma_sort_permutation(s1, s2);
    assert(s1.to_multiset().len() == s1.len());
    assert(s2.to_multiset().len() == s2.len());
}

/// The provider presets are well formed: their names are distinct; every
/// preset but the custom one has an endpoint that does not end in `/` and
/// offers at least one model; and the preset of the default provider has the
/// default endpoint and offers the default model.
#[verifier::spinoff_prover]
pub proof fn law_provider_presets_well_formed()
    ensures
        forall|i: int, j: int|
            0 <= i < j < preset_table().len() ==> #[trigger] preset_table()[i].name@
                != #[trigger] preset_table()[j].name@,
        forall|i: int|
            0 <= i < preset_table().len() && #[trigger] preset_table()[i].name@ != "自定义"@ ==> {
                &&& preset_table()[i].base_url@.len() > 0
                &&& preset_table()[i].base_url@.last() != '/'
                &&& preset_table()[i].models@.len() > 0
            },
        preset_named(preset_table(), default_provider()) matches Some(p) && p.base_url@ == default_base_url()
            && offers_model(p, default_model()),
{
    reveal_strlit("DeepSeek");
    reveal_strlit("OpenAI");
    reveal_strlit("Gemini");
    reveal_strlit("Ollama");
    reveal_strlit("自定义");
    reveal_strlit("https://api.deepseek.com/v1");
    reveal_strlit("https://api.openai.com/v1");
    reveal_strlit("https://generativelanguage.googleapis.com/v1beta/openai");
    reveal_strlit("http://localhost:11434/v1");
    let t = preset_table();
    assert(t[1].name@[0] != t[2].name@[0]);
    assert(t[1].name@[1] != t[3].name@[1]);
    assert(t[2].name@[0] != t[3].name@[0]);
    assert forall|i: int, j: int| 0 <= i < j < t.len() implies #[trigger] t[i].name@ != #[trigger] t[j].name@ by {
        if i == 1 && j == 2 {
        } else if i == 1 && j == 3 {
        } else if i == 2 && j == 3 {
        } else {
            assert(t[i].name@.len() != t[j].name@.len());
        }
    }
    let p = t[0];
    assert(p.name@ == default_provider());
    assert(preset_named(t, default_provider()) == Some(p));
    assert(p.base_url@ == default_base_url());
    assert(p.models@[0]@ == default_model());
    assert(offers_model(p, default_model()));
}

/// Whether `s` has two `→` in a row at index `j`.
pub open spec fn double_arrow_at(s: Seq<char>, j: int) -> bool {
    s[j] == '→' && s[j + 1] == '→'
}

/// Whether `s` holds none of the separators `/` and `／` and no whitespace.
pub open spec fn plain_stage_chars(s: Seq<char>) -> bool {
    forall|j: int| 0 <= j < s.len() ==> #[trigger] s[j] != '/' && s[j] != '／' && !is_ws(s[j])
}

/// Whether `s` is already a clean chain of minor stages: nonempty stages
/// without whitespace, joined by single `→`.
pub open spec fn clean_levels(s: Seq<char>) -> bool {
    &&& s.len() > 0
    &&& s[0] != '→'
    &&& s.last() != '→'
    &&& plain_stage_chars(s)
    &&& forall|j: int| 0 <= j < s.len() - 1 ==> !#[trigger] double_arrow_at(s, j)
}

proof fn lemma_level_separator(c: char)
    ensures
        level_separators().contains(c) <==> (c == '/' || c == '／' || c == '→'),
{
    let seps = level_separators();
    if c == '/' {
        assert(seps[0] == c);
    } else if c == '／' {
        assert(seps[1] == c);
    } else if c == '→' {
        assert(seps[2] == c);
    } else {
        assert forall|i: int| 0 <= i < seps.len() implies seps[i] != c by {
        }
    }
}

proof fn lemma_split_shape(s: Seq<char>)
    requires
        s.len() == 0 || s[0] != '→',
        plain_stage_chars(s),
        forall|j: int| 0 <= j < s.len() - 1 ==> !#[trigger] double_arrow_at(s, j),
    ensures
        split_by(s, level_separators()).len() >= 1,
        forall|k: int|
            0 <= k < split_by(s, level_separators()).len() - 1 ==> (#[trigger] split_by(
                s,
                level_separators(),
            )[k]).len() > 0,
        (split_by(s, level_separators()).last().len() == 0) == (s.len() == 0 || s.last() == '→'),
    decreases s.len(),
{
    let seps = level_separators();
    lemma_split_by_nonempty(s, seps);
    if s.len() > 0 {
        let t = s.drop_last();
        assert forall|j: int| 0 <= j < t.len() implies #[trigger] t[j] != '/' && t[j] != '／' && !is_ws(t[j]) by {
            assert(t[j] == s[j]);
        }
        assert forall|j: int| 0 <= j < t.len() - 1 implies !#[trigger] double_arrow_at(t, j) by {
            assert(!double_arrow_at(s, j));
        }
        lemma_split_shape(t);
        let c = s.last();
        assert(c == s[s.len() - 1]);
        lemma_level_separator(c);
        let p = split_by(t, seps);
        if c == '→' {
            if t.len() > 0 {
                assert(!double_arrow_at(s, s.len() - 2));
                assert(t.last() == s[s.len() - 2]);
            }
            let q = p.push(Seq::<char>::empty());
            assert forall|k: int| 0 <= k < q.len() - 1 implies (#[trigger] q[k]).len() > 0 by {
                assert(q[k] == p[k]);
            }
        } else {
            let q = p.update(p.len() - 1, p.last().push(c));
            assert forall|k: int| 0 <= k < q.len() - 1 implies (#[trigger] q[k]).len() > 0 by {
                assert(q[k] == p[k]);
            }
        }
    }
}

proof fn lemma_split_no_ws(s: Seq<char>, seps: Seq<char>)
    requires
        forall|j: int| 0 <= j < s.len() ==> !is_ws(#[trigger] s[j]),
    ensures
        forall|k: int, j: int|
            0 <= k < split_by(s, seps).len() && 0 <= j < split_by(s, seps)[k].len() ==> !is_ws(
                #[trigger] split_by(s, seps)[k][j],
            ),
    decreases s.len(),
{
    lemma_split_by_nonempty(s, seps);
    if s.len() > 0 {
        let t = s.drop_last();
        assert forall|j: int| 0 <= j < t.len() implies !is_ws(#[trigger] t[j]) by {
            assert(t[j] == s[j]);
        }
        lemma_split_no_ws(t, seps);
        lemma_split_by_nonempty(t, seps);
        let p = split_by(t, seps);
        assert(!is_ws(s[s.len() - 1]));
        if seps.contains(s.last()) {
            let q = p.push(Seq::<char>::empty());
            assert forall|k: int, j: int| 0 <= k < q.len() && 0 <= j < q[k].len() implies !is_ws(#[trigger] q[k][j]) by {
                assert(q[k] == p[k]);
            }
        } else {
            let q = p.update(p.len() - 1, p.last().push(s.last()));
            assert forall|k: int, j: int| 0 <= k < q.len() && 0 <= j < q[k].len() implies !is_ws(#[trigger] q[k][j]) by {
                if k == p.len() - 1 {
                    if j < p[k].len() {
                        assert(q[k][j] == p[k][j]);
                    }
                } else {
                    assert(q[k] == p[k]);
                }
            }
        }
    }
}

proof fn lemma_join_grow_last(ps: Seq<Seq<char>>, sep: Seq<char>, x: Seq<char>)
    requires
        ps.len() > 0,
    ensures
        join(ps.update(ps.len() - 1, ps.last() + x), sep) == join(ps, sep) + x,
{
    let q = ps.update(ps.len() - 1, ps.last() + x);
    if ps.len() == 1 {
        assert(q[0] == ps[0] + x);
    } else {
        assert(q.drop_last() =~= ps.drop_last());
        assert(q.last() == ps.last() + x);
        assert(join(ps, sep) + x =~= join(ps.drop_last(), sep) + sep + (ps.last() + x));
    }
}

proof fn lemma_join_split_arrows(s: Seq<char>)
    requires
        forall|j: int| 0 <= j < s.len() ==> #[trigger] s[j] != '/' && s[j] != '／',
    ensures
        join(split_by(s, level_separators()), seq!['→']) == s,
    decreases s.len(),
{
    let seps = level_separators();
    if s.len() == 0 {
        assert(split_by(s, seps) == seq![Seq::<char>::empty()]);
        assert(join(seq![Seq::<char>::empty()], seq!['→']) == seq![Seq::<char>::empty()][0]);
    } else {
        let t = s.drop_last();
        assert forall|j: int| 0 <= j < t.len() implies #[trigger] t[j] != '/' && t[j] != '／' by {
            assert(t[j] == s[j]);
        }
        lemma_join_split_arrows(t);
        lemma_split_by_nonempty(t, seps);
        let p = split_by(t, seps);
        let c = s.last();
        assert(c == s[s.len() - 1]);
        lemma_level_separator(c);
        if c == '→' {
            let q = p.push(Seq::<char>::empty());
            assert(q.drop_last() =~= p);
            assert(join(q, seq!['→']) == join(p, seq!['→']) + seq!['→'] + Seq::<char>::empty());
            assert(t + seq!['→'] + Seq::<char>::empty() =~= s);
        } else {
            lemma_join_grow_last(p, seq!['→'], seq![c]);
            assert(p.last().push(c) =~= p.last() + seq![c]);
            assert(t + seq![c] =~= s);
        }
    }
}

/// A clean chain of minor stages is left as it is by normalizing.
proof fn lemma_clean_levels_normalized(s: Seq<char>)
    requires
        clean_levels(s),
    ensures
        normalized_levels(s) == s,
{
    let seps = level_separators();
    lemma_split_shape(s);
    assert forall|j: int| 0 <= j < s.len() implies !is_ws(#[trigger] s[j]) by {
    }
    lemma_split_no_ws(s, seps);
    assert forall|j: int| 0 <= j < s.len() implies #[trigger] s[j] != '/' && s[j] != '／' by {
    }
    lemma_join_split_arrows(s);
    let ps = split_by(s, seps);
    assert forall|k: int| 0 <= k < ps.len() implies (#[trigger] ps[k]).len() > 0 && trim(ps[k]) == ps[k] by {
        let p = ps[k];
        assert(p.len() > 0);
        assert(!is_ws(p[0]));
        assert(trim_start(p) == p);
        assert(!is_ws(p[p.len() - 1]));
        assert(trim_end(p) == p);
    }
    lemma_kept_levels_fixed(ps);
}

/// The position in the realm table of the id `s`, told apart by its length
/// and its first two characters.
spec fn id_rank(s: Seq<char>) -> int {
    if s.len() == 15 && s[0] == 'x' && s[1] == 'i' {
        0
    } else     if s.len() == 16 && s[0] == 'x' && s[1] == 'i' {
        1
    } else     if s.len() == 9 && s[0] == 'd' && s[1] == 'a' {
        2
    } else     if s.len() == 10 && s[0] == 'd' && s[1] == 'e' {
        3
    } else     if s.len() == 11 && s[0] == 'b' && s[1] == 'o' {
        4
    } else     if s.len() == 11 && s[0] == 's' && s[1] == 'p' {
        5
    } else     if s.len() == 13 && s[0] == 'w' && s[1] == 'u' {
        6
    } else     if s.len() == 12 && s[0] == 'w' && s[1] == 'u' {
        7
    } else     if s.len() == 11 && s[0] == 'm' && s[1] == 'a' {
        8
    } else     if s.len() == 12 && s[0] == 'i' && s[1] == 'n' {
        9
    } else     if s.len() == 6 && s[0] == 'd' && s[1] == 'o' {
        10
    } else     if s.len() == 10 && s[0] == 'm' && s[1] == 'a' {
        11
    } else     if s.len() == 12 && s[0] == 'd' && s[1] == 'i' {
        12
    } else     if s.len() == 9 && s[0] == 'b' && s[1] == 'l' {
        13
    } else     if s.len() == 10 && s[0] == 'r' && s[1] == 'u' {
        14
    } else     if s.len() == 13 && s[0] == 'a' && s[1] == 'b' {
        15
    } else     if s.len() == 8 && s[0] == 'a' && s[1] == 'w' {
        16
    } else     if s.len() == 15 && s[0] == 'a' && s[1] == 'p' {
        17
    } else     if s.len() == 11 && s[0] == 'z' && s[1] == 'o' {
        18
    } else     if s.len() == 17 && s[0] == 'c' && s[1] == 'i' {
        19
    } else     if s.len() == 10 && s[0] == 'm' && s[1] == 'e' {
        20
    } else     if s.len() == 14 && s[0] == 'g' && s[1] == 'e' {
        21
    } else     if s.len() == 12 && s[0] == 's' && s[1] == 'y' {
        22
    } else     if s.len() == 13 && s[0] == 'i' && s[1] == 'n' {
        23
    } else {
        -1
    }
}

/// The table of predefined realm systems is well formed: ids are distinct;
/// every system has a name and an icon; its levels form a chain of stages
/// joined by `→` that normalizing leaves as it is; and its category is one
/// that the realm pickers list, so every system can be chosen.
pub proof fn law_realm_table_well_formed()
    ensures
        forall|i: int, j: int|
            0 <= i < j < realm_table().len() ==> #[trigger] realm_table()[i].id@ != #[trigger] realm_table()[j].id@,
        forall|i: int|
            0 <= i < realm_table().len() ==> {
                &&& (#[trigger] realm_table()[i]).name@.len() > 0
                &&& realm_table()[i].icon@.len() > 0
                &&& realm_table()[i].levels@.contains('→')
                &&& normalized_levels(realm_table()[i].levels@) == realm_table()[i].levels@
                &&& category_table().contains(realm_table()[i].category)
            },
{
    let t = realm_table();
    let cats = category_table();
    reveal_strlit("xianxia_classic");
    reveal_strlit("xianxia_extended");
    reveal_strlit("dao_realm");
    reveal_strlit("demon_path");
    reveal_strlit("body_refine");
    reveal_strlit("spirit_root");
    reveal_strlit("wudao_classic");
    reveal_strlit("wudao_modern");
    reveal_strlit("martial_god");
    reveal_strlit("intent_realm");
    reveal_strlit("dou_qi");
    reveal_strlit("magic_star");
    reveal_strlit("divine_realm");
    reveal_strlit("bloodline");
    reveal_strlit("rune_grade");
    reveal_strlit("ability_level");
    reveal_strlit("awakener");
    reveal_strlit("apocalypse_rank");
    reveal_strlit("zombie_rank");
    reveal_strlit("civilization_tier");
    reveal_strlit("mecha_rank");
    reveal_strlit("gene_evolution");
    reveal_strlit("system_grade");
    reveal_strlit("infinite_rank");
    assert forall|i: int| 0 <= i < t.len() implies id_rank(#[trigger] t[i].id@) == i by {
        if i == 0 {
        } else if i == 1 {
        } else if i == 2 {
        } else if i == 3 {
        } else if i == 4 {
        } else if i == 5 {
        } else if i == 6 {
        } else if i == 7 {
        } else if i == 8 {
        } else if i == 9 {
        } else if i == 10 {
        } else if i == 11 {
        } else if i == 12 {
        } else if i == 13 {
        } else if i == 14 {
        } else if i == 15 {
        } else if i == 16 {
        } else if i == 17 {
        } else if i == 18 {
        } else if i == 19 {
        } else if i == 20 {
        } else if i == 21 {
        } else if i == 22 {
        } else if i == 23 {
        }
    }
    assert forall|i: int, j: int| 0 <= i < j < t.len() implies #[trigger] t[i].id@ != #[trigger] t[j].id@ by {
        assert(id_rank(t[i].id@) == i);
        assert(id_rank(t[j].id@) == j);
    }
    assert forall|i: int| 0 <= i < t.len() implies {
        &&& (#[trigger] t[i]).name@.len() > 0
        &&& t[i].icon@.len() > 0
        &&& t[i].levels@.contains('→')
        &&& normalized_levels(t[i].levels@) == t[i].levels@
        &&& cats.contains(t[i].category)
    } by {
        if i == 0 {
            reveal_strlit("仙道经典");
            reveal_strlit("⚡");
            reveal_strlit("练气→筑基→金丹→元婴→化神→炼虚→合体→大乘→渡劫→飞升");
            lemma_clean_levels_normalized(t[0].levels@);
            assert(t[0].levels@[2] == '→');
            assert(cats[0] == t[0].category);
        } else if i == 1 {
            reveal_strlit("仙道扩展");
            reveal_strlit("🌌");
            reveal_strlit("淬体→练气→筑基→金丹→元婴→化神→炼虚→合体→大乘→渡劫→飞升→太乙→金仙→大罗→混元");
            lemma_clean_levels_normalized(t[1].levels@);
            assert(t[1].levels@[2] == '→');
            assert(cats[0] == t[1].category);
        } else if i == 2 {
            reveal_strlit("道境层次");
            reveal_strlit("☯️");
            reveal_strlit("凡境→道基→道种→道心→道躯→道魂→道尊→道圣→道帝→道祖→天道");
            lemma_clean_levels_normalized(t[2].levels@);
            assert(t[2].levels@[2] == '→');
            assert(cats[0] == t[2].category);
        } else if i == 3 {
            reveal_strlit("魔道境界");
            reveal_strlit("🔥");
            reveal_strlit("炼皮→炼骨→炼脉→炼脏→炼神→魔徒→魔师→魔王→魔皇→魔圣→魔祖");
            lemma_clean_levels_normalized(t[3].levels@);
            assert(t[3].levels@[2] == '→');
            assert(cats[0] == t[3].category);
        } else if i == 4 {
            reveal_strlit("炼体境界");
            reveal_strlit("💪");
            reveal_strlit("淬骨→铸筋→凝血→炼脏→金身→铜躯→铁甲→玄铁→天罡→不灭→神体");
            lemma_clean_levels_normalized(t[4].levels@);
            assert(t[4].levels@[2] == '→');
            assert(cats[0] == t[4].category);
        } else if i == 5 {
            reveal_strlit("灵根品阶");
            reveal_strlit("🌱");
            reveal_strlit("废灵根→七灵根→六灵根→五灵根→四灵根→三灵根→双灵根→单灵根→变异灵根→天灵根→混沌灵根");
            lemma_clean_levels_normalized(t[5].levels@);
            assert(t[5].levels@[3] == '→');
            assert(cats[0] == t[5].category);
        } else if i == 6 {
            reveal_strlit("武道经典");
            reveal_strlit("🥊");
            reveal_strlit("后天→先天→宗师→武圣→武神→武尊→武帝→武皇→武宗→武祖");
            lemma_clean_levels_normalized(t[6].levels@);
            assert(t[6].levels@[2] == '→');
            assert(cats[1] == t[6].category);
        } else if i == 7 {
            reveal_strlit("武道现代");
            reveal_strlit("⚔️");
            reveal_strlit("炼体期→炼气期→化劲期→先天期→宗师期→大宗师→武王→武皇→武帝→武圣");
            lemma_clean_levels_normalized(t[7].levels@);
            assert(t[7].levels@[3] == '→');
            assert(cats[1] == t[7].category);
        } else if i == 8 {
            reveal_strlit("武神境界");
            reveal_strlit("🗡️");
            reveal_strlit("武徒→武者→武师→武灵→武将→武侯→武王→武帝→半步武神→武神→武祖");
            lemma_clean_levels_normalized(t[8].levels@);
            assert(t[8].levels@[2] == '→');
            assert(cats[1] == t[8].category);
        } else if i == 9 {
            reveal_strlit("武意境界");
            reveal_strlit("🌊");
            reveal_strlit("入门→小成→大成→炉火纯青→登峰造极→意境初开→意境小成→意境大成→意境化神→天人合一");
            lemma_clean_levels_normalized(t[9].levels@);
            assert(t[9].levels@[2] == '→');
            assert(cats[1] == t[9].category);
        } else if i == 10 {
            reveal_strlit("斗气境界");
            reveal_strlit("🐲");
            reveal_strlit("斗者→斗师→大斗师→斗灵→斗王→斗皇→斗宗→斗尊→斗圣→斗帝");
            lemma_clean_levels_normalized(t[10].levels@);
            assert(t[10].levels@[2] == '→');
            assert(cats[2] == t[10].category);
        } else if i == 11 {
            reveal_strlit("魔法星级");
            reveal_strlit("✨");
            reveal_strlit("一星→二星→三星→四星→五星→六星→七星→八星→九星→神级");
            lemma_clean_levels_normalized(t[11].levels@);
            assert(t[11].levels@[2] == '→');
            assert(cats[2] == t[11].category);
        } else if i == 12 {
            reveal_strlit("神魔体系");
            reveal_strlit("⚜️");
            reveal_strlit("凡人→武者→武师→武将→武侯→武王→武帝→半神→神→主神→古神→混沌神");
            lemma_clean_levels_normalized(t[12].levels@);
            assert(t[12].levels@[2] == '→');
            assert(cats[2] == t[12].category);
        } else if i == 13 {
            reveal_strlit("血脉等阶");
            reveal_strlit("🩸");
            reveal_strlit("凡血→黄阶→玄阶→地阶→天阶→神阶→祖血→始血→混沌血脉");
            lemma_clean_levels_normalized(t[13].levels@);
            assert(t[13].levels@[2] == '→');
            assert(cats[2] == t[13].category);
        } else if i == 14 {
            reveal_strlit("符文品级");
            reveal_strlit("📜");
            reveal_strlit("一品符文→二品→三品→四品→五品→六品→七品→八品→九品→神品→传说→神话");
            lemma_clean_levels_normalized(t[14].levels@);
            assert(t[14].levels@[4] == '→');
            assert(cats[2] == t[14].category);
        } else if i == 15 {
            reveal_strlit("异能等级");
            reveal_strlit("⚡");
            reveal_strlit("觉醒→F级→E级→D级→C级→B级→A级→S级→SS级→SSS级→神级");
            lemma_clean_levels_normalized(t[15].levels@);
            assert(t[15].levels@[2] == '→');
            assert(cats[3] == t[15].category);
        } else if i == 16 {
            reveal_strlit("觉醒者阶段");
            reveal_strlit("🔮");
            reveal_strlit("潜力者→初阶觉醒→中阶觉醒→高阶觉醒→精英觉醒→超凡觉醒→传说觉醒→神话觉醒");
            lemma_clean_levels_normalized(t[16].levels@);
            assert(t[16].levels@[3] == '→');
            assert(cats[3] == t[16].category);
        } else if i == 17 {
            reveal_strlit("末世进化");
            reveal_strlit("☠️");
            reveal_strlit("普通人→一阶→二阶→三阶→四阶→五阶→六阶→超阶→神阶→变异神阶");
            lemma_clean_levels_normalized(t[17].levels@);
            assert(t[17].levels@[3] == '→');
            assert(cats[4] == t[17].category);
        } else if i == 18 {
            reveal_strlit("丧尸进化");
            reveal_strlit("🧟");
            reveal_strlit("普通丧尸→二阶丧尸→三阶变种→四阶精英→五阶领主→六阶王者→BOSS级→神级丧尸");
            lemma_clean_levels_normalized(t[18].levels@);
            assert(t[18].levels@[4] == '→');
            assert(cats[4] == t[18].category);
        } else if i == 19 {
            reveal_strlit("文明等级");
            reveal_strlit("🚀");
            reveal_strlit("Ⅰ型文明→Ⅱ型文明→Ⅲ型文明→Ⅳ型文明（星系）→Ⅴ型（星域）→Ⅵ型（宇宙）→超维文明");
            lemma_clean_levels_normalized(t[19].levels@);
            assert(t[19].levels@[4] == '→');
            assert(cats[5] == t[19].category);
        } else if i == 20 {
            reveal_strlit("机甲等级");
            reveal_strlit("🤖");
            reveal_strlit("E级机甲→D级→C级→B级→A级→S级→神机→传说机甲→星灵机甲");
            lemma_clean_levels_normalized(t[20].levels@);
            assert(t[20].levels@[4] == '→');
            assert(cats[5] == t[20].category);
        } else if i == 21 {
            reveal_strlit("基因进化");
            reveal_strlit("🧬");
            reveal_strlit("原始人类→基因改造→一阶进化→二阶→三阶→四阶→五阶→超进化→神进化→宇宙生命体");
            lemma_clean_levels_normalized(t[21].levels@);
            assert(t[21].levels@[4] == '→');
            assert(cats[5] == t[21].category);
        } else if i == 22 {
            reveal_strlit("系统等级");
            reveal_strlit("💻");
            reveal_strlit("Lv.1→Lv.10→Lv.20→Lv.30→Lv.50→Lv.100→隐藏职业→传说职业→神话职业→系统主宰");
            lemma_clean_levels_normalized(t[22].levels@);
            assert(t[22].levels@[4] == '→');
            assert(cats[6] == t[22].category);
        } else if i == 23 {
            reveal_strlit("无限副本");
            reveal_strlit("🌀");
            reveal_strlit("新手→普通玩家→精英→王者→传说→神话→永恒→起源→无上");
            lemma_clean_levels_normalized(t[23].levels@);
            assert(t[23].levels@[2] == '→');
            assert(cats[7] == t[23].category);
        }
    }
}

/// A chapter is requested with the outline in use: the optimized outline
/// whenever there is one, the raw outline only when there is none; and that
/// outline is sent whole up to 1200 characters, else as its first 1200
/// characters followed by `…`.
pub proof fn law_chapter_request_outline(old: Session, new: Session, idx: int, effects: Seq<Effect>)
    requires
        launched(old, new, idx, effects),
    ensures
        match effects[1] {
            Effect::Send(WorkerCmd::GenerateChapter { outline, .. }) => {
                let o = if old.project.optimized_outline@.len() > 0 {
                    old.project.optimized_outline@
                } else {
                    old.project.outline@
                };
                &&& o.len() <= 1200 ==> outline@ == o
                &&& o.len() > 1200 ==> outline@ == o.take(1200).push('…')
            },
            _ => false,
        },
{
}

/// The dashes that close a chapter in the exported text.
pub open spec fn forty_dashes() -> Seq<char> {
    Seq::new(40, |i: int| '-')
}

/// Exporting a novel with one more chapter gives the export of the novel
/// without it, followed by that chapter's section when it is finished
/// (`第N章 title`, its text, a line of 40 dashes) and by nothing otherwise:
/// every finished chapter is exported, once, in chapter order.
pub proof fn law_export_appends_finished_chapter(p: NovelProject, q: NovelProject, c: Chapter)
    requires
        q.title == p.title,
        q.author == p.author,
        q.optimized_outline == p.optimized_outline,
        q.chapters@ == p.chapters@.push(c),
    ensures
        novel_text(q) == novel_text(p) + if c.status is Done {
            "第"@ + decimal(c.number as nat) + "章 "@ + c.title@ + "\n\n"@ + c.content@ + "\n\n"@
                + forty_dashes() + "\n\n"@
        } else {
            Seq::<char>::empty()
        },
{
    assert(q.chapters@.drop_last() =~= p.chapters@);
    assert(q.chapters@.last() == c);
    assert(crate::novel::repeat('-', 40) =~= forty_dashes());
    let h = novel_text(p).take(novel_text(p).len() - crate::novel::chapters_text(p.chapters@).len());
    assert(novel_text(p) =~= h + crate::novel::chapters_text(p.chapters@));
    if c.status is Done {
        assert(novel_text(q) =~= novel_text(p) + crate::novel::chapter_text(c));
    } else {
        assert(novel_text(q) =~= novel_text(p));
    }
}

/// The prompt line for a selected realm id: the system's name, icon and
/// levels when the id is known, nothing otherwise.
pub open spec fn selected_realm_line(id: Seq<char>) -> Seq<char> {
    match realm_with_id(id) {
        Some(r) => "▸ "@ + r.name@ + "（"@ + r.icon@ + "）："@ + r.levels@ + "\n"@,
        None => Seq::empty(),
    }
}

/// Selecting one more realm system adds its line to the prompt section, after
/// the lines of the systems selected before it and before the closing
/// request: no selection gives no section, and every known selected system
/// gets its line, in the order of selection.
pub proof fn law_realm_prompt_appends_selection(ids: Seq<String>, x: String)
    ensures
        realm_prompt(Seq::<String>::empty()) == Seq::<char>::empty(),
        ids.len() == 0 ==> realm_prompt(ids.push(x)) == "\n\n【当前世界境界体系】\n"@ + selected_realm_line(x@)
            + "请在行文中自然体现以上境界体系，角色实力对比须符合境界逻辑。"@,
        ids.len() > 0 ==> {
            let f = "请在行文中自然体现以上境界体系，角色实力对比须符合境界逻辑。"@;
            let before = realm_prompt(ids);
            &&& before.len() >= f.len()
            &&& before.skip(before.len() - f.len()) == f
            &&& realm_prompt(ids.push(x)) == before.take(before.len() - f.len()) + selected_realm_line(x@) + f
        },
{
    let h = "\n\n【当前世界境界体系】\n"@;
    let f = "请在行文中自然体现以上境界体系，角色实力对比须符合境界逻辑。"@;
    let ids2 = ids.push(x);
    assert(ids2.drop_last() =~= ids);
    assert(ids2.last() == x);
    let l = crate::realms::realm_lines(ids);
    assert(crate::realms::realm_lines(ids2) == l + selected_realm_line(x@));
    if ids.len() == 0 {
        assert(l == Seq::<char>::empty());
        assert(realm_prompt(ids2) =~= h + selected_realm_line(x@) + f);
    } else {
        let before = realm_prompt(ids);
        assert(before =~= h + l + f);
        assert(before.skip(before.len() - f.len()) =~= f);
        assert(before.take(before.len() - f.len()) =~= h + l);
        assert(realm_prompt(ids2) =~= h + l + selected_realm_line(x@) + f);
    }
}

/// The user prompt that the writer sends for a command (none for Stop).
pub open spec fn user_prompt(c: WorkerCmd, tmpl: Option<PromptTemplate>) -> Seq<char> {
    match step_for(c, tmpl) {
        Some(m) => m.1,
        None => Seq::empty(),
    }
}

/// The two extra requests of a chapter prompt act independently: switching
/// on the ban on famous names appends that request, whatever the request
/// against machine-like prose is; switching that one on (with the ban off)
/// appends it. Each request is a paragraph of its own.
pub proof fn law_chapter_prompt_extra_requests(c: WorkerCmd, tmpl: Option<PromptTemplate>)
    ensures
        famous_names_note().take(9) == "\n\n禁用以下主角名"@,
        reduce_ai_note().take(6) == "\n\n额外要求"@,
        match c {
            WorkerCmd::GenerateChapter {
                num,
                chapter_title,
                brief,
                novel_title,
                outline,
                context,
                template_name,
                words,
                realm_info,
                reduce_ai_traits,
                avoid_famous_names,
            } => {
                let with_ban = WorkerCmd::GenerateChapter {
                    num,
                    chapter_title,
                    brief,
                    novel_title,
                    outline,
                    context,
                    template_name,
                    words,
                    realm_info,
                    reduce_ai_traits,
                    avoid_famous_names: true,
                };
                let without_ban = WorkerCmd::GenerateChapter {
                    num,
                    chapter_title,
                    brief,
                    novel_title,
                    outline,
                    context,
                    template_name,
                    words,
                    realm_info,
                    reduce_ai_traits,
                    avoid_famous_names: false,
                };
                let reduced = WorkerCmd::GenerateChapter {
                    num,
                    chapter_title,
                    brief,
                    novel_title,
                    outline,
                    context,
                    template_name,
                    words,
                    realm_info,
                    reduce_ai_traits: true,
                    avoid_famous_names: false,
                };
                let plain = WorkerCmd::GenerateChapter {
                    num,
                    chapter_title,
                    brief,
                    novel_title,
                    outline,
                    context,
                    template_name,
                    words,
                    realm_info,
                    reduce_ai_traits: false,
                    avoid_famous_names: false,
                };
                &&& user_prompt(with_ban, tmpl) == user_prompt(without_ban, tmpl) + famous_names_note()
                &&& user_prompt(reduced, tmpl) == user_prompt(plain, tmpl) + reduce_ai_note()
            },
            _ => true,
        },
{
    reveal_strlit("\n\n禁用以下主角名（防止与知名小说雷同）：陈平安、韩立、王林、楚天南、萧炎、唐三、洛天、罗峰、林动、叶凡、石昊、孟浩、王腾、李慕白、徐凤年、宁缺、傅红雪。请使用原创姓名。");
    reveal_strlit("\n\n额外要求：避免明显的 AI 写作特征——少用排比铺陈、固定句式开头、过度比喻；多用具体细节代替形容词；对话符合人物身份不要书面化。");
    reveal_strlit("\n\n禁用以下主角名");
    reveal_strlit("\n\n额外要求");
    assert(famous_names_note().take(9) =~= "\n\n禁用以下主角名"@);
    assert(reduce_ai_note().take(6) =~= "\n\n额外要求"@);
    match c {
        WorkerCmd::GenerateChapter { .. } => {
            assert forall|a: Seq<char>, b: Seq<char>| #![auto] a + Seq::<char>::empty() + b == a + b by {
                assert(a + Seq::<char>::empty() =~= a);
            }
        },
        _ => {},
    }
}

/// The prompt lines of a user-defined realm numbered `n`: `n. name`, the
/// description in full-width brackets when there is one, and, whenever the
/// realm has minor stages, the line `   小境界：` with the stages normalized.
pub open spec fn realm_entry_lines(n: nat, r: CustomRealm) -> Seq<char> {
    decimal(n) + ". "@ + r.name@ + (if r.description@.len() == 0 {
        Seq::<char>::empty()
    } else {
        "（"@ + r.description@ + "）"@
    }) + "\n"@ + (if r.sub_levels@.len() == 0 {
        Seq::<char>::empty()
    } else {
        "   小境界："@ + normalized_levels(r.sub_levels@) + "\n"@
    })
}

proof fn lemma_insert_last(t: Seq<CustomRealm>, x: CustomRealm)
    requires
        forall|k: int| 0 <= k < t.len() ==> (#[trigger] t[k]).order <= x.order,
    ensures
        insert_by_order(t, x) == t.push(x),
    decreases t.len(),
{
    if t.len() == 0 {
        assert(seq![x] =~= t.push(x));
    } else {
        let u = t.drop_first();
        assert forall|k: int| 0 <= k < u.len() implies (#[trigger] u[k]).order <= x.order by {
            assert(u[k] == t[k + 1]);
        }
        lemma_insert_last(u, x);
        assert(t[0].order <= x.order);
        assert(seq![t[0]] + u.push(x) =~= t.push(x));
    }
}

/// Adding a user-defined realm ordered after all the others adds its lines,
/// numbered next, at the end of the prompt section (which starts with its
/// heading when it is the first realm); its minor stages are listed whether
/// or not it has a description.
pub proof fn law_custom_prompt_appends_realm(s: Seq<CustomRealm>, r: CustomRealm)
    requires
        forall|k: int| 0 <= k < s.len() ==> (#[trigger] s[k]).order <= r.order,
    ensures
        custom_realms_prompt(s.push(r)) == (if s.len() == 0 {
            "\n\n【自定义境界体系】\n"@
        } else {
            custom_realms_prompt(s)
        }) + realm_entry_lines((s.len() + 1) as nat, r),
{
    broadcast use vstd::seq_lib::group_to_multiset_ensures;
    let s2 = s.push(r);
    assert(s2.drop_last() =~= s);
    assert(s2.last() == r);
    let t = sort_by_order(s);
    law_realm_sort_orders_and_keeps(s);
    assert(t.to_multiset().len() == t.len());
    assert(s.to_multiset().len() == s.len());
    assert forall|k: int| 0 <= k < t.len() implies (#[trigger] t[k]).order <= r.order by {
        assert(t.contains(t[k]));
        assert(t.to_multiset().count(t[k]) > 0);
        assert(s.to_multiset().count(t[k]) > 0);
        assert(s.contains(t[k]));
        let m = choose|m: int| 0 <= m < s.len() && s[m] == t[k];
        assert(s[m].order <= r.order);
    }
    lemma_insert_last(t, r);
    assert(sort_by_order(s2) == t.push(r));
    let e = crate::realms::custom_realm_entries(t);
    assert(t.push(r).drop_last() =~= t);
    assert(crate::realms::custom_realm_entries(t.push(r)) == e + crate::realms::custom_realm_entry(t.len() as nat, r));
    assert(crate::realms::custom_realm_entry(t.len() as nat, r) == realm_entry_lines((s.len() + 1) as nat, r));
    if s.len() == 0 {
        assert(t.len() == 0);
        assert(e == Seq::<char>::empty());
        assert(custom_realms_prompt(s2) =~= "\n\n【自定义境界体系】\n"@ + realm_entry_lines(1, r));
    } else {
        assert(custom_realms_prompt(s2) =~= custom_realms_prompt(s) + realm_entry_lines((s.len() + 1) as nat, r));
    }
}

} // verus!
