use crate::novel::{CustomRealm, NovelProject, total_word_count};
use crate::realms::{sort_by_order, sorted_by_order};
use crate::text::{chars_of, parse_unsigned, parse_unsigned_chars, str_equal};
use vstd::prelude::*;

verus! {

/// The chapter count a typed text sets: a positive number, at most 500;
/// anything else leaves `current`.
pub open spec fn typed_chapter_count(text: Seq<char>, current: usize) -> usize {
    match parse_unsigned(text, usize::MAX as nat) {
        Some(n) => if n > 0 {
            if n < 500 {
                n as usize
            } else {
                500
            }
        } else {
            current
        },
        None => current,
    }
}

/// The words per chapter a typed text sets: at least 200, at most 10000;
/// anything else leaves `current`.
pub open spec fn typed_word_target(text: Seq<char>, current: usize) -> usize {
    match parse_unsigned(text, usize::MAX as nat) {
        Some(n) => if n >= 200 {
            if n < 10000 {
                n as usize
            } else {
                10000
            }
        } else {
            current
        },
        None => current,
    }
}

/// Whether `a` and `b` agree on everything but the chapter count and the
/// words per chapter.
pub open spec fn same_but_targets(a: NovelProject, b: NovelProject) -> bool {
    &&& a.title == b.title
    &&& a.author == b.author
    &&& a.template == b.template
    &&& a.outline == b.outline
    &&& a.optimized_outline == b.optimized_outline
    &&& a.chapters@ == b.chapters@
    &&& a.selected_realms@ == b.selected_realms@
    &&& a.custom_realm == b.custom_realm
    &&& a.reduce_ai_traits == b.reduce_ai_traits
    &&& a.avoid_famous_names == b.avoid_famous_names
    &&& a.custom_realms@ == b.custom_realms@
    &&& a.created_at == b.created_at
    &&& a.updated_at == b.updated_at
}

/// Whether `a` and `b` agree on everything but the selected realm systems.
pub open spec fn same_but_realms(a: NovelProject, b: NovelProject) -> bool {
    &&& a.title == b.title
    &&& a.author == b.author
    &&& a.template == b.template
    &&& a.outline == b.outline
    &&& a.optimized_outline == b.optimized_outline
    &&& a.chapters@ == b.chapters@
    &&& a.target_chapters == b.target_chapters
    &&& a.target_words_per_chapter == b.target_words_per_chapter
    &&& a.custom_realm == b.custom_realm
    &&& a.reduce_ai_traits == b.reduce_ai_traits
    &&& a.avoid_famous_names == b.avoid_famous_names
    &&& a.custom_realms@ == b.custom_realms@
    &&& a.created_at == b.created_at
    &&& a.updated_at == b.updated_at
}

/// The selection after toggling `id`: every copy removed when it is there,
/// else appended.
pub open spec fn toggled(ids: Seq<String>, id: Seq<char>) -> Seq<Seq<char>> {
    let views = ids.map_values(|s: String| s@);
    if views.contains(id) {
        views.filter(|s: Seq<char>| s != id)
    } else {
        views.push(id)
    }
}

impl NovelProject {
    /// Sets the chapter count from what the user typed.
    pub fn apply_chapter_count_text(&mut self, text: &str)
        ensures
            same_but_targets(*final(self), *old(self)),
            final(self).target_words_per_chapter == old(self).target_words_per_chapter,
            final(self).target_chapters == typed_chapter_count(text@, old(self).target_chapters),
    {
        if let Some(n) = parse_unsigned_chars(&chars_of(text), usize::MAX) {
            if n > 0 {
                self.target_chapters = if n < 500 {
                    n
                } else {
                    500
                };
            }
        }
    }

    /// Sets the words per chapter from what the user typed.
    pub fn apply_word_target_text(&mut self, text: &str)
        ensures
            same_but_targets(*final(self), *old(self)),
            final(self).target_chapters == old(self).target_chapters,
            final(self).target_words_per_chapter == typed_word_target(
                text@,
                old(self).target_words_per_chapter,
            ),
    {
        if let Some(n) = parse_unsigned_chars(&chars_of(text), usize::MAX) {
            if n >= 200 {
                self.target_words_per_chapter = if n < 10000 {
                    n
                } else {
                    10000
                };
            }
        }
    }

    /// Selects the realm system `id`, or deselects it when it is selected.
    pub fn toggle_realm(&mut self, id: &str)
        ensures
            same_but_realms(*final(self), *old(self)),
            final(self).selected_realms@.map_values(|s: String| s@) == toggled(old(self).selected_realms@, id@),
    {
        let ghost views = self.selected_realms@.map_values(|s: String| s@);
        let mut found = false;
        let mut kept: Vec<String> = Vec::new();
        let mut k: usize = 0;
        proof {
            assert(views.take(0).filter(|s: Seq<char>| s != id@) =~= Seq::<Seq<char>>::empty());
        }
        while k < self.selected_realms.len()
            invariant
                k <= self.selected_realms.len(),
                views == self.selected_realms@.map_values(|s: String| s@),
                self.selected_realms == old(self).selected_realms,
                found == views.take(k as int).contains(id@),
                kept@.map_values(|s: String| s@) == views.take(k as int).filter(|s: Seq<char>| s != id@),
            decreases self.selected_realms.len() - k,
        {
            let ghost prev = kept@;
            let same = str_equal(self.selected_realms[k].as_str(), id);
            proof {
                assert(views.take(k + 1).drop_last() =~= views.take(k as int));
                assert(views.take(k + 1).last() == self.selected_realms@[k as int]@);
                reveal(Seq::filter);
            }
            if same {
                found = true;
            } else {
                kept.push(self.selected_realms[k].clone());
                proof {
                    assert(kept@.map_values(|s: String| s@) =~= prev.map_values(|s: String| s@).push(
                        self.selected_realms@[k as int]@,
                    ));
                }
            }
            proof {
                if !found {
                    assert(!views.take(k as int).contains(id@));
                    assert forall|j: int| 0 <= j < k + 1 implies #[trigger] views.take(k + 1)[j] != id@ by {
                        if j < k {
                            assert(views.take(k + 1)[j] == views.take(k as int)[j]);
                        }
                    }
                } else if !same {
                    let j = choose|j: int| 0 <= j < k && views.take(k as int)[j] == id@;
                    assert(views.take(k + 1)[j] == id@);
                }
                if same {
                    assert(views.take(k + 1)[k as int] == id@);
                }
            }
            k += 1;
        }
        proof {
            assert(views.take(self.selected_realms.len() as int) =~= views);
        }
        if found {
            self.selected_realms = kept;
        } else {
            self.selected_realms.push(String::from_str(id));
            proof {
                assert(self.selected_realms@.map_values(|s: String| s@) =~= views.push(id@));
            }
        }
    }

    /// The total word count, or `None` when it does not fit in a `usize`.
    pub fn total_words_checked(&self) -> (r: Option<usize>)
        ensures
            match r {
                Some(n) => n as nat == total_word_count(self.chapters@),
                None => total_word_count(self.chapters@) > usize::MAX,
            },
    {
        let mut sum: usize = 0;
        let mut i: usize = 0;
        proof {
            assert(self.chapters@.take(0) =~= Seq::<crate::novel::Chapter>::empty());
        }
        while i < self.chapters.len()
            invariant
                i <= self.chapters.len(),
                sum as nat == total_word_count(self.chapters@.take(i as int)),
            decreases self.chapters.len() - i,
        {
            proof {
                assert(self.chapters@.take(i + 1).drop_last() =~= self.chapters@.take(i as int));
            }
            let w = self.chapters[i].word_count;
            if sum > usize::MAX - w {
                proof {
                    crate::novel::lemma_total_word_count_prefix(self.chapters@, i + 1);
                }
                return None;
            }
            sum = sum + w;
            i += 1;
        }
        proof {
            assert(self.chapters@.take(self.chapters.len() as int) =~= self.chapters@);
        }
        Some(sum)
    }
}

// ---------------------------------------------------------------------------
// User-defined realms in the wizard
// ---------------------------------------------------------------------------

/// The largest order among `rs` (zero for none).
pub open spec fn max_order(rs: Seq<CustomRealm>) -> nat
    decreases rs.len(),
{
    if rs.len() == 0 {
        0
    } else {
        let m = max_order(rs.drop_last());
        if rs.last().order as nat > m {
            rs.last().order as nat
        } else {
            m
        }
    }
}

/// The largest order among the realms (zero for none).
pub fn highest_order(rs: &Vec<CustomRealm>) -> (r: u32)
    ensures
        r as nat == max_order(rs@),
{
    let mut m: u32 = 0;
    let mut i: usize = 0;
    proof {
        assert(rs@.take(0) =~= Seq::<CustomRealm>::empty());
    }
    while i < rs.len()
        invariant
            i <= rs.len(),
            m as nat == max_order(rs@.take(i as int)),
        decreases rs.len() - i,
    {
        proof {
            assert(rs@.take(i + 1).drop_last() =~= rs@.take(i as int));
        }
        if rs[i].order > m {
            m = rs[i].order;
        }
        i += 1;
    }
    proof {
        assert(rs@.take(rs.len() as int) =~= rs@);
    }
    m
}

/// The order proposed for a new realm: one more than the largest.
pub fn next_custom_realm_order(rs: &Vec<CustomRealm>) -> (r: u32)
    requires
        max_order(rs@) < u32::MAX,
    ensures
        r == max_order(rs@) + 1,
{
    highest_order(rs) + 1
}

/// Adds a realm and keeps the list stably sorted by order.
pub fn add_custom_realm(rs: &mut Vec<CustomRealm>, r: CustomRealm)
    ensures
        final(rs)@ == sort_by_order(old(rs)@.push(r)),
{
    rs.push(r);
    let sorted = sorted_by_order(rs.as_slice());
    *rs = sorted;
}

/// Removes every realm with the given order and name.
pub fn remove_custom_realm(rs: &mut Vec<CustomRealm>, order: u32, name: &str)
    ensures
        final(rs)@ == old(rs)@.filter(|c: CustomRealm| !(c.order == order && c.name@ == name@)),
{
    let ghost before = rs@;
    let mut kept: Vec<CustomRealm> = Vec::new();
    let mut k: usize = 0;
    proof {
        assert(before.take(0).filter(|c: CustomRealm| !(c.order == order && c.name@ == name@)) =~= Seq::<CustomRealm>::empty());
    }
    while k < rs.len()
        invariant
            k <= rs.len(),
            rs@ == before,
            kept@ == before.take(k as int).filter(|c: CustomRealm| !(c.order == order && c.name@ == name@)),
        decreases rs.len() - k,
    {
        proof {
            assert(before.take(k + 1).drop_last() =~= before.take(k as int));
            reveal(Seq::filter);
        }
        let drop = rs[k].order == order && str_equal(rs[k].name.as_str(), name);
        if !drop {
            kept.push(rs[k].clone());
        }
        k += 1;
    }
    proof {
        assert(before.take(rs.len() as int) =~= before);
    }
    *rs = kept;
}

} // verus!
