use crate::text::{
    append_string, count_non_whitespace, count_non_ws, decimal, decimal_string, chars_of,
    push_char, slice_chars, str_equal, string_of, tail,
};
use vstd::prelude::*;

verus! {

/// A realm (power level) that the user defines for the story world.
#[derive(Debug)]
pub struct CustomRealm {
    /// Position in the ladder: the larger, the stronger.
    pub order: u32,
    pub name: String,
    pub description: String,
    /// Minor stages, separated by `/`, `／` or `→`.
    pub sub_levels: String,
}

impl Clone for CustomRealm {
    fn clone(&self) -> (r: Self)
        ensures
            r == *self,
    {
        CustomRealm {
            order: self.order,
            name: self.name.clone(),
            description: self.description.clone(),
            sub_levels: self.sub_levels.clone(),
        }
    }
}

impl Default for CustomRealm {
    fn default() -> (r: Self)
        ensures
            r.order == 0,
            r.name@ == Seq::<char>::empty(),
            r.description@ == Seq::<char>::empty(),
            r.sub_levels@ == Seq::<char>::empty(),
    {
        CustomRealm {
            order: 0,
            name: String::new(),
            description: String::new(),
            sub_levels: String::new(),
        }
    }
}

/// A point in time as seconds and nanoseconds since the Unix epoch (UTC).
#[derive(Debug, Clone, Copy, PartialEq, Eq, Structural)]
pub struct Timestamp {
    pub secs: i64,
    pub nanos: u32,
}

/// The current time (`chrono::Utc::now`), as seconds and nanoseconds since
/// the Unix epoch. It depends on the clock, so nothing is stated of it.
#[verifier::external_body]
fn now_timestamp() -> Timestamp {
    let now = chrono::Utc::now();
    Timestamp { secs: now.timestamp(), nanos: now.timestamp_subsec_nanos() }
}

/// The state of a chapter in the generation pipeline.
#[derive(Debug)]
pub enum ChapterStatus {
    Pending,
    Generating,
    Done,
    Error(String),
}

impl ChapterStatus {
    /// Whether the chapter is finished.
    pub fn is_done(&self) -> (r: bool)
        ensures
            r == (*self is Done),
    {
        match self {
            ChapterStatus::Done => true,
            _ => false,
        }
    }

    /// Whether the chapter is being written right now.
    pub fn is_generating(&self) -> (r: bool)
        ensures
            r == (*self is Generating),
    {
        match self {
            ChapterStatus::Generating => true,
            _ => false,
        }
    }
}

impl Clone for ChapterStatus {
    fn clone(&self) -> (r: Self)
        ensures
            r == *self,
    {
        match self {
            ChapterStatus::Pending => ChapterStatus::Pending,
            ChapterStatus::Generating => ChapterStatus::Generating,
            ChapterStatus::Done => ChapterStatus::Done,
            ChapterStatus::Error(e) => ChapterStatus::Error(e.clone()),
        }
    }
}

impl PartialEq for ChapterStatus {
    fn eq(&self, other: &Self) -> (r: bool) {
        match (self, other) {
            (ChapterStatus::Pending, ChapterStatus::Pending) => true,
            (ChapterStatus::Generating, ChapterStatus::Generating) => true,
            (ChapterStatus::Done, ChapterStatus::Done) => true,
            (ChapterStatus::Error(a), ChapterStatus::Error(b)) => str_equal(a.as_str(), b.as_str()),
            _ => false,
        }
    }
}

impl vstd::std_specs::cmp::PartialEqSpecImpl for ChapterStatus {
    open spec fn obeys_eq_spec() -> bool {
        true
    }

    open spec fn eq_spec(&self, other: &Self) -> bool {
        match (self, other) {
            (ChapterStatus::Pending, ChapterStatus::Pending) => true,
            (ChapterStatus::Generating, ChapterStatus::Generating) => true,
            (ChapterStatus::Done, ChapterStatus::Done) => true,
            (ChapterStatus::Error(a), ChapterStatus::Error(b)) => a@ == b@,
            _ => false,
        }
    }
}

impl Default for ChapterStatus {
    fn default() -> (r: Self)
        ensures
            r is Pending,
    {
        ChapterStatus::Pending
    }
}

/// One chapter of a novel.
#[derive(Debug)]
pub struct Chapter {
    pub number: usize,
    pub title: String,
    pub content: String,
    pub brief: String,
    pub status: ChapterStatus,
    pub word_count: usize,
}

impl Clone for Chapter {
    fn clone(&self) -> (r: Self)
        ensures
            r == *self,
    {
        Chapter {
            number: self.number,
            title: self.title.clone(),
            content: self.content.clone(),
            brief: self.brief.clone(),
            status: self.status.clone(),
            word_count: self.word_count,
        }
    }
}

impl Default for Chapter {
    fn default() -> (r: Self)
        ensures
            r.number == 0,
            r.title@ == Seq::<char>::empty(),
            r.content@ == Seq::<char>::empty(),
            r.brief@ == Seq::<char>::empty(),
            r.status is Pending,
            r.word_count == 0,
    {
        Chapter::new(0, String::new(), String::new())
    }
}

impl Chapter {
    /// A pending, empty chapter with the given number, title and brief.
    pub fn new(number: usize, title: String, brief: String) -> (r: Self)
        ensures
            r.number == number,
            r.title@ == title@,
            r.brief@ == brief@,
            r.content@ == Seq::<char>::empty(),
            r.status is Pending,
            r.word_count == 0,
    {
        Chapter {
            number,
            title,
            content: String::new(),
            brief,
            status: ChapterStatus::Pending,
            word_count: 0,
        }
    }

    /// Recounts the words: the non-whitespace characters of the content.
    pub fn update_word_count(&mut self)
        ensures
            final(self).word_count == count_non_ws(old(self).content@),
            final(self).number == old(self).number,
            final(self).title == old(self).title,
            final(self).content == old(self).content,
            final(self).brief == old(self).brief,
            final(self).status == old(self).status,
    {
        self.word_count = count_non_whitespace(self.content.as_str());
    }

    /// The last `chars` characters of the content (all of it when shorter).
    pub fn context_tail(&self, chars: usize) -> (r: String)
        ensures
            r@ == tail(self.content@, chars as nat),
    {
        let v = chars_of(self.content.as_str());
        if v.len() <= chars {
            self.content.clone()
        } else {
            string_of(&slice_chars(&v, v.len() - chars, v.len()))
        }
    }
}

/// A novel being written: settings, outline and chapters.
#[derive(Debug)]
pub struct NovelProject {
    pub title: String,
    pub author: String,
    pub template: String,
    pub outline: String,
    pub optimized_outline: String,
    pub chapters: Vec<Chapter>,
    pub target_chapters: usize,
    pub target_words_per_chapter: usize,
    /// Ids of the selected predefined realm systems.
    pub selected_realms: Vec<String>,
    /// Free text describing a realm system of the user's own.
    pub custom_realm: String,
    pub reduce_ai_traits: bool,
    pub avoid_famous_names: bool,
    pub custom_realms: Vec<CustomRealm>,
    pub created_at: Timestamp,
    pub updated_at: Timestamp,
}

/// A copy of a list of chapters.
pub fn clone_chapters(v: &Vec<Chapter>) -> (r: Vec<Chapter>)
    ensures
        r@ == v@,
{
    let mut r: Vec<Chapter> = Vec::new();
    let mut i: usize = 0;
    while i < v.len()
        invariant
            i <= v.len(),
            r@ == v@.take(i as int),
        decreases v.len() - i,
    {
        r.push(v[i].clone());
        proof {
            assert(v@.take(i as int).push(v@[i as int]) =~= v@.take(i + 1));
        }
        i += 1;
    }
    proof {
        assert(v@.take(v.len() as int) =~= v@);
    }
    r
}

/// A copy of a list of strings.
pub fn clone_strings(v: &Vec<String>) -> (r: Vec<String>)
    ensures
        r@ == v@,
{
    let mut r: Vec<String> = Vec::new();
    let mut i: usize = 0;
    while i < v.len()
        invariant
            i <= v.len(),
            r@ == v@.take(i as int),
        decreases v.len() - i,
    {
        r.push(v[i].clone());
        proof {
            assert(v@.take(i as int).push(v@[i as int]) =~= v@.take(i + 1));
        }
        i += 1;
    }
    proof {
        assert(v@.take(v.len() as int) =~= v@);
    }
    r
}

/// A copy of a list of user-defined realms.
pub fn clone_realms(v: &Vec<CustomRealm>) -> (r: Vec<CustomRealm>)
    ensures
        r@ == v@,
{
    let mut r: Vec<CustomRealm> = Vec::new();
    let mut i: usize = 0;
    while i < v.len()
        invariant
            i <= v.len(),
            r@ == v@.take(i as int),
        decreases v.len() - i,
    {
        r.push(v[i].clone());
        proof {
            assert(v@.take(i as int).push(v@[i as int]) =~= v@.take(i + 1));
        }
        i += 1;
    }
    proof {
        assert(v@.take(v.len() as int) =~= v@);
    }
    r
}

impl Clone for NovelProject {
    fn clone(&self) -> (r: Self)
        ensures
            r.title == self.title,
            r.author == self.author,
            r.template == self.template,
            r.outline == self.outline,
            r.optimized_outline == self.optimized_outline,
            r.chapters@ == self.chapters@,
            r.target_chapters == self.target_chapters,
            r.target_words_per_chapter == self.target_words_per_chapter,
            r.selected_realms@ == self.selected_realms@,
            r.custom_realm == self.custom_realm,
            r.reduce_ai_traits == self.reduce_ai_traits,
            r.avoid_famous_names == self.avoid_famous_names,
            r.custom_realms@ == self.custom_realms@,
            r.created_at == self.created_at,
            r.updated_at == self.updated_at,
    {
        NovelProject {
            title: self.title.clone(),
            author: self.author.clone(),
            template: self.template.clone(),
            outline: self.outline.clone(),
            optimized_outline: self.optimized_outline.clone(),
            chapters: clone_chapters(&self.chapters),
            target_chapters: self.target_chapters,
            target_words_per_chapter: self.target_words_per_chapter,
            selected_realms: clone_strings(&self.selected_realms),
            custom_realm: self.custom_realm.clone(),
            reduce_ai_traits: self.reduce_ai_traits,
            avoid_famous_names: self.avoid_famous_names,
            custom_realms: clone_realms(&self.custom_realms),
            created_at: self.created_at,
            updated_at: self.updated_at,
        }
    }
}

impl Default for NovelProject {
    /// A fresh project: default title and template, 20 chapters of 3000 words,
    /// nothing written yet, both timestamps read from the clock.
    fn default() -> (r: Self)
        ensures
            r.title@ == "我的小说"@,
            r.author@ == Seq::<char>::empty(),
            r.template@ == "修仙问道"@,
            r.outline@ == Seq::<char>::empty(),
            r.optimized_outline@ == Seq::<char>::empty(),
            r.chapters@ == Seq::<Chapter>::empty(),
            r.target_chapters == 20,
            r.target_words_per_chapter == 3000,
            r.selected_realms@ == Seq::<String>::empty(),
            r.custom_realm@ == Seq::<char>::empty(),
            !r.reduce_ai_traits,
            !r.avoid_famous_names,
            r.custom_realms@ == Seq::<CustomRealm>::empty(),
    {
        NovelProject {
            title: String::from_str("我的小说"),
            author: String::new(),
            template: String::from_str("修仙问道"),
            outline: String::new(),
            optimized_outline: String::new(),
            chapters: Vec::new(),
            target_chapters: 20,
            target_words_per_chapter: 3000,
            selected_realms: Vec::new(),
            custom_realm: String::new(),
            reduce_ai_traits: false,
            avoid_famous_names: false,
            custom_realms: Vec::new(),
            created_at: now_timestamp(),
            updated_at: now_timestamp(),
        }
    }
}

/// The sum of the word counts of `cs`.
pub open spec fn total_word_count(cs: Seq<Chapter>) -> nat
    decreases cs.len(),
{
    if cs.len() == 0 {
        0
    } else {
        total_word_count(cs.drop_last()) + cs.last().word_count as nat
    }
}

/// The number of finished chapters in `cs`.
pub open spec fn done_count(cs: Seq<Chapter>) -> nat
    decreases cs.len(),
{
    if cs.len() == 0 {
        0
    } else {
        done_count(cs.drop_last()) + if cs.last().status is Done {
            1nat
        } else {
            0nat
        }
    }
}

/// `n` copies of `c`.
pub open spec fn repeat(c: char, n: nat) -> Seq<char> {
    Seq::new(n, |i: int| c)
}

/// The plain-text rendering of one finished chapter.
pub open spec fn chapter_text(c: Chapter) -> Seq<char> {
    "第"@ + decimal(c.number as nat) + "章 "@ + c.title@ + "\n\n"@ + c.content@ + "\n\n"@ + repeat(
        '-',
        40,
    ) + "\n\n"@
}

/// The plain-text rendering of the finished chapters of `cs`, in order.
pub open spec fn chapters_text(cs: Seq<Chapter>) -> Seq<char>
    decreases cs.len(),
{
    if cs.len() == 0 {
        Seq::empty()
    } else {
        chapters_text(cs.drop_last()) + if cs.last().status is Done {
            chapter_text(cs.last())
        } else {
            Seq::empty()
        }
    }
}

/// The whole novel as plain text: title, author, the optimized outline when
/// there is one, then every finished chapter.
pub open spec fn novel_text(p: NovelProject) -> Seq<char> {
    p.title@ + "\n"@ + (if p.author@.len() == 0 {
        Seq::<char>::empty()
    } else {
        "作者："@ + p.author@ + "\n"@
    }) + repeat('=', 50) + "\n\n"@ + (if p.optimized_outline@.len() == 0 {
        Seq::<char>::empty()
    } else {
        "【故事大纲】\n\n"@ + p.optimized_outline@ + "\n\n"@ + repeat('=', 50) + "\n\n"@
    }) + chapters_text(p.chapters@)
}

/// Appends `n` copies of `c` to `s`.
fn push_repeated(s: &mut String, c: char, n: usize)
    ensures
        final(s)@ == old(s)@ + repeat(c, n as nat),
{
    let mut i: usize = 0;
    while i < n
        invariant
            i <= n,
            s@ == old(s)@ + repeat(c, i as nat),
        decreases n - i,
    {
        push_char(s, c);
        proof {
            assert(old(s)@ + repeat(c, (i + 1) as nat) =~= (old(s)@ + repeat(c, i as nat)).push(c));
        }
        i += 1;
    }
}

/// Appends the plain-text rendering of a finished chapter.
fn append_chapter_text(out: &mut String, c: &Chapter)
    ensures
        final(out)@ == old(out)@ + chapter_text(*c),
{
    let ghost before = out@;
    out.append("第");
    append_string(out, &decimal_string(c.number));
    out.append("章 ");
    out.append(c.title.as_str());
    out.append("\n\n");
    out.append(c.content.as_str());
    out.append("\n\n");
    push_repeated(out, '-', 40);
    out.append("\n\n");
    assert(out@ =~= before + chapter_text(*c));
}

impl NovelProject {
    /// The sum of the chapters' word counts.
    pub fn total_words(&self) -> (r: usize)
        requires
            total_word_count(self.chapters@) <= usize::MAX,
        ensures
            r as nat == total_word_count(self.chapters@),
    {
        let mut sum: usize = 0;
        let mut i: usize = 0;
        proof {
            assert(self.chapters@.take(0) =~= Seq::<Chapter>::empty());
        }
        while i < self.chapters.len()
            invariant
                i <= self.chapters.len(),
                total_word_count(self.chapters@) <= usize::MAX,
                sum as nat == total_word_count(self.chapters@.take(i as int)),
            decreases self.chapters.len() - i,
        {
            proof {
                assert(self.chapters@.take(i + 1).drop_last() =~= self.chapters@.take(i as int));
                lemma_total_word_count_prefix(self.chapters@, i + 1);
            }
            sum = sum + self.chapters[i].word_count;
            i += 1;
        }
        proof {
            assert(self.chapters@.take(self.chapters.len() as int) =~= self.chapters@);
        }
        sum
    }

    /// The number of finished chapters.
    pub fn completed_chapters(&self) -> (r: usize)
        ensures
            r as nat == done_count(self.chapters@),
    {
        let mut n: usize = 0;
        let mut i: usize = 0;
        proof {
            assert(self.chapters@.take(0) =~= Seq::<Chapter>::empty());
        }
        while i < self.chapters.len()
            invariant
                i <= self.chapters.len(),
                n <= i,
                n as nat == done_count(self.chapters@.take(i as int)),
            decreases self.chapters.len() - i,
        {
            proof {
                assert(self.chapters@.take(i + 1).drop_last() =~= self.chapters@.take(i as int));
            }
            if self.chapters[i].status.is_done() {
                n += 1;
            }
            i += 1;
        }
        proof {
            assert(self.chapters@.take(self.chapters.len() as int) =~= self.chapters@);
        }
        n
    }

    /// The novel as plain text, for export.
    pub fn to_txt(&self) -> (r: String)
        ensures
            r@ == novel_text(*self),
    {
        let mut out = self.title.clone();
        out.append("\n");
        if self.author.as_str().unicode_len() > 0 {
            out.append("作者：");
            out.append(self.author.as_str());
            out.append("\n");
        }
        push_repeated(&mut out, '=', 50);
        out.append("\n\n");
        if self.optimized_outline.as_str().unicode_len() > 0 {
            out.append("【故事大纲】\n\n");
            out.append(self.optimized_outline.as_str());
            out.append("\n\n");
            push_repeated(&mut out, '=', 50);
            out.append("\n\n");
        }
        let ghost head = out@;
        proof {
            assert(head =~= self.title@ + "\n"@ + (if self.author@.len() == 0 {
                Seq::<char>::empty()
            } else {
                "作者："@ + self.author@ + "\n"@
            }) + repeat('=', 50) + "\n\n"@ + (if self.optimized_outline@.len() == 0 {
                Seq::<char>::empty()
            } else {
                "【故事大纲】\n\n"@ + self.optimized_outline@ + "\n\n"@ + repeat('=', 50) + "\n\n"@
            }));
            assert(self.chapters@.take(0) =~= Seq::<Chapter>::empty());
        }
        let mut i: usize = 0;
        while i < self.chapters.len()
            invariant
                i <= self.chapters.len(),
                out@ == head + chapters_text(self.chapters@.take(i as int)),
            decreases self.chapters.len() - i,
        {
            proof {
                assert(self.chapters@.take(i + 1).drop_last() =~= self.chapters@.take(i as int));
            }
            if self.chapters[i].status.is_done() {
                append_chapter_text(&mut out, &self.chapters[i]);
            }
            proof {
                assert(out@ =~= head + chapters_text(self.chapters@.take(i + 1)));
            }
            i += 1;
        }
        proof {
            assert(self.chapters@.take(self.chapters.len() as int) =~= self.chapters@);
        }
        out
    }
}

/// A prefix never counts more words than the whole.
pub proof fn lemma_total_word_count_prefix(cs: Seq<Chapter>, n: int)
    requires
        0 <= n <= cs.len(),
    ensures
        total_word_count(cs.take(n)) <= total_word_count(cs),
    decreases cs.len() - n,
{
    if n < cs.len() {
        lemma_total_word_count_prefix(cs, n + 1);
        assert(cs.take(n + 1).drop_last() =~= cs.take(n));
    } else {
        assert(cs.take(n) =~= cs);
    }
}

} // verus!
