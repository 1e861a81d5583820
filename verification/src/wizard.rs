use crate::edit::{add_custom_realm, max_order, next_custom_realm_order, remove_custom_realm};
use crate::novel::{CustomRealm, NovelProject};
use crate::realms::sort_by_order;
use crate::text::{decimal, decimal_string, str_equal};
use vstd::prelude::*;

verus! {

/// The last page of the new-novel wizard (template, counts, realms, outline).
pub open spec fn last_page() -> u8 {
    3
}

/// Whether `a` and `b` agree on everything but the user-defined realms.
pub open spec fn same_but_custom_realms(a: NovelProject, b: NovelProject) -> bool {
    &&& a.title == b.title
    &&& a.author == b.author
    &&& a.template == b.template
    &&& a.outline == b.outline
    &&& a.optimized_outline == b.optimized_outline
    &&& a.chapters@ == b.chapters@
    &&& a.target_chapters == b.target_chapters
    &&& a.target_words_per_chapter == b.target_words_per_chapter
    &&& a.selected_realms@ == b.selected_realms@
    &&& a.custom_realm == b.custom_realm
    &&& a.reduce_ai_traits == b.reduce_ai_traits
    &&& a.avoid_famous_names == b.avoid_famous_names
    &&& a.created_at == b.created_at
    &&& a.updated_at == b.updated_at
}

/// Whether `a` and `b` agree on everything but the template.
pub open spec fn same_but_template(a: NovelProject, b: NovelProject) -> bool {
    &&& a.title == b.title
    &&& a.author == b.author
    &&& a.outline == b.outline
    &&& a.optimized_outline == b.optimized_outline
    &&& a.chapters@ == b.chapters@
    &&& a.target_chapters == b.target_chapters
    &&& a.target_words_per_chapter == b.target_words_per_chapter
    &&& a.selected_realms@ == b.selected_realms@
    &&& a.custom_realm == b.custom_realm
    &&& a.reduce_ai_traits == b.reduce_ai_traits
    &&& a.avoid_famous_names == b.avoid_famous_names
    &&& a.custom_realms@ == b.custom_realms@
    &&& a.created_at == b.created_at
    &&& a.updated_at == b.updated_at
}

/// Whether `t` is one of the listed template names.
pub open spec fn listed_template(names: Seq<String>, t: Seq<char>) -> bool {
    exists|k: int| 0 <= k < names.len() && #[trigger] names[k]@ == t
}

/// The state of the new-novel wizard.
#[derive(Debug)]
pub struct Wizard {
    /// The project being set up.
    pub project: NovelProject,
    pub page: u8,
    /// The realm being edited in the realm dialog, if it is open.
    pub realm_dialog: Option<CustomRealm>,
    pub count_buf: String,
    pub words_buf: String,
    pub visible: bool,
}

impl Wizard {
    /// A freshly opened wizard: a default project, the count fields showing
    /// its targets, the first page, no dialog.
    pub fn open() -> (w: Self)
        ensures
            w.project.title@ == "我的小说"@,
            w.project.template@ == "修仙问道"@,
            w.project.outline@.len() == 0,
            w.project.optimized_outline@.len() == 0,
            w.project.selected_realms@.len() == 0,
            w.project.custom_realms@.len() == 0,
            w.project.custom_realm@.len() == 0,
            !w.project.reduce_ai_traits,
            !w.project.avoid_famous_names,
            w.project.target_chapters == 20,
            w.project.target_words_per_chapter == 3000,
            w.project.chapters@.len() == 0,
            w.count_buf@ == decimal(20),
            w.words_buf@ == decimal(3000),
            w.page == 0,
            w.realm_dialog is None,
            w.visible,
    {
        let project = NovelProject::default();
        let count_buf = decimal_string(project.target_chapters);
        let words_buf = decimal_string(project.target_words_per_chapter);
        Wizard { project, page: 0, realm_dialog: None, count_buf, words_buf, visible: true }
    }

    /// Goes to the next page, if there is one.
    pub fn next_page(&mut self)
        ensures
            final(self).page == if old(self).page < last_page() {
                (old(self).page + 1) as u8
            } else {
                old(self).page
            },
            final(self).project == old(self).project,
            final(self).realm_dialog == old(self).realm_dialog,
            final(self).visible == old(self).visible,
    {
        if self.page < 3 {
            self.page = self.page + 1;
        }
    }

    /// Goes to the previous page, if there is one.
    pub fn prev_page(&mut self)
        ensures
            final(self).page == if old(self).page > 0 {
                (old(self).page - 1) as u8
            } else {
                old(self).page
            },
            final(self).project == old(self).project,
            final(self).realm_dialog == old(self).realm_dialog,
            final(self).visible == old(self).visible,
    {
        if self.page > 0 {
            self.page = self.page - 1;
        }
    }

    /// Closes the wizard and any open realm dialog.
    pub fn cancel(&mut self)
        ensures
            !final(self).visible,
            final(self).realm_dialog is None,
            final(self).project == old(self).project,
            final(self).page == old(self).page,
    {
        self.visible = false;
        self.realm_dialog = None;
    }

    /// Picks a genre card on the first page. A listed template becomes the
    /// project's template; the custom card (`自定义`) empties a listed
    /// template so that the user can type one, and keeps a typed one.
    pub fn choose_template(&mut self, name: &str, names: &Vec<String>)
        ensures
            same_but_template(final(self).project, old(self).project),
            name@ != "自定义"@ ==> final(self).project.template@ == name@,
            name@ == "自定义"@ ==> final(self).project.template@ == if listed_template(
                names@,
                old(self).project.template@,
            ) {
                Seq::<char>::empty()
            } else {
                old(self).project.template@
            },
            final(self).page == old(self).page,
            final(self).realm_dialog == old(self).realm_dialog,
            final(self).count_buf == old(self).count_buf,
            final(self).words_buf == old(self).words_buf,
            final(self).visible == old(self).visible,
    {
        if str_equal(name, "自定义") {
            let mut listed = false;
            let mut k: usize = 0;
            while k < names.len()
                invariant
                    k <= names.len(),
                    listed == exists|j: int| 0 <= j < k && #[trigger] names@[j]@ == self.project.template@,
                decreases names.len() - k,
            {
                if str_equal(names[k].as_str(), self.project.template.as_str()) {
                    listed = true;
                }
                k += 1;
            }
            if listed {
                self.project.template = String::new();
            }
        } else {
            self.project.template = String::from_str(name);
        }
    }

    /// Opens the realm dialog for a new realm, ordered after all existing ones.
    pub fn start_new_realm(&mut self)
        requires
            max_order(old(self).project.custom_realms@) < u32::MAX,
        ensures
            final(self).realm_dialog matches Some(r) && r.order == max_order(old(self).project.custom_realms@)
                + 1 && r.name@.len() == 0 && r.description@.len() == 0 && r.sub_levels@.len() == 0,
            final(self).project == old(self).project,
            final(self).page == old(self).page,
            final(self).visible == old(self).visible,
    {
        let order = next_custom_realm_order(&self.project.custom_realms);
        self.realm_dialog = Some(
            CustomRealm {
                order,
                name: String::new(),
                description: String::new(),
                sub_levels: String::new(),
            },
        );
    }

    /// Stores the realm of the dialog in the project, keeping the realms
    /// sorted by order, and closes the dialog.
    pub fn save_realm_dialog(&mut self)
        ensures
            final(self).realm_dialog is None,
            match old(self).realm_dialog {
                Some(r) => final(self).project.custom_realms@ == sort_by_order(
                    old(self).project.custom_realms@.push(r),
                ),
                None => final(self).project.custom_realms@ == old(self).project.custom_realms@,
            },
            same_but_custom_realms(final(self).project, old(self).project),
            final(self).page == old(self).page,
            final(self).visible == old(self).visible,
    {
        let mut dialog = None;
        std::mem::swap(&mut dialog, &mut self.realm_dialog);
        if let Some(r) = dialog {
            add_custom_realm(&mut self.project.custom_realms, r);
        }
    }

    /// Closes the realm dialog without storing anything.
    pub fn close_realm_dialog(&mut self)
        ensures
            final(self).realm_dialog is None,
            final(self).project == old(self).project,
            final(self).page == old(self).page,
            final(self).visible == old(self).visible,
    {
        self.realm_dialog = None;
    }

    /// Removes the realms with the given order and name.
    pub fn remove_realm(&mut self, order: u32, name: &str)
        ensures
            final(self).project.custom_realms@ == old(self).project.custom_realms@.filter(
                |c: CustomRealm| !(c.order == order && c.name@ == name@),
            ),
            same_but_custom_realms(final(self).project, old(self).project),
            final(self).realm_dialog == old(self).realm_dialog,
            final(self).page == old(self).page,
            final(self).visible == old(self).visible,
    {
        remove_custom_realm(&mut self.project.custom_realms, order, name);
    }
}

} // verus!
