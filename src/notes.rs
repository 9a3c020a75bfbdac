//! The filesystem actions that materialise a system under a root folder,
//! and which of them still need to be carried out.
use vstd::prelude::*;
use vstd::string::*;

use crate::jid::{join_path, push_path_component, JidView};
use crate::model::{
    full_id, Area, AreaView, Category, Folder, CategoryView, FolderKind, FolderView, FullId, HasFolderKind, System,
    SystemView, XFolderView,
};
use crate::text::{push_all, push_char};

verus! {

/// Actions that can be taken to create the system
#[derive(Debug)]
pub enum Action<'sys> {
    /// Create a basic markdown file
    CreateFile(String),
    /// Create a directory
    CreateDirectory(String),
    /// Write the jdex index file
    WriteIndex(String, &'sys System),
}

/// An action, with its target path.
pub enum ActionView {
    CreateFile(Seq<char>),
    CreateDirectory(Seq<char>),
    WriteIndex(Seq<char>),
}

impl ActionView {
    pub open spec fn target(self) -> Seq<char> {
        match self {
            ActionView::CreateFile(p) => p,
            ActionView::CreateDirectory(p) => p,
            ActionView::WriteIndex(p) => p,
        }
    }
}

impl<'sys> View for Action<'sys> {
    type V = ActionView;

    open spec fn view(&self) -> ActionView {
        match *self {
            Action::CreateFile(p) => ActionView::CreateFile(p@),
            Action::CreateDirectory(p) => ActionView::CreateDirectory(p@),
            Action::WriteIndex(p, _) => ActionView::WriteIndex(p@),
        }
    }
}

pub open spec fn actions_view<'sys>(v: Seq<Action<'sys>>) -> Seq<ActionView> {
    v.map_values(|a: Action<'sys>| a@)
}

/// Every index that `v` writes is the index of `root`.
pub open spec fn indexes_of<'sys>(v: Seq<Action<'sys>>, root: &'sys System) -> bool {
    forall|i: int|
        0 <= i < v.len() ==> (#[trigger] v[i] is WriteIndex ==> v[i]->WriteIndex_1 == root)
}

/// Whether an action still has to be carried out, given whether its target
/// exists: a directory or a file only where it is missing; an index always,
/// since its content is regenerated.
pub open spec fn needs_apply(a: ActionView, target_exists: bool) -> bool {
    match a {
        ActionView::WriteIndex(_) => true,
        _ => !target_exists,
    }
}

pub open spec fn md_suffix() -> Seq<char> {
    seq!['.', 'm', 'd']
}

/// The actions for a folder or an extended folder under the directory of
/// its parent: a directory named by its full id, a `.md` file of that name,
/// both, or an index document.
pub open spec fn folder_actions(
    base: Seq<char>,
    parent: JidView,
    id: JidView,
    topic: Seq<char>,
    kind: FolderKind,
) -> Seq<ActionView> {
    let dir = join_path(base, parent.path());
    let name = full_id(id, topic);
    let file = join_path(dir, name + md_suffix());
    match kind {
        FolderKind::Folder => seq![ActionView::CreateDirectory(join_path(dir, name))],
        FolderKind::File => seq![ActionView::CreateFile(file)],
        FolderKind::Index => seq![ActionView::WriteIndex(file)],
        FolderKind::Both => seq![
            ActionView::CreateDirectory(join_path(dir, name)),
            ActionView::CreateFile(file),
        ],
    }
}

pub open spec fn xfolders_actions(base: Seq<char>, f: FolderView, xs: Seq<XFolderView>) -> Seq<
    ActionView,
>
    decreases xs.len(),
{
    if xs.len() == 0 {
        Seq::empty()
    } else {
        xfolders_actions(base, f, xs.drop_last()) + folder_actions(
            base,
            f.id,
            xs.last().id,
            xs.last().topic,
            xs.last().kind,
        )
    }
}

/// A folder's own actions, then those of its extended folders.
pub open spec fn folder_tree_actions(base: Seq<char>, c: CategoryView, f: FolderView) -> Seq<
    ActionView,
> {
    folder_actions(base, c.id, f.id, f.topic, f.kind) + xfolders_actions(base, f, f.folders)
}

pub open spec fn folders_actions(base: Seq<char>, c: CategoryView, fs: Seq<FolderView>) -> Seq<
    ActionView,
>
    decreases fs.len(),
{
    if fs.len() == 0 {
        Seq::empty()
    } else {
        folders_actions(base, c, fs.drop_last()) + folder_tree_actions(base, c, fs.last())
    }
}

/// A category's directory, then the actions of its folders.
pub open spec fn category_actions(base: Seq<char>, c: CategoryView) -> Seq<ActionView> {
    seq![ActionView::CreateDirectory(join_path(base, c.id.path()))] + folders_actions(
        base,
        c,
        c.folders,
    )
}

pub open spec fn categories_actions(base: Seq<char>, cs: Seq<CategoryView>) -> Seq<ActionView>
    decreases cs.len(),
{
    if cs.len() == 0 {
        Seq::empty()
    } else {
        categories_actions(base, cs.drop_last()) + category_actions(base, cs.last())
    }
}

/// An area's directory, then the actions of its categories.
pub open spec fn area_actions(base: Seq<char>, a: AreaView) -> Seq<ActionView> {
    seq![ActionView::CreateDirectory(join_path(base, a.id.path()))] + categories_actions(
        base,
        a.categories,
    )
}

pub open spec fn areas_actions(base: Seq<char>, areas: Seq<AreaView>) -> Seq<ActionView>
    decreases areas.len(),
{
    if areas.len() == 0 {
        Seq::empty()
    } else {
        areas_actions(base, areas.drop_last()) + area_actions(base, areas.last())
    }
}

/// Everything that materialises `s` under `base`, in declaration order.
pub open spec fn plan(base: Seq<char>, s: SystemView) -> Seq<ActionView> {
    areas_actions(base, s.areas)
}

pub open spec fn is_directory(a: ActionView) -> bool {
    a is CreateDirectory
}

/// What materialises `s` in a reference archive under `base`: the
/// directories alone.
pub open spec fn archive_plan(base: Seq<char>, s: SystemView) -> Seq<ActionView> {
    plan(base, s).filter(|a: ActionView| is_directory(a))
}

impl<'sys> Action<'sys> {
    /// The path that the action creates or writes.
    pub fn target(&self) -> (r: &str)
        ensures
            r@ == self@.target(),
    {
        match self {
            Action::CreateFile(path) => path.as_str(),
            Action::CreateDirectory(path) => path.as_str(),
            Action::WriteIndex(path, _) => path.as_str(),
        }
    }
}

/// Check to see if the action needs to be applied to match the expected
/// state of the system, given whether its target exists
pub fn need_to_apply(action: &Action, target_exists: bool) -> (r: bool)
    ensures
        r == needs_apply(action@, target_exists),
{
    match action {
        Action::CreateFile(_) | Action::CreateDirectory(_) => !target_exists,
        Action::WriteIndex(_, _) => true,
    }
}

/// `dir` with `name` placed under it, and with `.md` after it where `md` holds.
fn child_path(dir: &str, name: &str, md: bool) -> (r: String)
    ensures
        r@ == join_path(dir@, if md {
            name@ + md_suffix()
        } else {
            name@
        }),
{
    let mut leaf = String::new();
    push_all(&mut leaf, name);
    if md {
        push_char(&mut leaf, '.');
        push_char(&mut leaf, 'm');
        push_char(&mut leaf, 'd');
    }
    let mut path = String::new();
    push_all(&mut path, dir);
    push_path_component(&mut path, leaf.as_str());
    proof {
        if md {
            assert(leaf@ =~= name@ + md_suffix());
        } else {
            assert(leaf@ =~= name@);
        }
    }
    path
}

/// Gets the actions for a folder or xfolder (or really anything that has a `FolderKind`)
fn get_actions_for_folder<'sys, F: FullId + HasFolderKind, J: FullId>(
    base_folder: &str,
    root: &'sys System,
    parent: &J,
    folder: &F,
) -> (r: Vec<Action<'sys>>)
    ensures
        actions_view(r@) == folder_actions(
            base_folder@,
            parent.jid_view(),
            folder.jid_view(),
            folder.name_view(),
            folder.kind_view(),
        ),
        indexes_of(r@, root),
{
    let parent_path = parent.as_path();
    let mut dir = String::new();
    push_all(&mut dir, base_folder);
    push_path_component(&mut dir, parent_path.as_str());
    let mut actions: Vec<Action<'sys>> = Vec::new();
    let name = folder.id();
    match *folder.kind() {
        FolderKind::Folder => {
            actions.push(Action::CreateDirectory(child_path(dir.as_str(), name.as_str(), false)));
        },
        FolderKind::File => {
            actions.push(Action::CreateFile(child_path(dir.as_str(), name.as_str(), true)));
        },
        FolderKind::Index => {
            actions.push(Action::WriteIndex(child_path(dir.as_str(), name.as_str(), true), root));
        },
        FolderKind::Both => {
            actions.push(Action::CreateDirectory(child_path(dir.as_str(), name.as_str(), false)));
            actions.push(Action::CreateFile(child_path(dir.as_str(), name.as_str(), true)));
        },
    }
    assert(actions_view(actions@) =~= folder_actions(
        base_folder@,
        parent.jid_view(),
        folder.jid_view(),
        folder.name_view(),
        folder.kind_view(),
    ));
    actions
}

/// Appends `more` to `actions`.
fn append_actions<'sys>(actions: &mut Vec<Action<'sys>>, more: Vec<Action<'sys>>, root: &'sys System)
    requires
        indexes_of(old(actions)@, root),
        indexes_of(more@, root),
    ensures
        actions_view(final(actions)@) == actions_view(old(actions)@) + actions_view(more@),
        indexes_of(final(actions)@, root),
{
    let mut more = more;
    let ghost before = actions@;
    let ghost added = more@;
    actions.append(&mut more);
    assert(actions_view(actions@) =~= actions_view(before) + actions_view(added));
    assert forall|i: int| 0 <= i < actions@.len() && #[trigger] actions@[i] is WriteIndex implies actions@[i]->WriteIndex_1 == root by {
        if i >= before.len() {
            assert(actions@[i] == added[i - before.len()]);
        }
    }
}

/// A directory for the node whose identifier has the path `node_path`.
fn directory_action<'sys>(base_folder: &str, node_path: &str) -> (r: Action<'sys>)
    ensures
        r@ == ActionView::CreateDirectory(join_path(base_folder@, node_path@)),
{
    let mut path = String::new();
    push_all(&mut path, base_folder);
    push_path_component(&mut path, node_path);
    Action::CreateDirectory(path)
}

/// The actions of a folder and of its extended folders.
fn get_folder_tree_actions<'sys>(
    base_folder: &str,
    root: &'sys System,
    category: &Category,
    folder: &Folder,
) -> (r: Vec<Action<'sys>>)
    ensures
        actions_view(r@) == folder_tree_actions(base_folder@, category@, folder@),
        indexes_of(r@, root),
{
    let mut actions = get_actions_for_folder(base_folder, root, category, folder);
    let ghost own = actions_view(actions@);
    let ghost xs = folder@.folders;
    let mut j: usize = 0;
    assert(xs.take(0) =~= Seq::<XFolderView>::empty());
    assert(own + Seq::<ActionView>::empty() =~= own);
    while j < folder.folders.len()
        invariant
            j <= folder.folders.len(),
            xs == folder@.folders,
            own == folder_actions(base_folder@, category@.id, folder@.id, folder@.topic, folder@.kind),
            actions_view(actions@) == own + xfolders_actions(base_folder@, folder@, xs.take(j as int)),
            indexes_of(actions@, root),
        decreases folder.folders.len() - j,
    {
        let more = get_actions_for_folder(base_folder, root, folder, &folder.folders[j]);
        append_actions(&mut actions, more, root);
        proof {
            assert(xs.take(j + 1).drop_last() =~= xs.take(j as int));
            assert(xs.take(j + 1).last() == folder.folders@[j as int]@);
        }
        j = j + 1;
        assert(actions_view(actions@) =~= own + xfolders_actions(base_folder@, folder@, xs.take(j as int)));
    }
    assert(xs.take(j as int) =~= xs);
    actions
}

/// A category's directory, then the actions of its folders.
fn get_category_actions<'sys>(base_folder: &str, root: &'sys System, category: &Category) -> (r: Vec<
    Action<'sys>,
>)
    ensures
        actions_view(r@) == category_actions(base_folder@, category@),
        indexes_of(r@, root),
{
    let mut actions: Vec<Action<'sys>> = Vec::new();
    let category_path = category.id.as_path();
    actions.push(directory_action(base_folder, category_path.as_str()));
    let ghost own = actions_view(actions@);
    let ghost fs = category@.folders;
    assert(own =~= seq![ActionView::CreateDirectory(join_path(base_folder@, category@.id.path()))]);
    let mut k: usize = 0;
    assert(fs.take(0) =~= Seq::<FolderView>::empty());
    assert(own + Seq::<ActionView>::empty() =~= own);
    while k < category.folders.len()
        invariant
            k <= category.folders.len(),
            fs == category@.folders,
            own == seq![ActionView::CreateDirectory(join_path(base_folder@, category@.id.path()))],
            actions_view(actions@) == own + folders_actions(base_folder@, category@, fs.take(k as int)),
            indexes_of(actions@, root),
        decreases category.folders.len() - k,
    {
        let more = get_folder_tree_actions(base_folder, root, category, &category.folders[k]);
        append_actions(&mut actions, more, root);
        proof {
            assert(fs.take(k + 1).drop_last() =~= fs.take(k as int));
            assert(fs.take(k + 1).last() == category.folders@[k as int]@);
        }
        k = k + 1;
        assert(actions_view(actions@) =~= own + folders_actions(base_folder@, category@, fs.take(k as int)));
    }
    assert(fs.take(k as int) =~= fs);
    actions
}

/// An area's directory, then the actions of its categories.
fn get_area_actions<'sys>(base_folder: &str, root: &'sys System, area: &Area) -> (r: Vec<Action<'sys>>)
    ensures
        actions_view(r@) == area_actions(base_folder@, area@),
        indexes_of(r@, root),
{
    let mut actions: Vec<Action<'sys>> = Vec::new();
    let area_path = area.id.as_path();
    actions.push(directory_action(base_folder, area_path.as_str()));
    let ghost own = actions_view(actions@);
    let ghost cs = area@.categories;
    assert(own =~= seq![ActionView::CreateDirectory(join_path(base_folder@, area@.id.path()))]);
    let mut j: usize = 0;
    assert(cs.take(0) =~= Seq::<CategoryView>::empty());
    assert(own + Seq::<ActionView>::empty() =~= own);
    while j < area.categories.len()
        invariant
            j <= area.categories.len(),
            cs == area@.categories,
            own == seq![ActionView::CreateDirectory(join_path(base_folder@, area@.id.path()))],
            actions_view(actions@) == own + categories_actions(base_folder@, cs.take(j as int)),
            indexes_of(actions@, root),
        decreases area.categories.len() - j,
    {
        let more = get_category_actions(base_folder, root, &area.categories[j]);
        append_actions(&mut actions, more, root);
        proof {
            assert(cs.take(j + 1).drop_last() =~= cs.take(j as int));
            assert(cs.take(j + 1).last() == area.categories@[j as int]@);
        }
        j = j + 1;
        assert(actions_view(actions@) =~= own + categories_actions(base_folder@, cs.take(j as int)));
    }
    assert(cs.take(j as int) =~= cs);
    actions
}

/// Get all of the actions for a system definition, under a root folder
/// whose `~` has already been expanded
pub fn get_all_actions<'sys>(base_folder: &str, system: &'sys System) -> (r: Vec<Action<'sys>>)
    ensures
        actions_view(r@) == plan(base_folder@, system@),
        indexes_of(r@, system),
{
    let mut actions: Vec<Action<'sys>> = Vec::new();
    let ghost areas = system@.areas;
    let mut i: usize = 0;
    assert(areas.take(0) =~= Seq::<AreaView>::empty());
    assert(actions_view(actions@) =~= Seq::<ActionView>::empty());
    while i < system.areas.len()
        invariant
            i <= system.areas.len(),
            areas == system@.areas,
            actions_view(actions@) == areas_actions(base_folder@, areas.take(i as int)),
            indexes_of(actions@, system),
        decreases system.areas.len() - i,
    {
        let more = get_area_actions(base_folder, system, &system.areas[i]);
        append_actions(&mut actions, more, system);
        proof {
            assert(areas.take(i + 1).drop_last() =~= areas.take(i as int));
            assert(areas.take(i + 1).last() == system.areas@[i as int]@);
        }
        i = i + 1;
    }
    assert(areas.take(i as int) =~= areas);
    actions
}

/// The actions that materialise the system in a reference archive: its
/// directories, in declaration order; files and indexes never stand there
pub fn get_archive_actions<'sys>(base_folder: &str, system: &'sys System) -> (r: Vec<Action<'sys>>)
    ensures
        actions_view(r@) == archive_plan(base_folder@, system@),
        forall|i: int| 0 <= i < r@.len() ==> (#[trigger] r@[i]) is CreateDirectory,
{
    let all = get_all_actions(base_folder, system);
    let ghost whole = actions_view(all@);
    let ghost keep = |a: ActionView| is_directory(a);
    let mut dirs: Vec<Action<'sys>> = Vec::new();
    let mut i: usize = 0;
    assert(whole.take(0) =~= Seq::<ActionView>::empty());
    assert(actions_view(dirs@) =~= Seq::<ActionView>::empty());
    while i < all.len()
        invariant
            i <= all.len(),
            whole == actions_view(all@),
            whole == plan(base_folder@, system@),
            keep == (|a: ActionView| is_directory(a)),
            actions_view(dirs@) == whole.take(i as int).filter(keep),
            forall|j: int| 0 <= j < dirs@.len() ==> (#[trigger] dirs@[j]) is CreateDirectory,
        decreases all.len() - i,
    {
        proof {
            assert(whole.take(i + 1).drop_last() =~= whole.take(i as int));
            assert(whole.take(i + 1).last() == all@[i as int]@);
        }
        let ghost before = dirs@;
        if let Action::CreateDirectory(path) = &all[i] {
            dirs.push(Action::CreateDirectory(path.clone()));
            assert(actions_view(dirs@) =~= actions_view(before).push(all@[i as int]@));
        }
        proof {
            let prefix = whole.take(i as int);
            assert(whole.take(i + 1) =~= prefix.push(all@[i as int]@));
            prefix.lemma_filter_push(all@[i as int]@, keep);
        }
        i = i + 1;
    }
    assert(whole.take(i as int) =~= whole);
    dirs
}

/// How an action reads in a preview.
pub open spec fn description(a: ActionView) -> Seq<char> {
    match a {
        ActionView::CreateFile(p) => "Create File "@ + p,
        ActionView::CreateDirectory(p) => "Create Directory "@ + p,
        ActionView::WriteIndex(p) => "Write Index "@ + p,
    }
}

/// The preview line of an action: empty where it need not be carried out.
pub open spec fn preview(a: ActionView, target_exists: bool) -> Seq<char> {
    if needs_apply(a, target_exists) {
        "Would "@ + description(a) + "\n"@
    } else {
        Seq::empty()
    }
}

impl<'sys> Action<'sys> {
    /// Describes the action in words
    pub fn describe(&self) -> (r: String)
        ensures
            r@ == description(self@),
    {
        let mut text = String::new();
        match self {
            Action::CreateFile(path) => {
                push_all(&mut text, "Create File ");
                push_all(&mut text, path.as_str());
            },
            Action::CreateDirectory(path) => {
                push_all(&mut text, "Create Directory ");
                push_all(&mut text, path.as_str());
            },
            Action::WriteIndex(path, _) => {
                push_all(&mut text, "Write Index ");
                push_all(&mut text, path.as_str());
            },
        }
        assert(text@ =~= description(self@));
        text
    }

    /// Print out what would be done if the action was executed, given
    /// whether its target exists
    pub fn dry_run(&self, target_exists: bool) -> (r: String)
        ensures
            r@ == preview(self@, target_exists),
    {
        let mut text = String::new();
        if need_to_apply(self, target_exists) {
            push_all(&mut text, "Would ");
            push_all(&mut text, self.describe().as_str());
            push_all(&mut text, "\n");
            assert(text@ =~= preview(self@, target_exists));
        } else {
            assert(text@ =~= preview(self@, target_exists));
        }
        text
    }
}

/// The paths that `actions` create or write.
pub open spec fn targets(actions: Seq<ActionView>) -> Set<Seq<char>> {
    Set::new(|p: Seq<char>| exists|i: int| 0 <= i < actions.len() && actions[i].target() == p)
}

/// The actions of `actions` that still need to be carried out, in order,
/// where `exists` says of each whether its target exists.
pub open spec fn pending(actions: Seq<ActionView>, exists: Seq<bool>) -> Seq<ActionView>
    decreases actions.len(),
{
    if actions.len() == 0 {
        Seq::empty()
    } else {
        let rest = pending(actions.drop_last(), exists.drop_last());
        if needs_apply(actions.last(), exists.last()) {
            rest.push(actions.last())
        } else {
            rest
        }
    }
}

/// The actions that still need to be carried out, in plan order, given
/// for each action whether its target exists
pub fn pending_actions<'sys>(actions: Vec<Action<'sys>>, exists: &Vec<bool>) -> (r: Vec<
    Action<'sys>,
>)
    requires
        exists@.len() == actions@.len(),
    ensures
        actions_view(r@) == pending(actions_view(actions@), exists@),
{
    let ghost all = actions_view(actions@);
    let mut rest = actions;
    let mut kept: Vec<Action<'sys>> = Vec::new();
    let mut i: usize = 0;
    assert(all.take(0) =~= Seq::<ActionView>::empty());
    assert(actions_view(rest@) =~= all.skip(0));
    assert(actions_view(kept@) =~= Seq::<ActionView>::empty());
    while i < exists.len()
        invariant
            i <= exists@.len(),
            exists@.len() == all.len(),
            actions_view(rest@) == all.skip(i as int),
            actions_view(kept@) == pending(all.take(i as int), exists@.take(i as int)),
        decreases exists@.len() - i,
    {
        let ghost old_rest = rest@;
        assert(old_rest.len() == actions_view(old_rest).len());
        assert(actions_view(old_rest)[0] == all[i as int]);
        let ghost before = kept@;
        let action = rest.remove(0);
        assert forall|j: int| 0 <= j < rest@.len() implies #[trigger] rest@[j]@ == all[i + 1 + j] by {
            assert(rest@[j] == old_rest[j + 1]);
            assert(actions_view(old_rest)[j + 1] == all.skip(i as int)[j + 1]);
        }
        assert(actions_view(rest@) =~= all.skip(i + 1));
        proof {
            assert(all.take(i + 1).drop_last() =~= all.take(i as int));
            assert(exists@.take(i + 1).drop_last() =~= exists@.take(i as int));
            assert(all.take(i + 1).last() == action@);
            assert(exists@.take(i + 1).last() == exists@[i as int]);
        }
        if need_to_apply(&action, exists[i]) {
            kept.push(action);
            assert(actions_view(kept@) =~= actions_view(before).push(all[i as int]));
        }
        i = i + 1;
    }
    assert(all.take(i as int) =~= all);
    assert(exists@.take(i as int) =~= exists@);
    kept
}

pub open spec fn is_index(a: ActionView) -> bool {
    a is WriteIndex
}

/// Whether each target of `actions` is in `present`.
pub open spec fn presence(actions: Seq<ActionView>, present: Set<Seq<char>>) -> Seq<bool> {
    actions.map_values(|a: ActionView| present.contains(a.target()))
}

proof fn lemma_pending_when_all_present(actions: Seq<ActionView>, present: Set<Seq<char>>)
    requires
        forall|i: int| 0 <= i < actions.len() ==> present.contains(#[trigger] actions[i].target()),
    ensures
        pending(actions, presence(actions, present)) == actions.filter(|a: ActionView| is_index(a)),
    decreases actions.len(),
{
    let keep = |a: ActionView| is_index(a);
    if actions.len() > 0 {
        let init = actions.drop_last();
        assert(presence(actions, present).drop_last() =~= presence(init, present));
        lemma_pending_when_all_present(init, present);
        assert(init.push(actions.last()) =~= actions);
        init.lemma_filter_push(actions.last(), keep);
        assert(present.contains(actions[actions.len() - 1].target()));
    } else {
        reveal(Seq::filter);
    }
}

/// Running the pipeline a second time, against a root where the first
/// run's actions were carried out (whatever stood there before), leaves
/// no directory or file still to create: what is still needed is exactly
/// the plan's index documents, which are always rewritten.
pub proof fn second_run_needs_only_indexes(
    base: Seq<char>,
    s: SystemView,
    before: Set<Seq<char>>,
)
    ensures
        ({
            let present = before.union(targets(plan(base, s)));
            let second = plan(base, s);
            &&& pending(second, presence(second, present)) == second.filter(
                |a: ActionView| is_index(a),
            )
            &&& forall|i: int|
                0 <= i < second.len() ==> needs_apply(
                    #[trigger] second[i],
                    present.contains(second[i].target()),
                ) == (second[i] is WriteIndex)
        }),
{
    let first = plan(base, s);
    let present = before.union(targets(first));
    assert forall|i: int| 0 <= i < first.len() implies present.contains(
        #[trigger] first[i].target(),
    ) by {
        assert(targets(first).contains(first[i].target()));
    }
    lemma_pending_when_all_present(first, present);
}

/// A reference archive holds directories alone: its plan has no file and
/// no index in it.
pub proof fn archive_holds_directories_only(base: Seq<char>, s: SystemView)
    ensures
        forall|i: int|
            0 <= i < archive_plan(base, s).len() ==> !(#[trigger] archive_plan(base, s)[i] is CreateFile)
                && !(archive_plan(base, s)[i] is WriteIndex),
{
    let keep = |a: ActionView| is_directory(a);
    let all = plan(base, s);
    assert forall|i: int| 0 <= i < all.filter(keep).len() implies (#[trigger] all.filter(keep)[i]) is CreateDirectory by {
        all.lemma_filter_pred(keep, i);
    }
}

} // verus!
