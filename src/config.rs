//! The parameters that describe a system, and the tree that the outline
//! text builds.
use vstd::prelude::*;
use vstd::string::*;

use crate::jid::{JidView, JohnnyId};
use crate::line::{parse_single, record_of, ParseError, ParseErrorKind, ParsedKind, Record};
use crate::markdown::MdFormatConfig;
use crate::model::{
    area_ok, category_ok, folder_ok, Area, AreaView, Category, CategoryView, Folder, FolderView,
    System, SystemView, XFolder, XFolderView,
};
use crate::text::{lines_of, split_lines, views_of};

verus! {

/// The configuration for the Johnny Decimal system
#[derive(Debug)]
pub struct SystemParameters {
    /// The system id for the Johnny Decimal system
    pub system_id: String,
    /// The default separator for the system
    pub separator: Option<String>,
    /// The name of the system
    pub name: String,
    /// The configuration definition for the system
    pub config: String,
}

/// The output configuration for the Johnny Decimal system
#[derive(Debug)]
pub struct Output {
    /// The folder where your note taking system wants the system
    pub base_folder: String,
    /// The folder where the reference archive should be created
    pub reference_folder: String,
}

/// The configuration for the Johnny Decimal system
#[derive(Debug)]
pub struct JohnnyDecimal {
    /// Configuring the system
    pub system_config: SystemParameters,
    /// Where we are outputting files
    pub output_config: Output,
    /// The handlebar themes for the markdown output
    pub format: MdFormatConfig,
}

/// `a` with a new category at the end of its list.
pub open spec fn add_category(a: AreaView, id: u8, topic: Seq<char>) -> AreaView {
    AreaView {
        categories: a.categories.push(
            CategoryView { id: a.id.with_category(id, topic), topic, folders: Seq::empty() },
        ),
        ..a
    }
}

/// `c` with a new folder at the end of its list.
pub open spec fn add_folder(
    c: CategoryView,
    id: u8,
    kind: crate::model::FolderKind,
    topic: Seq<char>,
) -> CategoryView {
    CategoryView {
        folders: c.folders.push(
            FolderView { id: c.id.with_folder(id, topic), topic, kind, folders: Seq::empty() },
        ),
        ..c
    }
}

/// `f` with a new extended folder at the end of its list.
pub open spec fn add_xfolder(
    f: FolderView,
    id: Seq<char>,
    kind: crate::model::FolderKind,
    topic: Seq<char>,
) -> FolderView {
    FolderView {
        folders: f.folders.push(XFolderView { id: f.id.with_xfolder(id, topic), topic, kind }),
        ..f
    }
}

/// `s` after one declared line: a new area goes at the end of the system;
/// anything else goes under the most recent node one level up, and is
/// dropped where there is none.
pub open spec fn apply_record(s: SystemView, r: Record) -> SystemView {
    match r {
        Record::Area(start, end, topic) => SystemView {
            areas: s.areas.push(
                AreaView {
                    id: s.id.with_area(start, end, topic),
                    id_range: (start, end),
                    topic,
                    categories: Seq::empty(),
                },
            ),
            ..s
        },
        Record::Category(id, topic) => if s.areas.len() == 0 {
            s
        } else {
            SystemView {
                areas: s.areas.update(
                    s.areas.len() - 1,
                    add_category(s.areas.last(), id, topic),
                ),
                ..s
            }
        },
        Record::Folder(id, kind, topic) => if s.areas.len() == 0
            || s.areas.last().categories.len() == 0 {
            s
        } else {
            let a = s.areas.last();
            let c = a.categories.last();
            SystemView {
                areas: s.areas.update(
                    s.areas.len() - 1,
                    AreaView {
                        categories: a.categories.update(
                            a.categories.len() - 1,
                            add_folder(c, id, kind, topic),
                        ),
                        ..a
                    },
                ),
                ..s
            }
        },
        Record::ExtendedFolder(id, kind, topic) => if s.areas.len() == 0
            || s.areas.last().categories.len() == 0
            || s.areas.last().categories.last().folders.len() == 0 {
            s
        } else {
            let a = s.areas.last();
            let c = a.categories.last();
            let f = c.folders.last();
            SystemView {
                areas: s.areas.update(
                    s.areas.len() - 1,
                    AreaView {
                        categories: a.categories.update(
                            a.categories.len() - 1,
                            CategoryView {
                                folders: c.folders.update(
                                    c.folders.len() - 1,
                                    add_xfolder(f, id, kind, topic),
                                ),
                                ..c
                            },
                        ),
                        ..a
                    },
                ),
                ..s
            }
        },
    }
}

/// The tree that `lines` build on `init`, or the number (from 1) of the
/// first line that cannot be read and why.
pub open spec fn build(init: SystemView, lines: Seq<Seq<char>>) -> Result<
    SystemView,
    (nat, ParseErrorKind),
>
    decreases lines.len(),
{
    if lines.len() == 0 {
        Ok(init)
    } else {
        match build(init, lines.drop_last()) {
            Err(e) => Err(e),
            Ok(s) => match record_of(lines.last()) {
                Err(k) => Err((lines.len(), k)),
                Ok(r) => Ok(apply_record(s, r)),
            },
        }
    }
}

/// The empty system that the parameters name.
pub open spec fn root_of(system_id: Seq<char>, name: Seq<char>) -> SystemView {
    SystemView { id: JidView::empty().with_system(system_id), name, areas: Seq::empty() }
}

/// Once a line fails, further lines change nothing.
proof fn lemma_build_stays_failed(init: SystemView, lines: Seq<Seq<char>>, k: int)
    requires
        0 <= k <= lines.len(),
        build(init, lines.take(k)) is Err,
    ensures
        build(init, lines) == build(init, lines.take(k)),
    decreases lines.len() - k,
{
    if k < lines.len() {
        assert(lines.take(k + 1).drop_last() =~= lines.take(k));
        lemma_build_stays_failed(init, lines, k + 1);
    } else {
        assert(lines.take(k) =~= lines);
    }
}

proof fn lemma_apply_keeps_well_formed(s: SystemView, r: Record)
    requires
        s.well_formed(),
    ensures
        apply_record(s, r).well_formed(),
{
    let t = apply_record(s, r);
    match r {
        Record::Area(start, end, topic) => {
            assert forall|i: int| 0 <= i < t.areas.len() implies area_ok(#[trigger] t.areas[i]) by {
                if i < s.areas.len() {
                    assert(t.areas[i] == s.areas[i]);
                }
            }
        },
        Record::Category(id, topic) => {
            if s.areas.len() > 0 {
                let a = s.areas.last();
                assert(area_ok(a));
                let na = add_category(a, id, topic);
                assert forall|j: int| 0 <= j < na.categories.len() implies category_ok(
                    #[trigger] na.categories[j],
                ) by {
                    if j < a.categories.len() {
                        assert(na.categories[j] == a.categories[j]);
                    }
                }
            }
        },
        Record::Folder(id, kind, topic) => {
            if s.areas.len() > 0 && s.areas.last().categories.len() > 0 {
                let a = s.areas.last();
                assert(area_ok(a));
                let c = a.categories.last();
                assert(category_ok(c));
                let nc = add_folder(c, id, kind, topic);
                assert forall|k: int| 0 <= k < nc.folders.len() implies folder_ok(
                    #[trigger] nc.folders[k],
                ) by {
                    if k < c.folders.len() {
                        assert(nc.folders[k] == c.folders[k]);
                    }
                }
                assert(category_ok(nc));
            }
        },
        Record::ExtendedFolder(id, kind, topic) => {
            if s.areas.len() > 0 && s.areas.last().categories.len() > 0
                && s.areas.last().categories.last().folders.len() > 0 {
                let a = s.areas.last();
                assert(area_ok(a));
                let c = a.categories.last();
                assert(category_ok(c));
                let f = c.folders.last();
                assert(folder_ok(f));
                let nf = add_xfolder(f, id, kind, topic);
                assert forall|m: int| 0 <= m < nf.folders.len() implies (
                #[trigger] nf.folders[m]).id.filled(5) by {
                    if m < f.folders.len() {
                        assert(nf.folders[m] == f.folders[m]);
                    }
                }
                assert(folder_ok(nf));
            }
        },
    }
}

impl System {
    /// Adds what one line declares to the tree.
    pub fn add_record(&mut self, record: &ParsedKind)
        requires
            old(self)@.well_formed(),
        ensures
            final(self)@ == apply_record(old(self)@, record@),
            final(self)@.well_formed(),
    {
        proof {
            lemma_apply_keeps_well_formed(self@, record@);
        }
        let ghost old_areas = self@.areas;
        match record {
            ParsedKind::Area(start, end, topic) => {
                let area_id = self.id.clone().area_id(*start, *end, topic);
                let area = Area {
                    id: area_id,
                    id_range: (*start, *end),
                    topic: (*topic).to_owned(),
                    categories: Vec::new(),
                };
                assert(area@.categories =~= Seq::<CategoryView>::empty());
                self.areas.push(area);
                assert(self@.areas =~= old_areas.push(area@));
            },
            ParsedKind::Category(id, topic) => {
                if let Some(mut area) = self.areas.pop() {
                    assert(self@.areas =~= old_areas.drop_last());
                    assert(area@ == old_areas.last());
                    let ghost old_cats = area@.categories;
                    let category_id = area.id.clone().category_id(*id, topic);
                    let category = Category {
                        id: category_id,
                        topic: (*topic).to_owned(),
                        folders: Vec::new(),
                    };
                    assert(category@.folders =~= Seq::<FolderView>::empty());
                    area.categories.push(category);
                    assert(area@.categories =~= old_cats.push(category@));
                    self.areas.push(area);
                    assert(self@.areas =~= old_areas.update(old_areas.len() - 1, area@));
                }
            },
            ParsedKind::Folder(id, kind, topic) => {
                if let Some(mut area) = self.areas.pop() {
                    assert(self@.areas =~= old_areas.drop_last());
                    let ghost old_area = area@;
                    if let Some(mut category) = area.categories.pop() {
                        assert(area@.categories =~= old_area.categories.drop_last());
                        let ghost old_folders = category@.folders;
                        let folder_id = category.id.clone().folder_id(*id, topic);
                        let folder = Folder {
                            id: folder_id,
                            topic: (*topic).to_owned(),
                            kind: *kind,
                            folders: Vec::new(),
                        };
                        assert(folder@.folders =~= Seq::<XFolderView>::empty());
                        category.folders.push(folder);
                        assert(category@.folders =~= old_folders.push(folder@));
                        area.categories.push(category);
                        assert(area@.categories =~= old_area.categories.update(
                            old_area.categories.len() - 1,
                            category@,
                        ));
                    } else {
                        assert(area@ == old_area);
                    }
                    self.areas.push(area);
                    assert(self@.areas =~= old_areas.update(old_areas.len() - 1, area@));
                    proof {
                        if old_area.categories.len() == 0 {
                            assert(self@.areas =~= old_areas);
                        }
                    }
                }
            },
            ParsedKind::ExtendedFolder(id, kind, topic) => {
                if let Some(mut area) = self.areas.pop() {
                    assert(self@.areas =~= old_areas.drop_last());
                    let ghost old_area = area@;
                    if let Some(mut category) = area.categories.pop() {
                        assert(area@.categories =~= old_area.categories.drop_last());
                        let ghost old_category = category@;
                        if let Some(mut folder) = category.folders.pop() {
                            assert(category@.folders =~= old_category.folders.drop_last());
                            let ghost old_xfolders = folder@.folders;
                            let xfolder_id = folder.id.clone().xfolder_id(id, topic);
                            let xfolder = XFolder {
                                id: xfolder_id,
                                topic: (*topic).to_owned(),
                                kind: *kind,
                            };
                            folder.folders.push(xfolder);
                            assert(folder@.folders =~= old_xfolders.push(xfolder@));
                            category.folders.push(folder);
                            assert(category@.folders =~= old_category.folders.update(
                                old_category.folders.len() - 1,
                                folder@,
                            ));
                        } else {
                            assert(category@ == old_category);
                        }
                        area.categories.push(category);
                        assert(area@.categories =~= old_area.categories.update(
                            old_area.categories.len() - 1,
                            category@,
                        ));
                        proof {
                            if old_category.folders.len() == 0 {
                                assert(area@.categories =~= old_area.categories);
                            }
                        }
                    } else {
                        assert(area@ == old_area);
                    }
                    self.areas.push(area);
                    assert(self@.areas =~= old_areas.update(old_areas.len() - 1, area@));
                    proof {
                        if old_area.categories.len() == 0
                            || old_area.categories.last().folders.len() == 0 {
                            assert(self@.areas =~= old_areas);
                        }
                    }
                }
            },
        }
    }

    /// Builds the tree that the parameters' outline describes. The first
    /// line that cannot be read fails the whole build.
    pub fn from_parameters(value: &SystemParameters) -> (r: Result<System, ParseError>)
        ensures
            match r {
                Ok(s) => build(root_of(value.system_id@, value.name@), lines_of(value.config@))
                    == Ok::<_, (nat, ParseErrorKind)>(s@),
                Err(e) => build(root_of(value.system_id@, value.name@), lines_of(value.config@))
                    == Err::<SystemView, _>((e.line_no as nat, e.kind)),
            },
    {
        let system_id = JohnnyId::default().system_id(value.system_id.as_str());
        let mut system = System::new(system_id, value.name.as_str());
        let ghost init = system@;
        let lines = split_lines(value.config.as_str());
        let ghost all = lines_of(value.config@);
        assert(init == root_of(value.system_id@, value.name@));
        let mut i: usize = 0;
        assert(all.take(0) =~= Seq::<Seq<char>>::empty());
        while i < lines.len()
            invariant
                views_of(lines@) == all,
                all == lines_of(value.config@),
                init == root_of(value.system_id@, value.name@),
                i <= lines.len(),
                build(init, all.take(i as int)) == Ok::<_, (nat, ParseErrorKind)>(system@),
                system@.well_formed(),
            decreases lines.len() - i,
        {
            let ghost before = all.take(i as int);
            assert(all.take(i + 1).drop_last() =~= before);
            assert(all.take(i + 1).last() == lines@[i as int]@);
            match parse_single(i + 1, lines[i]) {
                Ok(record) => {
                    system.add_record(&record);
                },
                Err(e) => {
                    proof {
                        assert(record_of(all.take(i + 1).last()) == Err::<Record, _>(e.kind));
                        assert(build(init, all.take(i + 1)) == Err::<SystemView, _>(
                            ((i + 1) as nat, e.kind),
                        ));
                        lemma_build_stays_failed(init, all, i + 1);
                    }
                    return Err(e);
                },
            }
            i = i + 1;
        }
        assert(all.take(i as int) =~= all);
        Ok(system)
    }
}

} // verus!
