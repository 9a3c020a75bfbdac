//! The taxonomy tree: a system of areas, categories, folders and extended
//! folders, each carrying its identifier.
use vstd::prelude::*;

use crate::jid::{JidView, JohnnyId};

verus! {

/// The kind of "folder" we are dealing with. "folder" is a concept in the Johnny Decimal system
/// and does not always represent an actual folder on your file system.
#[derive(Debug, Clone, Copy, PartialEq, Eq, Structural)]
pub enum FolderKind {
    /// This is just the directory
    Folder,
    /// This is just the file in the parent directory
    File,
    /// This is both the directory and a file in the parent directory
    Both,
    /// This is a jdex file
    Index,
}

/// The kind that a directive character selects.
pub open spec fn kind_of_char(directive: char) -> FolderKind {
    if directive == '-' {
        FolderKind::File
    } else if directive == '+' {
        FolderKind::Both
    } else if directive == '!' {
        FolderKind::Index
    } else {
        FolderKind::Folder
    }
}

impl Default for FolderKind {
    fn default() -> (r: Self)
        ensures
            r == FolderKind::Folder,
    {
        FolderKind::Folder
    }
}

impl FolderKind {
    /// Create a `FolderKind` from a directive character
    pub fn from_char(directive: char) -> (r: Self)
        ensures
            r == kind_of_char(directive),
    {
        match directive {
            '-' => FolderKind::File,
            '+' => FolderKind::Both,
            '!' => FolderKind::Index,
            _ => FolderKind::Folder,
        }
    }

    /// Whether this is the plain directory kind
    pub fn is_folder(&self) -> (r: bool)
        ensures
            r == (*self == FolderKind::Folder),
    {
        matches!(self, FolderKind::Folder)
    }
}

/// An item that has a Johnny Decimal id
pub trait HasJohnnyId {
    spec fn jid_view(&self) -> JidView;

    spec fn name_view(&self) -> Seq<char>;

    /// Returns the Johnny Decimal id of the item
    fn jid(&self) -> (r: &JohnnyId)
        ensures
            r@ == self.jid_view(),
    ;

    /// Returns the name of the item
    fn name(&self) -> (r: &str)
        ensures
            r@ == self.name_view(),
    ;
}

/// The full id of an item: its compact identifier, a space, its name.
pub open spec fn full_id(id: JidView, name: Seq<char>) -> Seq<char> {
    id.compact(seq!['.']) + seq![' '] + name
}

/// An item that has a full id in the Johnny Decimal system
pub trait FullId: HasJohnnyId {
    /// Returns the id of the item
    fn id(&self) -> (r: String)
        ensures
            r@ == full_id(self.jid_view(), self.name_view()),
    {
        let dot = ".";
        proof {
            reveal_strlit(".");
            assert(dot@ =~= seq!['.']);
        }
        let mut r = self.jid().by_seperator(dot);
        crate::text::push_char(&mut r, ' ');
        crate::text::push_all(&mut r, self.name());
        r
    }

    /// Returns the path of the item
    fn as_path(&self) -> (r: String)
        ensures
            r@ == self.jid_view().path(),
    {
        self.jid().as_path()
    }
}

/// an item that has a `FolderKind` associated with it
pub trait HasFolderKind {
    spec fn kind_view(&self) -> FolderKind;

    /// Returns the `FolderKind` of the item
    fn kind(&self) -> (r: &FolderKind)
        ensures
            *r == self.kind_view(),
    ;
}

/// Represents a system in the Johnny Decimal system
#[derive(Debug)]
pub struct System {
    /// The id of the system
    pub id: JohnnyId,
    /// The name of the system
    pub name: String,
    /// The areas under this system
    pub areas: Vec<Area>,
}

/// Represents an area in the Johnny Decimal system
#[derive(Debug)]
pub struct Area {
    /// The id of the area
    pub id: JohnnyId,
    /// The range of ids in the area
    pub id_range: (u8, u8),
    /// The Title of the area
    pub topic: String,
    /// The categories under this area
    pub categories: Vec<Category>,
}

/// Represents a category in the Johnny Decimal system
#[derive(Debug)]
pub struct Category {
    /// The id of the category
    pub id: JohnnyId,
    /// The Title of the category
    pub topic: String,
    /// The folders under this category
    pub folders: Vec<Folder>,
}

/// This is a "folder" which should have an ID in the form "##" where ## is a number
#[derive(Debug)]
pub struct Folder {
    /// The id of the "folder"
    pub id: JohnnyId,
    /// The Title of the "folder"
    pub topic: String,
    /// The kind of "folder"
    pub kind: FolderKind,
    /// The extended folders under this folder. Normally empty
    pub folders: Vec<XFolder>,
}

/// This is an "extended folder" which should have an ID in the form "X##" where ## is a number
#[derive(Debug)]
pub struct XFolder {
    /// The id of the "folder"
    pub id: JohnnyId,
    /// The Title of the "folder"
    pub topic: String,
    /// The kind of "folder"
    pub kind: FolderKind,
}

pub struct SystemView {
    pub id: JidView,
    pub name: Seq<char>,
    pub areas: Seq<AreaView>,
}

pub struct AreaView {
    pub id: JidView,
    pub id_range: (u8, u8),
    pub topic: Seq<char>,
    pub categories: Seq<CategoryView>,
}

pub struct CategoryView {
    pub id: JidView,
    pub topic: Seq<char>,
    pub folders: Seq<FolderView>,
}

pub struct FolderView {
    pub id: JidView,
    pub topic: Seq<char>,
    pub kind: FolderKind,
    pub folders: Seq<XFolderView>,
}

pub struct XFolderView {
    pub id: JidView,
    pub topic: Seq<char>,
    pub kind: FolderKind,
}

impl View for XFolder {
    type V = XFolderView;

    open spec fn view(&self) -> XFolderView {
        XFolderView { id: self.id@, topic: self.topic@, kind: self.kind }
    }
}

impl View for Folder {
    type V = FolderView;

    open spec fn view(&self) -> FolderView {
        FolderView {
            id: self.id@,
            topic: self.topic@,
            kind: self.kind,
            folders: self.folders@.map_values(|x: XFolder| x@),
        }
    }
}

impl View for Category {
    type V = CategoryView;

    open spec fn view(&self) -> CategoryView {
        CategoryView {
            id: self.id@,
            topic: self.topic@,
            folders: self.folders@.map_values(|f: Folder| f@),
        }
    }
}

impl View for Area {
    type V = AreaView;

    open spec fn view(&self) -> AreaView {
        AreaView {
            id: self.id@,
            id_range: self.id_range,
            topic: self.topic@,
            categories: self.categories@.map_values(|c: Category| c@),
        }
    }
}

impl View for System {
    type V = SystemView;

    open spec fn view(&self) -> SystemView {
        SystemView { id: self.id@, name: self.name@, areas: self.areas@.map_values(|a: Area| a@) }
    }
}

/// Every node's identifier has exactly the segments of its level set.
pub open spec fn folder_ok(f: FolderView) -> bool {
    &&& f.id.filled(4)
    &&& forall|m: int| 0 <= m < f.folders.len() ==> (#[trigger] f.folders[m]).id.filled(5)
}

pub open spec fn category_ok(c: CategoryView) -> bool {
    &&& c.id.filled(3)
    &&& forall|k: int| 0 <= k < c.folders.len() ==> folder_ok(#[trigger] c.folders[k])
}

pub open spec fn area_ok(a: AreaView) -> bool {
    &&& a.id.filled(2)
    &&& forall|j: int| 0 <= j < a.categories.len() ==> category_ok(#[trigger] a.categories[j])
}

impl SystemView {
    pub open spec fn well_formed(self) -> bool {
        &&& self.id.filled(1)
        &&& forall|i: int| 0 <= i < self.areas.len() ==> area_ok(#[trigger] self.areas[i])
    }
}

impl System {
    /// Create a new system with the given id and name
    pub fn new(system_id: JohnnyId, name: &str) -> (r: Self)
        ensures
            r@ == (SystemView { id: system_id@, name: name@, areas: Seq::empty() }),
    {
        let r = System { id: system_id, name: name.to_owned(), areas: Vec::new() };
        assert(r@.areas =~= Seq::<AreaView>::empty());
        r
    }
}

impl HasJohnnyId for System {
    open spec fn jid_view(&self) -> JidView {
        self.id@
    }

    open spec fn name_view(&self) -> Seq<char> {
        self.name@
    }

    fn jid(&self) -> (r: &JohnnyId) {
        &self.id
    }

    fn name(&self) -> (r: &str) {
        self.name.as_str()
    }
}

impl FullId for System {

}

impl HasJohnnyId for Area {
    open spec fn jid_view(&self) -> JidView {
        self.id@
    }

    open spec fn name_view(&self) -> Seq<char> {
        self.topic@
    }

    fn jid(&self) -> (r: &JohnnyId) {
        &self.id
    }

    fn name(&self) -> (r: &str) {
        self.topic.as_str()
    }
}

impl FullId for Area {

}

impl HasJohnnyId for Category {
    open spec fn jid_view(&self) -> JidView {
        self.id@
    }

    open spec fn name_view(&self) -> Seq<char> {
        self.topic@
    }

    fn jid(&self) -> (r: &JohnnyId) {
        &self.id
    }

    fn name(&self) -> (r: &str) {
        self.topic.as_str()
    }
}

impl FullId for Category {

}

impl HasJohnnyId for Folder {
    open spec fn jid_view(&self) -> JidView {
        self.id@
    }

    open spec fn name_view(&self) -> Seq<char> {
        self.topic@
    }

    fn jid(&self) -> (r: &JohnnyId) {
        &self.id
    }

    fn name(&self) -> (r: &str) {
        self.topic.as_str()
    }
}

impl FullId for Folder {

}

impl HasFolderKind for Folder {
    open spec fn kind_view(&self) -> FolderKind {
        self.kind
    }

    fn kind(&self) -> (r: &FolderKind) {
        &self.kind
    }
}

impl HasJohnnyId for XFolder {
    open spec fn jid_view(&self) -> JidView {
        self.id@
    }

    open spec fn name_view(&self) -> Seq<char> {
        self.topic@
    }

    fn jid(&self) -> (r: &JohnnyId) {
        &self.id
    }

    fn name(&self) -> (r: &str) {
        self.topic.as_str()
    }
}

impl FullId for XFolder {

}

impl HasFolderKind for XFolder {
    open spec fn kind_view(&self) -> FolderKind {
        self.kind
    }

    fn kind(&self) -> (r: &FolderKind) {
        &self.kind
    }
}

} // verus!
