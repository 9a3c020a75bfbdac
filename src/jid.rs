//! Johnny Decimal identifiers: a chain of up to five segments (system,
//! area, category, folder, extended folder), their renderings, and the
//! filesystem path they name.
use vstd::prelude::*;
use vstd::string::*;

use crate::text::{push_all, push_char, push_two_digits, two_digits};

verus! {

/// Binds a range of u8 ids to a topic
#[derive(Debug)]
pub struct BoundRangeId {
    /// The topic of the range
    pub topic: String,
    /// The start of the range
    pub start: u8,
    /// The end of the range
    pub end: u8,
}

/// Binds a u8 id to a topic
#[derive(Debug)]
pub struct BoundU8Id {
    /// The topic of the id
    pub topic: String,
    /// The id
    pub id: u8,
}

/// Binds a string id to a topic
#[derive(Debug)]
pub struct BoundStrId {
    /// The topic of the id
    pub topic: String,
    /// The id
    pub id: String,
}

/// Represents a Johnny Decimal id
#[derive(Debug)]
pub struct JohnnyId {
    /// The system id `L##`
    pub system: Option<String>,
    /// The area id `L##.##-##`
    pub area: Option<BoundRangeId>,
    /// The category id `L##.##` (the area id is not part of it)
    pub category: Option<BoundU8Id>,
    /// The folder id `L##.##.##`
    pub folder: Option<BoundU8Id>,
    /// The extended folder id `L##.##.##.X##`
    pub xfolder: Option<BoundStrId>,
}

/// The value of an area segment.
pub struct RangeSeg {
    pub start: u8,
    pub end: u8,
    pub topic: Seq<char>,
}

/// The value of a category or folder segment.
pub struct NumSeg {
    pub id: u8,
    pub topic: Seq<char>,
}

/// The value of an extended-folder segment.
pub struct TextSeg {
    pub id: Seq<char>,
    pub topic: Seq<char>,
}

/// The value of an identifier: which segments are set, and to what.
pub struct JidView {
    pub system: Option<Seq<char>>,
    pub area: Option<RangeSeg>,
    pub category: Option<NumSeg>,
    pub folder: Option<NumSeg>,
    pub xfolder: Option<TextSeg>,
}

impl View for BoundRangeId {
    type V = RangeSeg;

    open spec fn view(&self) -> RangeSeg {
        RangeSeg { start: self.start, end: self.end, topic: self.topic@ }
    }
}

impl View for BoundU8Id {
    type V = NumSeg;

    open spec fn view(&self) -> NumSeg {
        NumSeg { id: self.id, topic: self.topic@ }
    }
}

impl View for BoundStrId {
    type V = TextSeg;

    open spec fn view(&self) -> TextSeg {
        TextSeg { id: self.id@, topic: self.topic@ }
    }
}

pub open spec fn opt_view<T: View>(o: Option<T>) -> Option<T::V> {
    match o {
        Some(x) => Some(x@),
        None => None,
    }
}

impl View for JohnnyId {
    type V = JidView;

    open spec fn view(&self) -> JidView {
        JidView {
            system: opt_view(self.system),
            area: opt_view(self.area),
            category: opt_view(self.category),
            folder: opt_view(self.folder),
            xfolder: opt_view(self.xfolder),
        }
    }
}

/// `parts` joined with `sep` between neighbours.
pub open spec fn join(parts: Seq<Seq<char>>, sep: Seq<char>) -> Seq<char>
    decreases parts.len(),
{
    if parts.len() == 0 {
        Seq::empty()
    } else if parts.len() == 1 {
        parts[0]
    } else {
        join(parts.drop_last(), sep) + sep + parts.last()
    }
}

/// `child` placed under the directory `dir`.
pub open spec fn join_path(dir: Seq<char>, child: Seq<char>) -> Seq<char> {
    if dir.len() == 0 {
        child
    } else if dir.last() == '/' {
        dir + child
    } else {
        dir + seq!['/'] + child
    }
}

/// An area segment as it stands in a bound rendering: `SS-EE topic`.
pub open spec fn area_text(a: RangeSeg) -> Seq<char> {
    two_digits(a.start) + seq!['-'] + two_digits(a.end) + seq![' '] + a.topic
}

impl JidView {
    /// How many segments are set, counted from the system down to the first unset one.
    pub open spec fn depth(self) -> nat {
        if self.system is None {
            0
        } else if self.area is None {
            1
        } else if self.category is None {
            2
        } else if self.folder is None {
            3
        } else if self.xfolder is None {
            4
        } else {
            5
        }
    }

    /// Exactly the `k` shallowest segments are set: no gaps, nothing deeper.
    pub open spec fn filled(self, k: nat) -> bool {
        &&& (self.system is Some <==> k >= 1)
        &&& (self.area is Some <==> k >= 2)
        &&& (self.category is Some <==> k >= 3)
        &&& (self.folder is Some <==> k >= 4)
        &&& (self.xfolder is Some <==> k >= 5)
    }

    pub open spec fn empty() -> JidView {
        JidView { system: None, area: None, category: None, folder: None, xfolder: None }
    }

    pub open spec fn with_system(self, name: Seq<char>) -> JidView {
        JidView { system: Some(name), ..self }
    }

    pub open spec fn with_area(self, start: u8, end: u8, topic: Seq<char>) -> JidView {
        JidView { area: Some(RangeSeg { start, end, topic }), ..self }
    }

    pub open spec fn with_category(self, id: u8, topic: Seq<char>) -> JidView {
        JidView { category: Some(NumSeg { id, topic }), ..self }
    }

    pub open spec fn with_folder(self, id: u8, topic: Seq<char>) -> JidView {
        JidView { folder: Some(NumSeg { id, topic }), ..self }
    }

    pub open spec fn with_xfolder(self, id: Seq<char>, topic: Seq<char>) -> JidView {
        JidView { xfolder: Some(TextSeg { id, topic }), ..self }
    }

    /// The identifier with its deepest set segment removed.
    pub open spec fn without_deepest(self) -> JidView {
        if self.area is None {
            JidView::empty()
        } else if self.category is None {
            JidView { area: None, ..self }
        } else if self.folder is None {
            JidView { category: None, ..self }
        } else if self.xfolder is None {
            JidView { folder: None, ..self }
        } else {
            JidView { xfolder: None, ..self }
        }
    }

    /// The parent identifier; none for an identifier without a system.
    pub open spec fn parent(self) -> Option<JidView> {
        if self.system is None {
            None
        } else {
            Some(self.without_deepest())
        }
    }

    /// The start of the compact rendering: the system, then the area's
    /// range while nothing below the area is set.
    pub open spec fn compact_head(self, sep: Seq<char>) -> Seq<char> {
        let base = match self.system {
            Some(s) => s,
            None => Seq::empty(),
        };
        match self.area {
            Some(a) => if self.depth() <= 2 {
                base + sep + two_digits(a.start) + seq!['-'] + two_digits(a.end)
            } else {
                base
            },
            None => base,
        }
    }

    /// The compact rendering: ids only, each after `sep`.
    pub open spec fn compact(self, sep: Seq<char>) -> Seq<char> {
        let head = self.compact_head(sep);
        match self.category {
            None => head,
            Some(c) => {
                let with_c = head + sep + two_digits(c.id);
                match self.folder {
                    None => with_c,
                    Some(f) => {
                        let with_f = with_c + sep + two_digits(f.id);
                        match self.xfolder {
                            None => with_f,
                            Some(x) => with_f + sep + x.id,
                        }
                    },
                }
            },
        }
    }

    /// The pieces of the bound rendering, before they are joined.
    pub open spec fn bound_parts(self) -> Seq<Seq<char>> {
        let head = self.bound_head_parts();
        let with_category = match self.category {
            Some(c) => head.push(two_digits(c.id)),
            None => head,
        };
        let with_folder = match self.folder {
            Some(f) => with_category.push(two_digits(f.id)),
            None => with_category,
        };
        match self.xfolder {
            Some(x) => with_folder.push(x.id),
            None => with_folder,
        }
    }

    /// The pieces of the bound rendering for the system and the area.
    pub open spec fn bound_head_parts(self) -> Seq<Seq<char>> {
        let from_system = match self.system {
            Some(s) => seq![s],
            None => Seq::empty(),
        };
        match self.area {
            Some(a) => if self.depth() <= 2 {
                from_system.push(area_text(a))
            } else {
                from_system
            },
            None => from_system,
        }
    }

    /// The topic of the deepest of extended folder, folder and category that is set.
    pub open spec fn deepest_topic(self) -> Option<Seq<char>> {
        match self.xfolder {
            Some(x) => Some(x.topic),
            None => match self.folder {
                Some(f) => Some(f.topic),
                None => match self.category {
                    Some(c) => Some(c.topic),
                    None => None,
                },
            },
        }
    }

    /// The bound rendering: the pieces joined by `sep`, then the deepest topic.
    pub open spec fn bound(self, sep: Seq<char>) -> Seq<char> {
        match self.deepest_topic() {
            Some(t) => join(self.bound_parts(), sep) + seq![' '] + t,
            None => join(self.bound_parts(), sep),
        }
    }

    /// The path: the bound rendering of each ancestor that has a system,
    /// shallowest first, ending with the identifier's own.
    pub open spec fn path(self) -> Seq<char>
        decreases self.depth(),
    {
        if self.depth() <= 1 {
            self.bound(seq!['.'])
        } else {
            join_path(self.without_deepest().path(), self.bound(seq!['.']))
        }
    }
}

/// The path of an identifier that has a system is its parent's path with
/// the identifier's own bound rendering placed under it.
pub proof fn path_extends_parent(id: JidView)
    requires
        id.system is Some,
    ensures
        id.parent() is Some,
        id.path() == join_path(id.parent()->Some_0.path(), id.bound(seq!['.'])),
{
    if id.depth() == 1 {
        let root = id.parent()->Some_0;
        assert(root == JidView::empty());
        assert(root.bound_parts() =~= Seq::<Seq<char>>::empty());
        assert(root.path() =~= Seq::<char>::empty());
    }
}

impl Clone for BoundRangeId {
    fn clone(&self) -> (r: Self)
        ensures
            r == *self,
    {
        BoundRangeId { topic: self.topic.clone(), start: self.start, end: self.end }
    }
}

impl Clone for BoundU8Id {
    fn clone(&self) -> (r: Self)
        ensures
            r == *self,
    {
        BoundU8Id { topic: self.topic.clone(), id: self.id }
    }
}

impl Clone for BoundStrId {
    fn clone(&self) -> (r: Self)
        ensures
            r == *self,
    {
        BoundStrId { topic: self.topic.clone(), id: self.id.clone() }
    }
}

fn clone_system(o: &Option<String>) -> (r: Option<String>)
    ensures
        r == *o,
{
    match o {
        Some(s) => Some(s.clone()),
        None => None,
    }
}

fn clone_range(o: &Option<BoundRangeId>) -> (r: Option<BoundRangeId>)
    ensures
        r == *o,
{
    match o {
        Some(s) => Some(s.clone()),
        None => None,
    }
}

fn clone_num(o: &Option<BoundU8Id>) -> (r: Option<BoundU8Id>)
    ensures
        r == *o,
{
    match o {
        Some(s) => Some(s.clone()),
        None => None,
    }
}

fn clone_text(o: &Option<BoundStrId>) -> (r: Option<BoundStrId>)
    ensures
        r == *o,
{
    match o {
        Some(s) => Some(s.clone()),
        None => None,
    }
}

impl Clone for JohnnyId {
    fn clone(&self) -> (r: Self)
        ensures
            r == *self,
    {
        JohnnyId {
            system: clone_system(&self.system),
            area: clone_range(&self.area),
            category: clone_num(&self.category),
            folder: clone_num(&self.folder),
            xfolder: clone_text(&self.xfolder),
        }
    }
}

impl Default for JohnnyId {
    fn default() -> (r: Self)
        ensures
            r@ == JidView::empty(),
    {
        JohnnyId { system: None, area: None, category: None, folder: None, xfolder: None }
    }
}

/// Appends `part` to a rendering that already holds `count` parts.
fn push_part(out: &mut String, count: usize, sep: &str, part: &str)
    ensures
        final(out)@ == if count == 0 {
            old(out)@ + part@
        } else {
            old(out)@ + sep@ + part@
        },
{
    if count > 0 {
        push_all(out, sep);
    }
    push_all(out, part);
}

proof fn lemma_join_push(parts: Seq<Seq<char>>, sep: Seq<char>, p: Seq<char>)
    ensures
        join(parts.push(p), sep) == if parts.len() == 0 {
            p
        } else {
            join(parts, sep) + sep + p
        },
{
    assert(parts.push(p).drop_last() =~= parts);
    if parts.len() == 0 {
        assert(parts.push(p)[0] == p);
    }
}

/// Places `child` under the directory `dir`.
pub(crate) fn push_path_component(dir: &mut String, child: &str)
    ensures
        final(dir)@ == join_path(old(dir)@, child@),
{
    let len = dir.as_str().unicode_len();
    if len > 0 && dir.as_str().get_char(len - 1) != '/' {
        push_char(dir, '/');
    }
    push_all(dir, child);
}

impl JohnnyId {
    /// How many segments are set, counted from the system down.
    pub fn level(&self) -> (r: u8)
        ensures
            r as nat == self@.depth(),
    {
        if self.system.is_none() {
            return 0;
        }
        if self.area.is_none() {
            return 1;
        }
        if self.category.is_none() {
            return 2;
        }
        if self.folder.is_none() {
            return 3;
        }
        if self.xfolder.is_none() {
            return 4;
        }
        5
    }

    /// Set the system id
    pub fn system_id(self, system_id: &str) -> (r: Self)
        requires
            self@.filled(0),
        ensures
            r@ == self@.with_system(system_id@),
            r@.filled(1),
    {
        JohnnyId { system: Some(system_id.to_owned()), ..self }
    }

    /// Set the area id
    pub fn area_id(self, start: u8, end: u8, topic: &str) -> (r: Self)
        requires
            self@.filled(1),
        ensures
            r@ == self@.with_area(start, end, topic@),
            r@.filled(2),
    {
        JohnnyId { area: Some(BoundRangeId { topic: topic.to_owned(), start, end }), ..self }
    }

    /// Set the category id
    pub fn category_id(self, category_id: u8, topic: &str) -> (r: Self)
        requires
            self@.filled(2),
        ensures
            r@ == self@.with_category(category_id, topic@),
            r@.filled(3),
    {
        JohnnyId { category: Some(BoundU8Id { topic: topic.to_owned(), id: category_id }), ..self }
    }

    /// Set the folder id
    pub fn folder_id(self, folder_id: u8, topic: &str) -> (r: Self)
        requires
            self@.filled(3),
        ensures
            r@ == self@.with_folder(folder_id, topic@),
            r@.filled(4),
    {
        JohnnyId { folder: Some(BoundU8Id { topic: topic.to_owned(), id: folder_id }), ..self }
    }

    /// Set the extended folder id
    pub fn xfolder_id(self, xfolder_id: &str, topic: &str) -> (r: Self)
        requires
            self@.filled(4),
        ensures
            r@ == self@.with_xfolder(xfolder_id@, topic@),
            r@.filled(5),
    {
        JohnnyId {
            xfolder: Some(BoundStrId { topic: topic.to_owned(), id: xfolder_id.to_owned() }),
            ..self
        }
    }

    /// Get the id by a separator
    pub fn by_seperator(&self, sep: &str) -> (r: String)
        ensures
            r@ == self@.compact(sep@),
    {
        let mut id = String::new();
        if let Some(system_id) = &self.system {
            push_all(&mut id, system_id.as_str());
        }
        if self.level() <= 2 {
            if let Some(area_id) = &self.area {
                push_all(&mut id, sep);
                push_two_digits(&mut id, area_id.start);
                push_char(&mut id, '-');
                push_two_digits(&mut id, area_id.end);
            }
        }
        assert(id@ =~= self@.compact_head(sep@));
        if let Some(category) = &self.category {
            push_all(&mut id, sep);
            push_two_digits(&mut id, category.id);
        } else {
            return id;
        }
        if let Some(folder) = &self.folder {
            push_all(&mut id, sep);
            push_two_digits(&mut id, folder.id);
        } else {
            return id;
        }
        if let Some(xfolder) = &self.xfolder {
            push_all(&mut id, sep);
            push_all(&mut id, xfolder.id.as_str());
        } else {
            return id;
        }
        id
    }

    /// Writes the system and area pieces of the bound rendering.
    fn push_bound_head(&self, id: &mut String, sep: &str) -> (count: usize)
        requires
            old(id)@.len() == 0,
        ensures
            final(id)@ == join(self@.bound_head_parts(), sep@),
            count == self@.bound_head_parts().len(),
    {
        let mut count: usize = 0;
        let ghost mut parts: Seq<Seq<char>> = Seq::empty();
        if let Some(system_id) = &self.system {
            push_part(id, count, sep, system_id.as_str());
            proof {
                lemma_join_push(parts, sep@, system_id@);
                parts = parts.push(system_id@);
            }
            count = count + 1;
        }
        if self.level() <= 2 {
            if let Some(area_id) = &self.area {
                let mut text = String::new();
                push_two_digits(&mut text, area_id.start);
                push_char(&mut text, '-');
                push_two_digits(&mut text, area_id.end);
                push_char(&mut text, ' ');
                push_all(&mut text, area_id.topic.as_str());
                assert(text@ =~= area_text(area_id@));
                push_part(id, count, sep, text.as_str());
                proof {
                    lemma_join_push(parts, sep@, text@);
                    parts = parts.push(text@);
                }
                count = count + 1;
            }
        }
        assert(parts =~= self@.bound_head_parts());
        count
    }

    /// Get the id by a separator with the names included in the id parts
    pub fn by_seperator_bound(&self, sep: &str) -> (r: String)
        ensures
            r@ == self@.bound(sep@),
    {
        let mut id = String::new();
        let mut count = self.push_bound_head(&mut id, sep);
        let ghost mut parts: Seq<Seq<char>> = self@.bound_head_parts();
        if let Some(category) = &self.category {
            let text = crate::text::two_digit_string(category.id);
            push_part(&mut id, count, sep, text.as_str());
            proof {
                lemma_join_push(parts, sep@, text@);
                parts = parts.push(text@);
            }
            count = count + 1;
        }
        if let Some(folder) = &self.folder {
            let text = crate::text::two_digit_string(folder.id);
            push_part(&mut id, count, sep, text.as_str());
            proof {
                lemma_join_push(parts, sep@, text@);
                parts = parts.push(text@);
            }
            count = count + 1;
        }
        if let Some(xfolder) = &self.xfolder {
            push_part(&mut id, count, sep, xfolder.id.as_str());
            proof {
                lemma_join_push(parts, sep@, xfolder.id@);
                parts = parts.push(xfolder.id@);
            }
        }
        assert(parts =~= self@.bound_parts());
        let topic: Option<&String> = if let Some(xfolder) = &self.xfolder {
            Some(&xfolder.topic)
        } else if let Some(folder) = &self.folder {
            Some(&folder.topic)
        } else if let Some(category) = &self.category {
            Some(&category.topic)
        } else {
            None
        };
        if let Some(t) = topic {
            push_char(&mut id, ' ');
            push_all(&mut id, t.as_str());
        }
        id
    }

    /// Get the parent of the current id
    pub fn parent(&self) -> (r: Option<Self>)
        ensures
            opt_view(r) == self@.parent(),
    {
        if self.system.is_none() {
            return None;
        }
        if self.area.is_none() {
            return Some(Self::default());
        }
        if self.category.is_none() {
            return Some(JohnnyId { area: None, ..self.clone() });
        }
        if self.folder.is_none() {
            return Some(JohnnyId { category: None, ..self.clone() });
        }
        if self.xfolder.is_none() {
            return Some(JohnnyId { folder: None, ..self.clone() });
        }
        Some(JohnnyId { xfolder: None, ..self.clone() })
    }

    /// Convert the id into a full path: one component per level, each the
    /// bound rendering of that level's identifier, separated by `/`.
    pub fn as_path(&self) -> (r: String)
        ensures
            r@ == self@.path(),
        decreases self@.depth(),
    {
        let dot = ".";
        proof {
            reveal_strlit(".");
            assert(dot@ =~= seq!['.']);
        }
        let own = self.by_seperator_bound(dot);
        if self.level() <= 1 {
            return own;
        }
        let parent = match self.parent() {
            Some(p) => p,
            None => JohnnyId::default(),
        };
        let mut result = parent.as_path();
        push_path_component(&mut result, own.as_str());
        result
    }
}

} // verus!
