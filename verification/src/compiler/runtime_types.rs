//! Runtime types of the ink JSON format: containers, control commands,
//! native functions, diverts, variables, choice points, tags, lists and the
//! story itself, each with its mathematical view.
//!
//! Containers become JSON arrays whose last element is `null` or a dict of
//! named sub-containers and flags; strings carry a `^` prefix; special
//! objects use dict notation such as `{"->": "path"}`.

use vstd::prelude::*;
use crate::text::str_equal;

verus! {

// ---------------------------------------------------------------------------
// Names with underscores
// ---------------------------------------------------------------------------

/// `s` with every space replaced by an underscore.
pub open spec fn underscored(s: Seq<char>) -> Seq<char> {
    s.map_values(|c: char| if c == ' ' { '_' } else { c })
}

/// Normalizing a name leaves no spaces, and normalizing again changes
/// nothing.
pub proof fn law_underscored_idempotent(s: Seq<char>)
    ensures
        !underscored(s).contains(' '),
        underscored(underscored(s)) == underscored(s),
{
    assert(underscored(underscored(s)) =~= underscored(s));
    if underscored(s).contains(' ') {
        let i = choose|i: int| 0 <= i < underscored(s).len() && underscored(s)[i] == ' ';
        assert(underscored(s)[i] == if s[i] == ' ' { '_' } else { s[i] });
    }
}

/// Replace spaces with underscores.
pub fn normalize_name(name: &str) -> (r: String)
    ensures
        r@ == underscored(name@),
{
    let chars = crate::text::chars_of(name);
    let mut r = String::new();
    let mut i: usize = 0;
    while i < chars.len()
        invariant
            chars@ == name@,
            i <= chars.len(),
            r@ == underscored(name@.take(i as int)),
        decreases chars.len() - i,
    {
        let c = chars[i];
        if c == ' ' {
            r.push('_');
        } else {
            r.push(c);
        }
        assert(underscored(name@.take(i + 1)) =~= underscored(name@.take(i as int)).push(
            if c == ' ' {
                '_'
            } else {
                c
            },
        ));
        i = i + 1;
    }
    assert(name@.take(i as int) =~= name@);
    r
}

// ---------------------------------------------------------------------------
// Runtime objects and containers
// ---------------------------------------------------------------------------

/// Ink runtime object that can be serialized to JSON.
#[derive(Debug)]
pub enum InkObject {
    /// A container holds an ordered list of objects and optional named sub-containers.
    Container(Container),
    /// Control commands: "ev", "/ev", "out", "pop", etc.
    ControlCommand(ControlCommand),
    /// Native function calls: "+", "-", "==", "&&", etc.
    NativeFuncCall(NativeFuncCall),
    /// A divert to another point in the story.
    Divert(Divert),
    /// Variable assignment (VAR= or temp=).
    VariableAssignment(VariableAssignment),
    /// Variable reference (VAR?).
    VariableReference(VariableReference),
    /// A choice point in the story.
    ChoicePoint(ChoicePoint),
    /// A tag attached to content.
    Tag(Tag),
    /// Void value.
    Void,
    /// String value with ^ prefix.
    String(String),
    /// Divert target reference.
    DivertTarget(String),
    /// Variable pointer (for function parameters).
    VariablePointer { varname: String, context_index: i32 },
    /// Integer value.
    Int(i64),
    /// Floating-point value, as the decimal literal it was written with.
    Float(String),
}

/// A container holds content (as an ordered array) and optionally named sub-elements.
#[derive(Debug)]
pub struct Container {
    /// Ordered list of content elements.
    pub content: Vec<InkObject>,
    /// Named sub-containers (e.g., stitches, choice containers); each name
    /// occurs once.
    pub named: Vec<(String, Container)>,
    /// Flags for visit/turn counting.
    pub flags: ContainerFlags,
    /// Optional name for this container.
    pub name: Option<String>,
    /// Optional count of visits (when visited count tracking is needed).
    pub visits: Option<i32>,
    /// Optional turn count (when turn-since tracking is needed).
    pub turn_index: Option<i32>,
}

pub enum InkObjectView {
    Container(ContainerView),
    ControlCommand(ControlCommand),
    NativeFuncCall(NativeFuncCall),
    Divert(DivertView),
    VariableAssignment(VariableAssignmentView),
    VariableReference(VariableReferenceView),
    ChoicePoint(ChoicePointView),
    Tag(Seq<char>),
    Void,
    String(Seq<char>),
    DivertTarget(Seq<char>),
    VariablePointer { varname: Seq<char>, context_index: i32 },
    Int(i64),
    Float(Seq<char>),
}

pub struct ContainerView {
    pub content: Seq<InkObjectView>,
    pub named: Seq<(Seq<char>, ContainerView)>,
    pub flags: u32,
    pub name: Option<Seq<char>>,
    pub visits: Option<i32>,
    pub turn_index: Option<i32>,
}

pub open spec fn opt_string_view(s: Option<String>) -> Option<Seq<char>> {
    match s {
        Some(x) => Some(x@),
        None => None,
    }
}

pub open spec fn obj_view(o: InkObject) -> InkObjectView
    decreases o,
{
    match o {
        InkObject::Container(c) => InkObjectView::Container(container_view(c)),
        InkObject::ControlCommand(c) => InkObjectView::ControlCommand(c),
        InkObject::NativeFuncCall(f) => InkObjectView::NativeFuncCall(f),
        InkObject::Divert(d) => InkObjectView::Divert(d@),
        InkObject::VariableAssignment(a) => InkObjectView::VariableAssignment(a@),
        InkObject::VariableReference(r) => InkObjectView::VariableReference(r@),
        InkObject::ChoicePoint(c) => InkObjectView::ChoicePoint(c@),
        InkObject::Tag(t) => InkObjectView::Tag(t.text@),
        InkObject::Void => InkObjectView::Void,
        InkObject::String(s) => InkObjectView::String(s@),
        InkObject::DivertTarget(p) => InkObjectView::DivertTarget(p@),
        InkObject::VariablePointer { varname, context_index } => InkObjectView::VariablePointer {
            varname: varname@,
            context_index,
        },
        InkObject::Int(n) => InkObjectView::Int(n),
        InkObject::Float(t) => InkObjectView::Float(t@),
    }
}

pub open spec fn objs_view(s: Seq<InkObject>) -> Seq<InkObjectView>
    decreases s,
{
    if s.len() == 0 {
        Seq::empty()
    } else {
        objs_view(s.drop_last()).push(obj_view(s.last()))
    }
}

pub open spec fn named_view(s: Seq<(String, Container)>) -> Seq<(Seq<char>, ContainerView)>
    decreases s,
{
    if s.len() == 0 {
        Seq::empty()
    } else {
        named_view(s.drop_last()).push((s.last().0@, container_view(s.last().1)))
    }
}

pub open spec fn container_view(c: Container) -> ContainerView
    decreases c,
{
    ContainerView {
        content: objs_view(c.content@),
        named: named_view(c.named@),
        flags: c.flags.bits(),
        name: opt_string_view(c.name),
        visits: c.visits,
        turn_index: c.turn_index,
    }
}

impl View for InkObject {
    type V = InkObjectView;

    open spec fn view(&self) -> InkObjectView {
        obj_view(*self)
    }
}

impl View for Container {
    type V = ContainerView;

    open spec fn view(&self) -> ContainerView {
        container_view(*self)
    }
}

pub proof fn lemma_objs_view_push(s: Seq<InkObject>, x: InkObject)
    ensures
        objs_view(s.push(x)) == objs_view(s).push(obj_view(x)),
{
    assert(s.push(x).drop_last() =~= s);
}

pub proof fn lemma_objs_view_len(s: Seq<InkObject>)
    ensures
        objs_view(s).len() == s.len(),
        forall|i: int| 0 <= i < s.len() ==> #[trigger] objs_view(s)[i] == obj_view(s[i]),
    decreases s.len(),
{
    if s.len() > 0 {
        lemma_objs_view_len(s.drop_last());
        assert forall|i: int| 0 <= i < s.len() - 1 implies s.drop_last()[i] == s[i] by {}
    }
}

pub proof fn lemma_named_view_push(s: Seq<(String, Container)>, x: (String, Container))
    ensures
        named_view(s.push(x)) == named_view(s).push((x.0@, container_view(x.1))),
{
    assert(s.push(x).drop_last() =~= s);
}

pub proof fn lemma_named_view_len(s: Seq<(String, Container)>)
    ensures
        named_view(s).len() == s.len(),
        forall|i: int| 0 <= i < s.len() ==> (#[trigger] named_view(s)[i]).0 == s[i].0@,
    decreases s.len(),
{
    if s.len() > 0 {
        lemma_named_view_len(s.drop_last());
    }
}

pub proof fn lemma_named_view_update(s: Seq<(String, Container)>, i: int, x: (String, Container))
    requires
        0 <= i < s.len(),
    ensures
        named_view(s.update(i, x)) == named_view(s).update(i, (x.0@, container_view(x.1))),
    decreases s.len(),
{
    lemma_named_view_len(s);
    lemma_named_view_len(s.update(i, x));
    if i == s.len() - 1 {
        assert(s.update(i, x).drop_last() =~= s.drop_last());
        assert(named_view(s.update(i, x)) =~= named_view(s).update(i, (x.0@, container_view(x.1))));
    } else {
        assert(s.update(i, x).drop_last() =~= s.drop_last().update(i, x));
        lemma_named_view_update(s.drop_last(), i, x);
        assert(named_view(s.update(i, x)) =~= named_view(s).update(i, (x.0@, container_view(x.1))));
    }
}

/// The first position of an entry under `key`, if any.
pub open spec fn find_key<V>(named: Seq<(Seq<char>, V)>, key: Seq<char>) -> Option<int>
    decreases named.len(),
{
    if named.len() == 0 {
        None
    } else {
        match find_key(named.drop_last(), key) {
            Some(i) => Some(i),
            None => if named.last().0 == key {
                Some(named.len() - 1)
            } else {
                None
            },
        }
    }
}

/// The map insert on named entries: the entry under `key` is replaced where
/// there is one, else the entry goes at the end.
pub open spec fn named_insert<V>(named: Seq<(Seq<char>, V)>, key: Seq<char>, value: V) -> Seq<
    (Seq<char>, V),
> {
    match find_key(named, key) {
        Some(i) => named.update(i, (key, value)),
        None => named.push((key, value)),
    }
}

/// What `find_key` finds: an entry under `key` with none before it, or no
/// entry under `key` at all.
pub proof fn lemma_find_key<V>(named: Seq<(Seq<char>, V)>, key: Seq<char>)
    ensures
        match find_key(named, key) {
            Some(i) => 0 <= i < named.len() && named[i].0 == key && forall|j: int|
                0 <= j < i ==> (#[trigger] named[j]).0 != key,
            None => forall|j: int| 0 <= j < named.len() ==> (#[trigger] named[j]).0 != key,
        },
    decreases named.len(),
{
    if named.len() > 0 {
        lemma_find_key(named.drop_last(), key);
        assert forall|j: int| 0 <= j < named.len() - 1 implies named.drop_last()[j] == named[j] by {}
    }
}

/// The entry under `key`, if any.
pub open spec fn entry_under<V>(named: Seq<(Seq<char>, V)>, key: Seq<char>) -> Option<V> {
    match find_key(named, key) {
        Some(i) => Some(named[i].1),
        None => None,
    }
}

/// Reading back a write: after inserting `value` under `key`, the entry
/// under `key` is `value`, and the entry under any other key is what it
/// was.
pub proof fn law_named_insert_read<V>(named: Seq<(Seq<char>, V)>, key: Seq<char>, value: V, other: Seq<char>)
    ensures
        entry_under(named_insert(named, key, value), key) == Some(value),
        other != key ==> entry_under(named_insert(named, key, value), other) == entry_under(named, other),
{
    lemma_find_key(named, key);
    lemma_find_key(named, other);
    let r = named_insert(named, key, value);
    lemma_find_key(r, key);
    lemma_find_key(r, other);
    match find_key(named, key) {
        Some(k) => {
            match find_key(r, key) {
                Some(j) => {
                    if j < k {
                        assert(r[j].0 == named[j].0);
                    } else if j > k {
                        assert(r[k].0 == key);
                    }
                },
                None => {
                    assert(r[k].0 == key);
                },
            }
            if other != key {
                match find_key(named, other) {
                    Some(o) => {
                        assert(r[o].0 == other);
                        match find_key(r, other) {
                            Some(j) => {
                                if j < o {
                                    assert(r[j].0 == named[j].0 || j == k);
                                } else if j > o {
                                    assert(r[o].0 == other);
                                }
                            },
                            None => {},
                        }
                    },
                    None => {
                        match find_key(r, other) {
                            Some(j) => {
                                assert(j != k);
                                assert(named[j].0 == other);
                            },
                            None => {},
                        }
                    },
                }
            }
        },
        None => {
            match find_key(r, key) {
                Some(j) => {
                    if j < named.len() {
                        assert(named[j].0 == key);
                    }
                },
                None => {
                    assert(r[named.len() as int].0 == key);
                },
            }
            if other != key {
                match find_key(named, other) {
                    Some(o) => {
                        assert(r[o].0 == other);
                        match find_key(r, other) {
                            Some(j) => {
                                if j < o {
                                    assert(named[j].0 == other);
                                } else if j > o {
                                    assert(r[o].0 == other);
                                }
                            },
                            None => {},
                        }
                    },
                    None => {
                        match find_key(r, other) {
                            Some(j) => {
                                if j < named.len() {
                                    assert(named[j].0 == other);
                                }
                            },
                            None => {},
                        }
                    },
                }
            }
        },
    }
}

/// Each key occurs once among named entries.
pub open spec fn unique_keys<V>(named: Seq<(Seq<char>, V)>) -> bool {
    forall|i: int, j: int|
        0 <= i < named.len() && 0 <= j < named.len() && i != j ==> (#[trigger] named[i]).0 != (
        #[trigger] named[j]).0
}

/// Names stay unique: inserting under a key into entries whose keys are
/// unique leaves every key unique.
pub proof fn law_named_insert_unique<V>(named: Seq<(Seq<char>, V)>, key: Seq<char>, value: V)
    requires
        unique_keys(named),
    ensures
        unique_keys(named_insert(named, key, value)),
{
    lemma_find_key(named, key);
    let r = named_insert(named, key, value);
    match find_key(named, key) {
        Some(k) => {
            assert forall|i: int, j: int|
                0 <= i < r.len() && 0 <= j < r.len() && i != j implies (#[trigger] r[i]).0 != (
                #[trigger] r[j]).0 by {
                if i == k {
                    assert(named[j].0 != named[k].0);
                } else if j == k {
                    assert(named[i].0 != named[k].0);
                } else {
                    assert(named[i].0 != named[j].0);
                }
            }
        },
        None => {
            assert forall|i: int, j: int|
                0 <= i < r.len() && 0 <= j < r.len() && i != j implies (#[trigger] r[i]).0 != (
                #[trigger] r[j]).0 by {
                if i < named.len() && j < named.len() {
                    assert(named[i].0 != named[j].0);
                }
            }
        },
    }
}

/// The position of the entry under `key`, if any.
fn find_named(named: &Vec<(String, Container)>, key: &str) -> (r: Option<usize>)
    ensures
        match r {
            Some(i) => find_key(named_view(named@), key@) == Some(i as int) && i < named@.len(),
            None => find_key(named_view(named@), key@) is None,
        },
{
    proof {
        lemma_named_view_len(named@);
        lemma_find_key(named_view(named@), key@);
    }
    let mut i: usize = 0;
    while i < named.len()
        invariant
            i <= named@.len(),
            named_view(named@).len() == named@.len(),
            forall|j: int| 0 <= j < named@.len() ==> (#[trigger] named_view(named@)[j]).0 == named@[j].0@,
            forall|j: int| 0 <= j < i ==> (#[trigger] named_view(named@)[j]).0 != key@,
            match find_key(named_view(named@), key@) {
                Some(k) => 0 <= k < named@.len() && named_view(named@)[k].0 == key@ && forall|j: int|
                    0 <= j < k ==> (#[trigger] named_view(named@)[j]).0 != key@,
                None => forall|j: int|
                    0 <= j < named@.len() ==> (#[trigger] named_view(named@)[j]).0 != key@,
            },
        decreases named.len() - i,
    {
        assert(named_view(named@)[i as int].0 == named@[i as int].0@);
        if str_equal(named[i].0.as_str(), key) {
            return Some(i);
        }
        i = i + 1;
    }
    None
}

/// Whether an entry is under `key`.
pub fn find_named_in(named: &Vec<(String, Container)>, key: &str) -> (r: bool)
    ensures
        r == (find_key(named_view(named@), key@) is Some),
{
    find_named(named, key).is_some()
}

impl InkObject {
    /// Returns true if this is a "truthy" value in ink (non-zero numbers, etc.)
    pub fn as_bool(&self) -> (r: bool)
        ensures
            r == obj_truthy(self@),
    {
        match self {
            InkObject::Int(n) => *n != 0,
            InkObject::Float(t) => has_nonzero_digit(t.as_str()),
            _ => false,
        }
    }
}

/// Whether a decimal literal has a digit other than zero, that is, whether
/// its value is non-zero.
pub open spec fn nonzero_literal(t: Seq<char>) -> bool {
    exists|i: int| 0 <= i < t.len() && '1' <= #[trigger] t[i] && t[i] <= '9'
}

/// Truthiness: a non-zero number.
pub open spec fn obj_truthy(o: InkObjectView) -> bool {
    match o {
        InkObjectView::Int(n) => n != 0,
        InkObjectView::Float(t) => nonzero_literal(t),
        _ => false,
    }
}

fn has_nonzero_digit(t: &str) -> (r: bool)
    ensures
        r == nonzero_literal(t@),
{
    let chars = crate::text::chars_of(t);
    let mut i: usize = 0;
    while i < chars.len()
        invariant
            chars@ == t@,
            i <= chars.len(),
            forall|j: int| 0 <= j < i ==> !('1' <= #[trigger] t@[j] && t@[j] <= '9'),
        decreases chars.len() - i,
    {
        if '1' <= chars[i] && chars[i] <= '9' {
            return true;
        }
        i = i + 1;
    }
    false
}

/// An empty container with no name and no flags.
pub open spec fn empty_container() -> ContainerView {
    ContainerView {
        content: Seq::empty(),
        named: Seq::empty(),
        flags: 0,
        name: None,
        visits: None,
        turn_index: None,
    }
}

impl Default for Container {
    fn default() -> (r: Self)
        ensures
            r@ == empty_container(),
    {
        Container::new()
    }
}

impl Container {
    pub fn new() -> (r: Self)
        ensures
            r@ == empty_container(),
    {
        let r = Container {
            content: Vec::new(),
            named: Vec::new(),
            flags: ContainerFlags::empty(),
            name: None,
            visits: None,
            turn_index: None,
        };
        assert(r@.content =~= Seq::<InkObjectView>::empty());
        assert(r@.named =~= Seq::<(Seq<char>, ContainerView)>::empty());
        r
    }

    /// Add content to this container.
    pub fn push(&mut self, obj: InkObject)
        ensures
            final(self)@ == (ContainerView { content: old(self)@.content.push(obj@), ..old(self)@ }),
    {
        let ghost before = self.content@;
        self.content.push(obj);
        proof {
            assert(self.content@ =~= before.push(self.content@.last()));
            lemma_objs_view_push(before, self.content@.last());
        }
    }

    /// Add a named sub-container, replacing the one of the same name.
    pub fn add_named(&mut self, name: &str, container: Container)
        ensures
            final(self)@ == (ContainerView {
                named: named_insert(old(self)@.named, name@, container@),
                ..old(self)@
            }),
    {
        let ghost before = self.named@;
        match find_named(&self.named, name) {
            Some(i) => {
                self.named.set(i, (String::from_str(name), container));
                proof {
                    lemma_named_view_update(before, i as int, self.named@[i as int]);
                    assert(self.named@ =~= before.update(i as int, self.named@[i as int]));
                }
            },
            None => {
                self.named.push((String::from_str(name), container));
                proof {
                    assert(self.named@ =~= before.push(self.named@.last()));
                    lemma_named_view_push(before, self.named@.last());
                }
            },
        }
    }

    /// Set the container's name.
    pub fn set_name(&mut self, name: &str)
        ensures
            final(self)@ == (ContainerView { name: Some(name@), ..old(self)@ }),
    {
        self.name = Some(String::from_str(name));
    }
}


// ---------------------------------------------------------------------------
// Cloning
// ---------------------------------------------------------------------------

/// A copy of a container, sub-containers included.
pub fn clone_container(c: &Container) -> (r: Container)
    ensures
        r@ == c@,
    decreases c,
{
    let mut content: Vec<InkObject> = Vec::new();
    let mut i: usize = 0;
    while i < c.content.len()
        invariant
            i <= c.content@.len(),
            objs_view(content@) == objs_view(c.content@.take(i as int)),
        decreases c.content.len() - i,
    {
        let ghost before = content@;
        let o = clone_object(&c.content[i]);
        content.push(o);
        proof {
            assert(content@ =~= before.push(content@.last()));
            lemma_objs_view_push(before, content@.last());
            assert(c.content@.take(i + 1) =~= c.content@.take(i as int).push(c.content@[i as int]));
            lemma_objs_view_push(c.content@.take(i as int), c.content@[i as int]);
        }
        i = i + 1;
    }
    let mut named: Vec<(String, Container)> = Vec::new();
    let mut j: usize = 0;
    while j < c.named.len()
        invariant
            j <= c.named@.len(),
            named_view(named@) == named_view(c.named@.take(j as int)),
        decreases c.named.len() - j,
    {
        let ghost before = named@;
        let sub = clone_container(&c.named[j].1);
        named.push((String::from_str(c.named[j].0.as_str()), sub));
        proof {
            assert(named@ =~= before.push(named@.last()));
            lemma_named_view_push(before, named@.last());
            assert(c.named@.take(j + 1) =~= c.named@.take(j as int).push(c.named@[j as int]));
            lemma_named_view_push(c.named@.take(j as int), c.named@[j as int]);
        }
        j = j + 1;
    }
    proof {
        assert(c.content@.take(i as int) =~= c.content@);
        assert(c.named@.take(j as int) =~= c.named@);
    }
    let name = match &c.name {
        Some(n) => Some(String::from_str(n.as_str())),
        None => None,
    };
    Container { content, named, flags: c.flags, name, visits: c.visits, turn_index: c.turn_index }
}

/// A copy of a runtime object.
pub fn clone_object(o: &InkObject) -> (r: InkObject)
    ensures
        r@ == o@,
    decreases o,
{
    match o {
        InkObject::Container(c) => InkObject::Container(clone_container(c)),
        InkObject::ControlCommand(c) => InkObject::ControlCommand(*c),
        InkObject::NativeFuncCall(f) => InkObject::NativeFuncCall(*f),
        InkObject::Divert(d) => InkObject::Divert(d.clone()),
        InkObject::VariableAssignment(a) => InkObject::VariableAssignment(a.clone()),
        InkObject::VariableReference(v) => InkObject::VariableReference(v.clone()),
        InkObject::ChoicePoint(c) => InkObject::ChoicePoint(c.clone()),
        InkObject::Tag(t) => InkObject::Tag(t.clone()),
        InkObject::Void => InkObject::Void,
        InkObject::String(s) => InkObject::String(String::from_str(s.as_str())),
        InkObject::DivertTarget(p) => InkObject::DivertTarget(String::from_str(p.as_str())),
        InkObject::VariablePointer { varname, context_index } => InkObject::VariablePointer {
            varname: String::from_str(varname.as_str()),
            context_index: *context_index,
        },
        InkObject::Int(n) => InkObject::Int(*n),
        InkObject::Float(t) => InkObject::Float(String::from_str(t.as_str())),
    }
}

impl Clone for Container {
    fn clone(&self) -> (r: Self)
        ensures
            r@ == self@,
    {
        clone_container(self)
    }
}

impl Clone for InkObject {
    fn clone(&self) -> (r: Self)
        ensures
            r@ == self@,
    {
        clone_object(self)
    }
}

fn clone_opt_string(s: &Option<String>) -> (r: Option<String>)
    ensures
        opt_string_view(r) == opt_string_view(*s),
{
    match s {
        Some(x) => Some(String::from_str(x.as_str())),
        None => None,
    }
}

// ---------------------------------------------------------------------------
// Container flags
// ---------------------------------------------------------------------------

/// Container flags (bitfield).
#[derive(Debug, Clone, Copy, PartialEq, Eq, Structural)]
pub struct ContainerFlags(u32);

impl ContainerFlags {
    pub const VISITS: u32 = 0x1;
    pub const TURNS: u32 = 0x2;
    pub const COUNT_START_ONLY: u32 = 0x4;

    /// The bits that are set.
    pub closed spec fn bits(self) -> u32 {
        self.0
    }

    pub fn empty() -> (r: Self)
        ensures
            r.bits() == 0,
    {
        ContainerFlags(0)
    }

    pub fn from_bits(bits: u32) -> (r: Self)
        ensures
            r.bits() == bits,
    {
        ContainerFlags(bits)
    }

    pub fn visits(self) -> (r: Self)
        ensures
            r.bits() == self.bits() | Self::VISITS,
    {
        ContainerFlags(self.0 | Self::VISITS)
    }

    pub fn turns(self) -> (r: Self)
        ensures
            r.bits() == self.bits() | Self::TURNS,
    {
        ContainerFlags(self.0 | Self::TURNS)
    }

    pub fn count_start_only(self) -> (r: Self)
        ensures
            r.bits() == self.bits() | Self::COUNT_START_ONLY,
    {
        ContainerFlags(self.0 | Self::COUNT_START_ONLY)
    }

    pub fn value(self) -> (r: u32)
        ensures
            r == self.bits(),
    {
        self.0
    }

    pub fn is_empty(self) -> (r: bool)
        ensures
            r == (self.bits() == 0),
    {
        self.0 == 0
    }
}

impl Default for ContainerFlags {
    fn default() -> (r: Self)
        ensures
            r.bits() == 0,
    {
        ContainerFlags(0)
    }
}

// ---------------------------------------------------------------------------
// Control commands
// ---------------------------------------------------------------------------

#[derive(Debug, Clone, Copy, PartialEq, Eq, Structural)]
pub enum ControlCommand {
    EvalStart,
    EvalEnd,
    Out,
    Pop,
    TunnelRet,
    FuncRet,
    Duplicate,
    StringEvalStart,
    StringEvalEnd,
    NoOp,
    ChoiceCount,
    Turn,
    Turns,
    Visit,
    Sequence,
    Thread,
    Done,
    End,
    StopThread,
}

/// The name a control command has in ink JSON.
pub open spec fn command_name(c: ControlCommand) -> Seq<char> {
    match c {
        ControlCommand::EvalStart => "ev"@,
        ControlCommand::EvalEnd => "/ev"@,
        ControlCommand::Out => "out"@,
        ControlCommand::Pop => "pop"@,
        ControlCommand::TunnelRet => "->->"@,
        ControlCommand::FuncRet => "~ret"@,
        ControlCommand::Duplicate => "du"@,
        ControlCommand::StringEvalStart => "str"@,
        ControlCommand::StringEvalEnd => "/str"@,
        ControlCommand::NoOp => "nop"@,
        ControlCommand::ChoiceCount => "choiceCnt"@,
        ControlCommand::Turn => "turn"@,
        ControlCommand::Turns => "turns"@,
        ControlCommand::Visit => "visit"@,
        ControlCommand::Sequence => "seq"@,
        ControlCommand::Thread => "thread"@,
        ControlCommand::Done => "done"@,
        ControlCommand::End => "end"@,
        ControlCommand::StopThread => "stopThread"@,
    }
}

impl ControlCommand {
    pub fn as_str(&self) -> (r: &'static str)
        ensures
            r@ == command_name(*self),
    {
        match self {
            ControlCommand::EvalStart => "ev",
            ControlCommand::EvalEnd => "/ev",
            ControlCommand::Out => "out",
            ControlCommand::Pop => "pop",
            ControlCommand::TunnelRet => "->->",
            ControlCommand::FuncRet => "~ret",
            ControlCommand::Duplicate => "du",
            ControlCommand::StringEvalStart => "str",
            ControlCommand::StringEvalEnd => "/str",
            ControlCommand::NoOp => "nop",
            ControlCommand::ChoiceCount => "choiceCnt",
            ControlCommand::Turn => "turn",
            ControlCommand::Turns => "turns",
            ControlCommand::Visit => "visit",
            ControlCommand::Sequence => "seq",
            ControlCommand::Thread => "thread",
            ControlCommand::Done => "done",
            ControlCommand::End => "end",
            ControlCommand::StopThread => "stopThread",
        }
    }
}

// ---------------------------------------------------------------------------
// Native function calls
// ---------------------------------------------------------------------------

#[derive(Debug, Clone, Copy, PartialEq, Eq, Structural)]
pub enum NativeFuncCall {
    Add,
    Subtract,
    Divide,
    Multiply,
    Modulo,
    Negate,
    Equal,
    Greater,
    Less,
    GreaterEq,
    LessEq,
    NotEqual,
    Not,
    And,
    Or,
    Min,
    Max,
}

/// The name a native function has in ink JSON.
pub open spec fn native_name(f: NativeFuncCall) -> Seq<char> {
    match f {
        NativeFuncCall::Add => "+"@,
        NativeFuncCall::Subtract => "-"@,
        NativeFuncCall::Divide => "/"@,
        NativeFuncCall::Multiply => "*"@,
        NativeFuncCall::Modulo => "%"@,
        NativeFuncCall::Negate => "_"@,
        NativeFuncCall::Equal => "=="@,
        NativeFuncCall::Greater => ">"@,
        NativeFuncCall::Less => "<"@,
        NativeFuncCall::GreaterEq => ">="@,
        NativeFuncCall::LessEq => "<="@,
        NativeFuncCall::NotEqual => "!="@,
        NativeFuncCall::Not => "!"@,
        NativeFuncCall::And => "&&"@,
        NativeFuncCall::Or => "||"@,
        NativeFuncCall::Min => "MIN"@,
        NativeFuncCall::Max => "MAX"@,
    }
}

/// The native function with a given name.
pub open spec fn native_named(s: Seq<char>) -> Option<NativeFuncCall> {
    if s == "+"@ {
        Some(NativeFuncCall::Add)
    } else if s == "-"@ {
        Some(NativeFuncCall::Subtract)
    } else if s == "/"@ {
        Some(NativeFuncCall::Divide)
    } else if s == "*"@ {
        Some(NativeFuncCall::Multiply)
    } else if s == "%"@ {
        Some(NativeFuncCall::Modulo)
    } else if s == "_"@ {
        Some(NativeFuncCall::Negate)
    } else if s == "=="@ {
        Some(NativeFuncCall::Equal)
    } else if s == ">"@ {
        Some(NativeFuncCall::Greater)
    } else if s == "<"@ {
        Some(NativeFuncCall::Less)
    } else if s == ">="@ {
        Some(NativeFuncCall::GreaterEq)
    } else if s == "<="@ {
        Some(NativeFuncCall::LessEq)
    } else if s == "!="@ {
        Some(NativeFuncCall::NotEqual)
    } else if s == "!"@ {
        Some(NativeFuncCall::Not)
    } else if s == "&&"@ {
        Some(NativeFuncCall::And)
    } else if s == "||"@ {
        Some(NativeFuncCall::Or)
    } else if s == "MIN"@ {
        Some(NativeFuncCall::Min)
    } else if s == "MAX"@ {
        Some(NativeFuncCall::Max)
    } else {
        None
    }
}

impl NativeFuncCall {
    pub fn as_str(&self) -> (r: &'static str)
        ensures
            r@ == native_name(*self),
    {
        match self {
            NativeFuncCall::Add => "+",
            NativeFuncCall::Subtract => "-",
            NativeFuncCall::Divide => "/",
            NativeFuncCall::Multiply => "*",
            NativeFuncCall::Modulo => "%",
            NativeFuncCall::Negate => "_",
            NativeFuncCall::Equal => "==",
            NativeFuncCall::Greater => ">",
            NativeFuncCall::Less => "<",
            NativeFuncCall::GreaterEq => ">=",
            NativeFuncCall::LessEq => "<=",
            NativeFuncCall::NotEqual => "!=",
            NativeFuncCall::Not => "!",
            NativeFuncCall::And => "&&",
            NativeFuncCall::Or => "||",
            NativeFuncCall::Min => "MIN",
            NativeFuncCall::Max => "MAX",
        }
    }

    pub fn from_str(s: &str) -> (r: Option<Self>)
        ensures
            r == native_named(s@),
    {
        if str_equal(s, "+") {
            Some(NativeFuncCall::Add)
        } else if str_equal(s, "-") {
            Some(NativeFuncCall::Subtract)
        } else if str_equal(s, "/") {
            Some(NativeFuncCall::Divide)
        } else if str_equal(s, "*") {
            Some(NativeFuncCall::Multiply)
        } else if str_equal(s, "%") {
            Some(NativeFuncCall::Modulo)
        } else if str_equal(s, "_") {
            Some(NativeFuncCall::Negate)
        } else if str_equal(s, "==") {
            Some(NativeFuncCall::Equal)
        } else if str_equal(s, ">") {
            Some(NativeFuncCall::Greater)
        } else if str_equal(s, "<") {
            Some(NativeFuncCall::Less)
        } else if str_equal(s, ">=") {
            Some(NativeFuncCall::GreaterEq)
        } else if str_equal(s, "<=") {
            Some(NativeFuncCall::LessEq)
        } else if str_equal(s, "!=") {
            Some(NativeFuncCall::NotEqual)
        } else if str_equal(s, "!") {
            Some(NativeFuncCall::Not)
        } else if str_equal(s, "&&") {
            Some(NativeFuncCall::And)
        } else if str_equal(s, "||") {
            Some(NativeFuncCall::Or)
        } else if str_equal(s, "MIN") {
            Some(NativeFuncCall::Min)
        } else if str_equal(s, "MAX") {
            Some(NativeFuncCall::Max)
        } else {
            None
        }
    }
}

/// Reading back the name of a native function gives the function again.
pub proof fn law_native_name_round_trip(f: NativeFuncCall)
    ensures
        native_named(native_name(f)) == Some(f),
{
    reveal_strlit("+");
    reveal_strlit("-");
    reveal_strlit("/");
    reveal_strlit("*");
    reveal_strlit("%");
    reveal_strlit("_");
    reveal_strlit("==");
    reveal_strlit(">");
    reveal_strlit("<");
    reveal_strlit(">=");
    reveal_strlit("<=");
    reveal_strlit("!=");
    reveal_strlit("!");
    reveal_strlit("&&");
    reveal_strlit("||");
    reveal_strlit("MIN");
    reveal_strlit("MAX");
    match f {
        NativeFuncCall::Add => {
            assert("+"@.len() == 1);
            assert(native_name(f) == "+"@);
            assert(native_named("+"@) == Some(NativeFuncCall::Add));
            assert(native_named(native_name(f)) == Some(f));
        },
        NativeFuncCall::Subtract => {
            assert("-"@.len() == 1);
            assert("-"@[0] != "+"@[0]);
            assert(native_named(native_name(f)) == Some(f));
        },
        NativeFuncCall::Divide => {
            assert("/"@.len() == 1);
            assert("/"@[0] != "+"@[0]);
            assert("/"@[0] != "-"@[0]);
            assert(native_named(native_name(f)) == Some(f));
        },
        NativeFuncCall::Multiply => {
            assert("*"@.len() == 1);
            assert("*"@[0] != "+"@[0]);
            assert("*"@[0] != "-"@[0]);
            assert("*"@[0] != "/"@[0]);
            assert(native_named(native_name(f)) == Some(f));
        },
        NativeFuncCall::Modulo => {
            assert("%"@.len() == 1);
            assert("%"@[0] != "+"@[0]);
            assert("%"@[0] != "-"@[0]);
            assert("%"@[0] != "/"@[0]);
            assert("%"@[0] != "*"@[0]);
            assert(native_named(native_name(f)) == Some(f));
        },
        NativeFuncCall::Negate => {
            assert("_"@.len() == 1);
            assert("_"@[0] != "+"@[0]);
            assert("_"@[0] != "-"@[0]);
            assert("_"@[0] != "/"@[0]);
            assert("_"@[0] != "*"@[0]);
            assert("_"@[0] != "%"@[0]);
            assert(native_named(native_name(f)) == Some(f));
        },
        NativeFuncCall::Equal => {
            assert("=="@.len() == 2);

            assert(native_named(native_name(f)) == Some(f));
        },
        NativeFuncCall::Greater => {
            assert(">"@.len() == 1);
            assert(">"@[0] != "+"@[0]);
            assert(">"@[0] != "-"@[0]);
            assert(">"@[0] != "/"@[0]);
            assert(">"@[0] != "*"@[0]);
            assert(">"@[0] != "%"@[0]);
            assert(">"@[0] != "_"@[0]);
            assert(native_named(native_name(f)) == Some(f));
        },
        NativeFuncCall::Less => {
            assert("<"@.len() == 1);
            assert("<"@[0] != "+"@[0]);
            assert("<"@[0] != "-"@[0]);
            assert("<"@[0] != "/"@[0]);
            assert("<"@[0] != "*"@[0]);
            assert("<"@[0] != "%"@[0]);
            assert("<"@[0] != "_"@[0]);
            assert("<"@[0] != ">"@[0]);
            assert(native_named(native_name(f)) == Some(f));
        },
        NativeFuncCall::GreaterEq => {
            assert(">="@.len() == 2);
            assert(">="@[0] != "=="@[0]);
            assert(native_named(native_name(f)) == Some(f));
        },
        NativeFuncCall::LessEq => {
            assert("<="@.len() == 2);
            assert("<="@[0] != "=="@[0]);
            assert("<="@[0] != ">="@[0]);
            assert(native_named(native_name(f)) == Some(f));
        },
        NativeFuncCall::NotEqual => {
            assert("!="@.len() == 2);
            assert("!="@[0] != "=="@[0]);
            assert("!="@[0] != ">="@[0]);
            assert("!="@[0] != "<="@[0]);
            assert(native_named(native_name(f)) == Some(f));
        },
        NativeFuncCall::Not => {
            assert("!"@.len() == 1);
            assert("!"@[0] != "+"@[0]);
            assert("!"@[0] != "-"@[0]);
            assert("!"@[0] != "/"@[0]);
            assert("!"@[0] != "*"@[0]);
            assert("!"@[0] != "%"@[0]);
            assert("!"@[0] != "_"@[0]);
            assert("!"@[0] != ">"@[0]);
            assert("!"@[0] != "<"@[0]);
            assert(native_named(native_name(f)) == Some(f));
        },
        NativeFuncCall::And => {
            assert("&&"@.len() == 2);
            assert("&&"@[0] != "=="@[0]);
            assert("&&"@[0] != ">="@[0]);
            assert("&&"@[0] != "<="@[0]);
            assert("&&"@[0] != "!="@[0]);
            assert(native_named(native_name(f)) == Some(f));
        },
        NativeFuncCall::Or => {
            assert("||"@.len() == 2);
            assert("||"@[0] != "=="@[0]);
            assert("||"@[0] != ">="@[0]);
            assert("||"@[0] != "<="@[0]);
            assert("||"@[0] != "!="@[0]);
            assert("||"@[0] != "&&"@[0]);
            assert(native_named(native_name(f)) == Some(f));
        },
        NativeFuncCall::Min => {
            assert("MIN"@.len() == 3);

            assert(native_named(native_name(f)) == Some(f));
        },
        NativeFuncCall::Max => {
            assert("MAX"@.len() == 3);
            assert("MAX"@[1] != "MIN"@[1]);
            assert(native_named(native_name(f)) == Some(f));
        },
    }
}

// ---------------------------------------------------------------------------
// Divert
// ---------------------------------------------------------------------------

#[derive(Debug)]
pub struct Divert {
    /// Target path (e.g., "knot.stitch").
    pub target: Option<String>,
    /// If true, target is a variable containing a divert target.
    pub is_variable: bool,
    /// If true, this is a function call (pushes to callstack).
    pub is_function_call: bool,
    /// If true, this is a tunnel call.
    pub is_tunnel: bool,
    /// If true, this is an external function call.
    pub is_external: bool,
    /// For external calls, the number of arguments.
    pub external_args: Option<i32>,
    /// If true, divert is conditional (pops from stack).
    pub is_conditional: bool,
    /// If true, divert target can be a stitch within the current knot.
    pub stitches_also: bool,
}

pub struct DivertView {
    pub target: Option<Seq<char>>,
    pub is_variable: bool,
    pub is_function_call: bool,
    pub is_tunnel: bool,
    pub is_external: bool,
    pub external_args: Option<i32>,
    pub is_conditional: bool,
    pub stitches_also: bool,
}

impl View for Divert {
    type V = DivertView;

    open spec fn view(&self) -> DivertView {
        DivertView {
            target: opt_string_view(self.target),
            is_variable: self.is_variable,
            is_function_call: self.is_function_call,
            is_tunnel: self.is_tunnel,
            is_external: self.is_external,
            external_args: self.external_args,
            is_conditional: self.is_conditional,
            stitches_also: self.stitches_also,
        }
    }
}

/// A divert with no target and no flag set.
pub open spec fn plain_divert() -> DivertView {
    DivertView {
        target: None,
        is_variable: false,
        is_function_call: false,
        is_tunnel: false,
        is_external: false,
        external_args: None,
        is_conditional: false,
        stitches_also: false,
    }
}

impl Default for Divert {
    fn default() -> (r: Self)
        ensures
            r@ == plain_divert(),
    {
        Divert {
            target: None,
            is_variable: false,
            is_function_call: false,
            is_tunnel: false,
            is_external: false,
            external_args: None,
            is_conditional: false,
            stitches_also: false,
        }
    }
}

impl Clone for Divert {
    fn clone(&self) -> (r: Self)
        ensures
            r@ == self@,
    {
        Divert { target: clone_opt_string(&self.target), ..*self }
    }
}

impl Divert {
    /// Create a standard divert to a target path.
    pub fn new(target: &str) -> (r: Self)
        ensures
            r@ == (DivertView { target: Some(target@), ..plain_divert() }),
    {
        Divert { target: Some(String::from_str(target)), ..Default::default() }
    }

    /// Create a divert to a variable.
    pub fn to_variable(varname: &str) -> (r: Self)
        ensures
            r@ == (DivertView { target: Some(varname@), is_variable: true, ..plain_divert() }),
    {
        Divert { target: Some(String::from_str(varname)), is_variable: true, ..Default::default() }
    }

    /// Create a function call divert.
    pub fn function(target: &str) -> (r: Self)
        ensures
            r@ == (DivertView { target: Some(target@), is_function_call: true, ..plain_divert() }),
    {
        Divert { target: Some(String::from_str(target)), is_function_call: true, ..Default::default() }
    }

    /// Create a tunnel divert.
    pub fn tunnel(target: &str) -> (r: Self)
        ensures
            r@ == (DivertView { target: Some(target@), is_tunnel: true, ..plain_divert() }),
    {
        Divert { target: Some(String::from_str(target)), is_tunnel: true, ..Default::default() }
    }

    /// Create an external function call.
    pub fn external(name: &str, args: i32) -> (r: Self)
        ensures
            r@ == (DivertView {
                target: Some(name@),
                is_external: true,
                external_args: Some(args),
                is_function_call: true,
                ..plain_divert()
            }),
    {
        Divert {
            target: Some(String::from_str(name)),
            is_external: true,
            external_args: Some(args),
            is_function_call: true,
            ..Default::default()
        }
    }

    /// Mark this as a tunnel onwards (used for ->->).
    pub fn tunnel_onwards() -> (r: Self)
        ensures
            r@ == (DivertView { is_tunnel: true, ..plain_divert() }),
    {
        Divert { is_tunnel: true, ..Default::default() }
    }
}

// ---------------------------------------------------------------------------
// Variables
// ---------------------------------------------------------------------------

#[derive(Debug)]
pub struct VariableAssignment {
    pub varname: String,
    /// true for VAR= (reassignment), false for temp= (new temp).
    pub is_global: bool,
    /// For temp variables in functions.
    pub context_index: i32,
}

pub struct VariableAssignmentView {
    pub varname: Seq<char>,
    pub is_global: bool,
    pub context_index: i32,
}

impl View for VariableAssignment {
    type V = VariableAssignmentView;

    open spec fn view(&self) -> VariableAssignmentView {
        VariableAssignmentView {
            varname: self.varname@,
            is_global: self.is_global,
            context_index: self.context_index,
        }
    }
}

impl Clone for VariableAssignment {
    fn clone(&self) -> (r: Self)
        ensures
            r@ == self@,
    {
        VariableAssignment { varname: String::from_str(self.varname.as_str()), ..*self }
    }
}

impl VariableAssignment {
    pub fn global(name: &str, _reassign: bool) -> (r: Self)
        ensures
            r@ == (VariableAssignmentView { varname: name@, is_global: true, context_index: 0 }),
    {
        VariableAssignment { varname: String::from_str(name), is_global: true, context_index: 0 }
    }

    pub fn temp(name: &str) -> (r: Self)
        ensures
            r@ == (VariableAssignmentView { varname: name@, is_global: false, context_index: -1i32 }),
    {
        VariableAssignment { varname: String::from_str(name), is_global: false, context_index: -1 }
    }
}

#[derive(Debug)]
pub struct VariableReference {
    pub varname: String,
    /// Context index: -1 = unknown, 0 = global, >0 = local.
    pub context_index: i32,
    /// If true, this is a read-count reference (CNT?).
    pub is_read_count: bool,
}

pub struct VariableReferenceView {
    pub varname: Seq<char>,
    pub context_index: i32,
    pub is_read_count: bool,
}

impl View for VariableReference {
    type V = VariableReferenceView;

    open spec fn view(&self) -> VariableReferenceView {
        VariableReferenceView {
            varname: self.varname@,
            context_index: self.context_index,
            is_read_count: self.is_read_count,
        }
    }
}

impl Clone for VariableReference {
    fn clone(&self) -> (r: Self)
        ensures
            r@ == self@,
    {
        VariableReference { varname: String::from_str(self.varname.as_str()), ..*self }
    }
}

impl VariableReference {
    pub fn new(varname: &str) -> (r: Self)
        ensures
            r@ == (VariableReferenceView { varname: varname@, context_index: -1i32, is_read_count: false }),
    {
        VariableReference { varname: String::from_str(varname), context_index: -1, is_read_count: false }
    }

    pub fn read_count(path: &str) -> (r: Self)
        ensures
            r@ == (VariableReferenceView { varname: path@, context_index: -1i32, is_read_count: true }),
    {
        VariableReference { varname: String::from_str(path), context_index: -1, is_read_count: true }
    }
}

// ---------------------------------------------------------------------------
// Choice points
// ---------------------------------------------------------------------------

/// Choice point flags (a bitfield, as ink JSON numbers them).
#[derive(Debug, Clone, Copy, PartialEq, Eq, Structural)]
pub struct ChoiceFlags(u32);

impl ChoiceFlags {
    pub const EMPTY: u32 = 0;
    pub const HAS_CONDITION: u32 = 0x1;
    pub const HAS_START_CONTENT: u32 = 0x2;
    pub const HAS_CHOICE_ONLY_CONTENT: u32 = 0x4;
    pub const IS_INVISIBLE_DEFAULT: u32 = 0x8;
    pub const ONCE_ONLY: u32 = 0x10;
    pub const HAS_DYNAMIC_CONTENT: u32 = 0x20;
    pub const TURNS_SINCE_CHOICE: u32 = 0x40;
    pub const HAS_TEXT: u32 = 0x80;
    pub const HAS_INCREMENTAL_COUNT: u32 = 0x100;

    /// The bits that are set.
    pub closed spec fn bits(self) -> u32 {
        self.0
    }

    pub fn from_bits(bits: u32) -> (r: Self)
        ensures
            r.bits() == bits,
    {
        ChoiceFlags(bits)
    }

    pub fn value(self) -> (r: u32)
        ensures
            r == self.bits(),
    {
        self.0
    }

    pub fn has_condition(self) -> (r: Self)
        ensures
            r.bits() == self.bits() | Self::HAS_CONDITION,
    {
        ChoiceFlags(self.0 | Self::HAS_CONDITION)
    }

    pub fn has_start_content(self) -> (r: Self)
        ensures
            r.bits() == self.bits() | Self::HAS_START_CONTENT,
    {
        ChoiceFlags(self.0 | Self::HAS_START_CONTENT)
    }

    pub fn has_choice_only_content(self) -> (r: Self)
        ensures
            r.bits() == self.bits() | Self::HAS_CHOICE_ONLY_CONTENT,
    {
        ChoiceFlags(self.0 | Self::HAS_CHOICE_ONLY_CONTENT)
    }

    pub fn is_invisible_default(self) -> (r: Self)
        ensures
            r.bits() == self.bits() | Self::IS_INVISIBLE_DEFAULT,
    {
        ChoiceFlags(self.0 | Self::IS_INVISIBLE_DEFAULT)
    }

    pub fn once_only(self) -> (r: Self)
        ensures
            r.bits() == self.bits() | Self::ONCE_ONLY,
    {
        ChoiceFlags(self.0 | Self::ONCE_ONLY)
    }

    pub fn has_dynamic_content(self) -> (r: Self)
        ensures
            r.bits() == self.bits() | Self::HAS_DYNAMIC_CONTENT,
    {
        ChoiceFlags(self.0 | Self::HAS_DYNAMIC_CONTENT)
    }
}

impl Default for ChoiceFlags {
    /// Choices are once-only unless marked otherwise.
    fn default() -> (r: Self)
        ensures
            r.bits() == Self::ONCE_ONLY,
    {
        ChoiceFlags(Self::ONCE_ONLY)
    }
}

#[derive(Debug)]
pub struct ChoicePoint {
    /// Path to the container that runs when this choice is chosen.
    pub target_path: String,
    /// Flags for conditional/start content/choice-only content.
    pub flags: ChoiceFlags,
    /// Path for start content (choice text before []).
    pub start_content_path: Option<String>,
    /// Path for choice-only content (content inside []).
    pub choice_only_content_path: Option<String>,
    /// For once-only choices, the original choice text for comparison.
    pub original_text_hash: Option<i32>,
}

pub struct ChoicePointView {
    pub target_path: Seq<char>,
    pub flags: u32,
    pub start_content_path: Option<Seq<char>>,
    pub choice_only_content_path: Option<Seq<char>>,
    pub original_text_hash: Option<i32>,
}

impl View for ChoicePoint {
    type V = ChoicePointView;

    open spec fn view(&self) -> ChoicePointView {
        ChoicePointView {
            target_path: self.target_path@,
            flags: self.flags.bits(),
            start_content_path: opt_string_view(self.start_content_path),
            choice_only_content_path: opt_string_view(self.choice_only_content_path),
            original_text_hash: self.original_text_hash,
        }
    }
}

impl Clone for ChoicePoint {
    fn clone(&self) -> (r: Self)
        ensures
            r@ == self@,
    {
        ChoicePoint {
            target_path: String::from_str(self.target_path.as_str()),
            flags: self.flags,
            start_content_path: clone_opt_string(&self.start_content_path),
            choice_only_content_path: clone_opt_string(&self.choice_only_content_path),
            original_text_hash: self.original_text_hash,
        }
    }
}

impl ChoicePoint {
    pub fn new(target: &str) -> (r: Self)
        ensures
            r@ == (ChoicePointView {
                target_path: target@,
                flags: ChoiceFlags::ONCE_ONLY,
                start_content_path: None,
                choice_only_content_path: None,
                original_text_hash: None,
            }),
    {
        ChoicePoint {
            target_path: String::from_str(target),
            flags: ChoiceFlags::default(),
            start_content_path: None,
            choice_only_content_path: None,
            original_text_hash: None,
        }
    }

    pub fn has_condition(self) -> (r: Self)
        ensures
            r@ == (ChoicePointView { flags: self@.flags | ChoiceFlags::HAS_CONDITION, ..self@ }),
    {
        let mut s = self;
        s.flags = s.flags.has_condition();
        s
    }

    pub fn has_start_content(self) -> (r: Self)
        ensures
            r@ == (ChoicePointView { flags: self@.flags | ChoiceFlags::HAS_START_CONTENT, ..self@ }),
    {
        let mut s = self;
        s.flags = s.flags.has_start_content();
        s
    }

    pub fn has_choice_only_content(self) -> (r: Self)
        ensures
            r@ == (ChoicePointView {
                flags: self@.flags | ChoiceFlags::HAS_CHOICE_ONLY_CONTENT,
                ..self@
            }),
    {
        let mut s = self;
        s.flags = s.flags.has_choice_only_content();
        s
    }

    pub fn is_invisible_default(self) -> (r: Self)
        ensures
            r@ == (ChoicePointView {
                flags: self@.flags | ChoiceFlags::IS_INVISIBLE_DEFAULT,
                ..self@
            }),
    {
        let mut s = self;
        s.flags = s.flags.is_invisible_default();
        s
    }
}

// ---------------------------------------------------------------------------
// Tags and lists
// ---------------------------------------------------------------------------

#[derive(Debug)]
pub struct Tag {
    pub text: String,
}

impl Clone for Tag {
    fn clone(&self) -> (r: Self)
        ensures
            r.text@ == self.text@,
    {
        Tag { text: String::from_str(self.text.as_str()) }
    }
}

impl Tag {
    pub fn new(text: &str) -> (r: Self)
        ensures
            r.text@ == text@,
    {
        Tag { text: String::from_str(text) }
    }
}

#[derive(Debug)]
pub struct ListDefinition {
    pub name: String,
    pub items: Vec<ListItem>,
}

#[derive(Debug)]
pub struct ListItem {
    pub name: String,
    pub value: i32,
}

pub struct ListDefinitionView {
    pub name: Seq<char>,
    pub items: Seq<(Seq<char>, i32)>,
}

impl View for ListDefinition {
    type V = ListDefinitionView;

    open spec fn view(&self) -> ListDefinitionView {
        ListDefinitionView {
            name: self.name@,
            items: self.items@.map_values(|i: ListItem| (i.name@, i.value)),
        }
    }
}

// ---------------------------------------------------------------------------
// Story
// ---------------------------------------------------------------------------

/// The compiled ink story, ready for serialization to JSON.
#[derive(Debug)]
pub struct Story {
    /// Runtime version (currently 21).
    pub ink_version: i32,
    /// Root container containing the entire story.
    pub root: Container,
    /// Global variable declarations (initial values).
    pub variables: Vec<VariableAssignment>,
    /// List declarations.
    pub lists: Vec<ListDefinition>,
    /// Named knots (for quick lookup during compilation); not serialized.
    pub knot_map: Vec<(String, Container)>,
}

pub struct StoryView {
    pub ink_version: i32,
    pub root: ContainerView,
    pub variables: Seq<VariableAssignmentView>,
    pub lists: Seq<ListDefinitionView>,
    pub knot_map: Seq<(Seq<char>, ContainerView)>,
}

impl View for Story {
    type V = StoryView;

    open spec fn view(&self) -> StoryView {
        StoryView {
            ink_version: self.ink_version,
            root: self.root@,
            variables: self.variables@.map_values(|v: VariableAssignment| v@),
            lists: self.lists@.map_values(|l: ListDefinition| l@),
            knot_map: named_view(self.knot_map@),
        }
    }
}

/// A story of ink version 21 with nothing in it.
pub open spec fn empty_story() -> StoryView {
    StoryView {
        ink_version: 21,
        root: empty_container(),
        variables: Seq::empty(),
        lists: Seq::empty(),
        knot_map: Seq::empty(),
    }
}

impl Default for Story {
    fn default() -> (r: Self)
        ensures
            r@ == empty_story(),
    {
        let r = Story {
            ink_version: 21,
            root: Container::new(),
            variables: Vec::new(),
            lists: Vec::new(),
            knot_map: Vec::new(),
        };
        assert(r@.variables =~= Seq::<VariableAssignmentView>::empty());
        assert(r@.lists =~= Seq::<ListDefinitionView>::empty());
        assert(r@.knot_map =~= Seq::<(Seq<char>, ContainerView)>::empty());
        r
    }
}

/// The story with a knot added under its name with spaces made
/// underscores, as a named sub-container of the root and in the knot map.
pub open spec fn story_add_knot(s: StoryView, name: Seq<char>, c: ContainerView) -> StoryView {
    StoryView {
        root: ContainerView { named: named_insert(s.root.named, underscored(name), c), ..s.root },
        knot_map: named_insert(s.knot_map, underscored(name), c),
        ..s
    }
}

impl Story {
    pub fn new() -> (r: Self)
        ensures
            r@ == empty_story(),
    {
        Story::default()
    }

    /// Add a knot as a named sub-container of the root.
    pub fn add_knot(&mut self, name: &str, container: Container)
        ensures
            final(self)@ == story_add_knot(old(self)@, name@, container@),
    {
        let name_for_map = normalize_name(name);
        let copy = clone_container(&container);
        let ghost before = self.knot_map@;
        match find_named(&self.knot_map, name_for_map.as_str()) {
            Some(i) => {
                self.knot_map.set(i, (String::from_str(name_for_map.as_str()), copy));
                proof {
                    lemma_named_view_update(before, i as int, self.knot_map@[i as int]);
                    assert(self.knot_map@ =~= before.update(i as int, self.knot_map@[i as int]));
                }
            },
            None => {
                self.knot_map.push((String::from_str(name_for_map.as_str()), copy));
                proof {
                    assert(self.knot_map@ =~= before.push(self.knot_map@.last()));
                    lemma_named_view_push(before, self.knot_map@.last());
                }
            },
        }
        self.root.add_named(name_for_map.as_str(), container);
    }

    /// Add a global variable.
    pub fn add_variable(&mut self, varname: &str)
        ensures
            final(self)@ == (StoryView {
                variables: old(self)@.variables.push(
                    VariableAssignmentView { varname: varname@, is_global: true, context_index: 0 },
                ),
                ..old(self)@
            }),
    {
        self.variables.push(VariableAssignment::global(varname, false));
        assert(self@.variables =~= old(self)@.variables.push(
            VariableAssignmentView { varname: varname@, is_global: true, context_index: 0 },
        ));
    }

    /// Add a list declaration.
    pub fn add_list(&mut self, list: ListDefinition)
        ensures
            final(self)@ == (StoryView { lists: old(self)@.lists.push(list@), ..old(self)@ }),
    {
        self.lists.push(list);
        assert(self@.lists =~= old(self)@.lists.push(list@));
    }
}

} // verus!
