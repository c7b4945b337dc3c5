//! The syntax model: what a derivation reads of a declaration, and what it
//! hands back.
//!
//! Names, annotation arguments, parameters and bounds are held in the open.
//! Everything else of a declaration travels in a `source` text that no
//! function of this crate inspects.

use vstd::prelude::*;

verus! {

/// The views of the elements of a sequence, in order.
pub open spec fn views<T: View>(s: Seq<T>) -> Seq<T::V> {
    s.map_values(|x: T| x@)
}

/// The view of an optional text.
pub open spec fn text_view(o: Option<String>) -> Option<Seq<char>> {
    match o {
        Some(s) => Some(s@),
        None => None,
    }
}

/// A value that can be copied in depth: the copy has the same view.
pub trait Duplicate: View + Sized {
    fn duplicate(&self) -> (copy: Self)
        ensures
            copy@ == self@,
    ;
}

impl Duplicate for String {
    fn duplicate(&self) -> (copy: String) {
        self.clone()
    }
}

/// Copies a list element by element.
pub fn duplicate_all<T: Duplicate>(list: &Vec<T>) -> (copy: Vec<T>)
    ensures
        views(copy@) == views(list@),
{
    let mut copy: Vec<T> = Vec::new();
    let mut i: usize = 0;
    while i < list.len()
        invariant
            i <= list.len(),
            copy.len() == i,
            forall|k: int| 0 <= k < i ==> copy[k]@ == list[k]@,
        decreases list.len() - i,
    {
        copy.push(list[i].duplicate());
        i += 1;
    }
    assert(views(copy@) =~= views(list@));
    copy
}

/// A value that can be compared in depth: two values are the same where
/// their views are equal.
pub trait Same: View + Sized {
    fn same(&self, other: &Self) -> (equal: bool)
        ensures
            equal == (self@ == other@),
    ;
}

impl Same for String {
    fn same(&self, other: &String) -> (equal: bool) {
        *self == *other
    }
}

/// Compares two lists element by element.
pub fn same_all<T: Same>(left: &Vec<T>, right: &Vec<T>) -> (equal: bool)
    ensures
        equal == (views(left@) == views(right@)),
{
    if left.len() != right.len() {
        assert(views(left@).len() != views(right@).len());
        return false;
    }
    let mut i: usize = 0;
    while i < left.len()
        invariant
            i <= left.len(),
            left.len() == right.len(),
            forall|k: int| 0 <= k < i ==> left[k]@ == right[k]@,
        decreases left.len() - i,
    {
        if !left[i].same(&right[i]) {
            assert(views(left@)[i as int] != views(right@)[i as int]);
            return false;
        }
        i += 1;
    }
    assert(views(left@) =~= views(right@));
    true
}

/// Whether a text is exactly the given word.
pub fn is_word(text: &String, word: &str) -> (same: bool)
    ensures
        same == (text@ == word@),
{
    let other = word.to_owned();
    *text == other
}

/// One argument between the parentheses of an annotation.
#[derive(Clone, Debug, PartialEq, Eq)]
pub enum MetaArg {
    /// A bare word, such as `meta`.
    Word(String),
    /// A key and the contents of the string literal given to it, such as
    /// `name = "balance"`.
    NameValue(String, String),
    /// Any other argument, as text.
    Verbatim(String),
}

pub enum MetaArgView {
    Word(Seq<char>),
    NameValue(Seq<char>, Seq<char>),
    Verbatim(Seq<char>),
}

impl View for MetaArg {
    type V = MetaArgView;

    open spec fn view(&self) -> MetaArgView {
        match *self {
            MetaArg::Word(w) => MetaArgView::Word(w@),
            MetaArg::NameValue(k, v) => MetaArgView::NameValue(k@, v@),
            MetaArg::Verbatim(t) => MetaArgView::Verbatim(t@),
        }
    }
}

impl Duplicate for MetaArg {
    fn duplicate(&self) -> (copy: MetaArg) {
        match self {
            MetaArg::Word(w) => MetaArg::Word(w.duplicate()),
            MetaArg::NameValue(k, v) => MetaArg::NameValue(k.duplicate(), v.duplicate()),
            MetaArg::Verbatim(t) => MetaArg::Verbatim(t.duplicate()),
        }
    }
}

impl Same for MetaArg {
    fn same(&self, other: &MetaArg) -> (equal: bool) {
        match (self, other) {
            (MetaArg::Word(a), MetaArg::Word(b)) => a.same(b),
            (MetaArg::NameValue(a, x), MetaArg::NameValue(b, y)) => a.same(b) && x.same(y),
            (MetaArg::Verbatim(a), MetaArg::Verbatim(b)) => a.same(b),
            _ => false,
        }
    }
}

/// What follows the path of an annotation.
#[derive(Clone, Debug, PartialEq, Eq)]
pub enum AttrArgs {
    /// Nothing: `#[rpc]`.
    Empty,
    /// A parenthesised list: `#[rpc(meta, name = "balance")]`.
    List(Vec<MetaArg>),
    /// Anything else, as text.
    Verbatim(String),
}

pub enum AttrArgsView {
    Empty,
    List(Seq<MetaArgView>),
    Verbatim(Seq<char>),
}

impl View for AttrArgs {
    type V = AttrArgsView;

    open spec fn view(&self) -> AttrArgsView {
        match *self {
            AttrArgs::Empty => AttrArgsView::Empty,
            AttrArgs::List(l) => AttrArgsView::List(views(l@)),
            AttrArgs::Verbatim(t) => AttrArgsView::Verbatim(t@),
        }
    }
}

impl Duplicate for AttrArgs {
    fn duplicate(&self) -> (copy: AttrArgs) {
        match self {
            AttrArgs::Empty => AttrArgs::Empty,
            AttrArgs::List(l) => AttrArgs::List(duplicate_all(l)),
            AttrArgs::Verbatim(t) => AttrArgs::Verbatim(t.duplicate()),
        }
    }
}

impl Same for AttrArgs {
    fn same(&self, other: &AttrArgs) -> (equal: bool) {
        match (self, other) {
            (AttrArgs::Empty, AttrArgs::Empty) => true,
            (AttrArgs::List(a), AttrArgs::List(b)) => same_all(a, b),
            (AttrArgs::Verbatim(a), AttrArgs::Verbatim(b)) => a.same(b),
            _ => false,
        }
    }
}

/// One annotation of a procedure.
#[derive(Clone, Debug, PartialEq, Eq)]
pub struct Attribute {
    /// The path that names the annotation, such as `rpc` or `doc`.
    pub path: String,
    pub args: AttrArgs,
}

pub struct AttributeView {
    pub path: Seq<char>,
    pub args: AttrArgsView,
}

impl View for Attribute {
    type V = AttributeView;

    open spec fn view(&self) -> AttributeView {
        AttributeView { path: self.path@, args: self.args@ }
    }
}

impl Duplicate for Attribute {
    fn duplicate(&self) -> (copy: Attribute) {
        Attribute { path: self.path.duplicate(), args: self.args.duplicate() }
    }
}

impl Same for Attribute {
    fn same(&self, other: &Attribute) -> (equal: bool) {
        self.path.same(&other.path) && self.args.same(&other.args)
    }
}

/// One typed parameter of a procedure: its name and its declared type.
#[derive(Clone, Debug, PartialEq, Eq)]
pub struct Param {
    pub name: String,
    pub ty: String,
}

pub struct ParamView {
    pub name: Seq<char>,
    pub ty: Seq<char>,
}

impl View for Param {
    type V = ParamView;

    open spec fn view(&self) -> ParamView {
        ParamView { name: self.name@, ty: self.ty@ }
    }
}

impl Duplicate for Param {
    fn duplicate(&self) -> (copy: Param) {
        Param { name: self.name.duplicate(), ty: self.ty.duplicate() }
    }
}

impl Same for Param {
    fn same(&self, other: &Param) -> (equal: bool) {
        self.name.same(&other.name) && self.ty.same(&other.ty)
    }
}

/// A procedure declaration of an interface.
#[derive(Clone, Debug, PartialEq, Eq)]
pub struct Method {
    pub attrs: Vec<Attribute>,
    pub name: String,
    /// The typed parameters in declaration order, without the receiver.
    pub params: Vec<Param>,
    /// The declared return type, empty where none is declared.
    pub output: String,
    /// The declaration without its annotations.
    pub source: String,
}

pub struct MethodView {
    pub attrs: Seq<AttributeView>,
    pub name: Seq<char>,
    pub params: Seq<ParamView>,
    pub output: Seq<char>,
    pub source: Seq<char>,
}

impl View for Method {
    type V = MethodView;

    open spec fn view(&self) -> MethodView {
        MethodView {
            attrs: views(self.attrs@),
            name: self.name@,
            params: views(self.params@),
            output: self.output@,
            source: self.source@,
        }
    }
}

impl Duplicate for Method {
    fn duplicate(&self) -> (copy: Method) {
        Method {
            attrs: duplicate_all(&self.attrs),
            name: self.name.duplicate(),
            params: duplicate_all(&self.params),
            output: self.output.duplicate(),
            source: self.source.duplicate(),
        }
    }
}

impl Same for Method {
    fn same(&self, other: &Method) -> (equal: bool) {
        same_all(&self.attrs, &other.attrs) && self.name.same(&other.name) && same_all(
            &self.params,
            &other.params,
        ) && self.output.same(&other.output) && self.source.same(&other.source)
    }
}

/// An associated type of an interface.
#[derive(Clone, Debug, PartialEq, Eq)]
pub struct AssocType {
    pub name: String,
    /// The bounds on the type, in order.
    pub bounds: Vec<String>,
    /// The declaration without its bounds.
    pub source: String,
}

pub struct AssocTypeView {
    pub name: Seq<char>,
    pub bounds: Seq<Seq<char>>,
    pub source: Seq<char>,
}

impl View for AssocType {
    type V = AssocTypeView;

    open spec fn view(&self) -> AssocTypeView {
        AssocTypeView { name: self.name@, bounds: views(self.bounds@), source: self.source@ }
    }
}

impl Duplicate for AssocType {
    fn duplicate(&self) -> (copy: AssocType) {
        AssocType {
            name: self.name.duplicate(),
            bounds: duplicate_all(&self.bounds),
            source: self.source.duplicate(),
        }
    }
}

/// A member of an interface.
#[derive(Clone, Debug, PartialEq, Eq)]
pub enum TraitItem {
    Method(Method),
    Type(AssocType),
    /// Any other member, as text.
    Verbatim(String),
}

pub enum TraitItemView {
    Method(MethodView),
    Type(AssocTypeView),
    Verbatim(Seq<char>),
}

impl View for TraitItem {
    type V = TraitItemView;

    open spec fn view(&self) -> TraitItemView {
        match *self {
            TraitItem::Method(m) => TraitItemView::Method(m@),
            TraitItem::Type(t) => TraitItemView::Type(t@),
            TraitItem::Verbatim(s) => TraitItemView::Verbatim(s@),
        }
    }
}

impl Duplicate for TraitItem {
    fn duplicate(&self) -> (copy: TraitItem) {
        match self {
            TraitItem::Method(m) => TraitItem::Method(m.duplicate()),
            TraitItem::Type(t) => TraitItem::Type(t.duplicate()),
            TraitItem::Verbatim(s) => TraitItem::Verbatim(s.duplicate()),
        }
    }
}

/// An interface declaration.
#[derive(Clone, Debug, PartialEq, Eq)]
pub struct ItemTrait {
    pub name: String,
    /// The members in declaration order.
    pub items: Vec<TraitItem>,
    /// The declaration without its members.
    pub source: String,
}

pub struct ItemTraitView {
    pub name: Seq<char>,
    pub items: Seq<TraitItemView>,
    pub source: Seq<char>,
}

impl View for ItemTrait {
    type V = ItemTraitView;

    open spec fn view(&self) -> ItemTraitView {
        ItemTraitView { name: self.name@, items: views(self.items@), source: self.source@ }
    }
}

/// One segment of a path: an identifier and, as text, the generic arguments
/// behind it (empty where there are none).
#[derive(Clone, Debug, PartialEq, Eq)]
pub struct PathSegment {
    pub name: String,
    pub arguments: String,
}

pub struct PathSegmentView {
    pub name: Seq<char>,
    pub arguments: Seq<char>,
}

impl View for PathSegment {
    type V = PathSegmentView;

    open spec fn view(&self) -> PathSegmentView {
        PathSegmentView { name: self.name@, arguments: self.arguments@ }
    }
}

/// A path, such as `Foo` or `::api::Foo<T>`.
#[derive(Clone, Debug, PartialEq, Eq)]
pub struct Path {
    /// Whether the path starts with `::`.
    pub leading_colon: bool,
    pub segments: Vec<PathSegment>,
}

pub struct PathView {
    pub leading_colon: bool,
    pub segments: Seq<PathSegmentView>,
}

impl View for Path {
    type V = PathView;

    open spec fn view(&self) -> PathView {
        PathView { leading_colon: self.leading_colon, segments: views(self.segments@) }
    }
}

/// The identifier that a path consists of, if it is a single segment without
/// a leading `::` and without generic arguments.
pub open spec fn path_ident(path: PathView) -> Option<Seq<char>> {
    if !path.leading_colon && path.segments.len() == 1 && path.segments[0].arguments.len() == 0 {
        Some(path.segments[0].name)
    } else {
        None
    }
}

impl Path {
    /// The identifier that the path consists of, if it is nothing more.
    pub fn get_ident(&self) -> (ident: Option<&String>)
        ensures
            match ident {
                Some(name) => path_ident(self@) == Some(name@),
                None => path_ident(self@).is_none(),
            },
    {
        if !self.leading_colon && self.segments.len() == 1 && self.segments[0].arguments.as_str().unicode_len() == 0 {
            Some(&self.segments[0].name)
        } else {
            None
        }
    }
}

/// An implementation block.
#[derive(Clone, Debug, PartialEq, Eq)]
pub struct ItemImpl {
    /// The interface that the block implements, if any.
    pub trait_: Option<Path>,
    /// The members in order, each as text.
    pub items: Vec<String>,
    /// The block without its members.
    pub source: String,
}

pub struct ItemImplView {
    pub trait_: Option<PathView>,
    pub items: Seq<Seq<char>>,
    pub source: Seq<char>,
}

impl View for ItemImpl {
    type V = ItemImplView;

    open spec fn view(&self) -> ItemImplView {
        ItemImplView {
            trait_: match self.trait_ {
                Some(p) => Some(p@),
                None => None,
            },
            items: views(self.items@),
            source: self.source@,
        }
    }
}

/// A declaration that the derivation is applied to.
#[derive(Clone, Debug, PartialEq, Eq)]
pub enum Item {
    Trait(ItemTrait),
    Impl(ItemImpl),
    /// Any other declaration, as text.
    Verbatim(String),
}

pub enum ItemView {
    Trait(ItemTraitView),
    Impl(ItemImplView),
    Verbatim(Seq<char>),
}

impl View for Item {
    type V = ItemView;

    open spec fn view(&self) -> ItemView {
        match *self {
            Item::Trait(t) => ItemView::Trait(t@),
            Item::Impl(i) => ItemView::Impl(i@),
            Item::Verbatim(s) => ItemView::Verbatim(s@),
        }
    }
}

} // verus!
