//! The annotations that mark a procedure for the schema.
//!
//! One kind is recognised: `rpc`, with two optional arguments. `meta` says
//! that the procedure expects metadata; `name = "..."` gives the name under
//! which the procedure is exposed, which must be an identifier.
//!
//! Whether a name is an identifier is asked of syn. What syn answers is not
//! a matter of the text alone, so it enters every rule here as a separate
//! value, the reading: the identifier that the name was read as, if it was
//! read as one. A name is accepted where its reading is the name itself.

use crate::error::AttributeError;
use crate::syntax::{
    is_word, text_view, views, AttrArgs, AttrArgsView, Attribute, AttributeView, Duplicate,
    MetaArg, MetaArgView, Method, MethodView, Same,
};
use vstd::prelude::*;

verus! {

/// The kinds of annotation that are recognised.
#[derive(Clone, Debug, PartialEq, Eq)]
pub enum AttributeKind {
    Rpc {
        /// The exposed name, where it is not the declared one.
        name_override: Option<String>,
        /// Whether the procedure expects metadata.
        has_metadata: bool,
    },
}

pub enum AttributeKindView {
    Rpc { name_override: Option<Seq<char>>, has_metadata: bool },
}

impl View for AttributeKind {
    type V = AttributeKindView;

    open spec fn view(&self) -> AttributeKindView {
        match *self {
            AttributeKind::Rpc { name_override, has_metadata } => AttributeKindView::Rpc {
                name_override: text_view(name_override),
                has_metadata,
            },
        }
    }
}

/// A recognised annotation of one procedure, read and validated.
#[derive(Clone, Debug, PartialEq, Eq)]
pub struct RpcMethodAttribute {
    /// The annotation as it was written.
    pub attr: Attribute,
    /// Its position in the procedure's annotation list.
    pub index: usize,
    pub kind: AttributeKind,
}

pub struct RpcMethodAttributeView {
    pub attr: AttributeView,
    pub index: int,
    pub kind: AttributeKindView,
}

impl View for RpcMethodAttribute {
    type V = RpcMethodAttributeView;

    open spec fn view(&self) -> RpcMethodAttributeView {
        RpcMethodAttributeView { attr: self.attr@, index: self.index as int, kind: self.kind@ }
    }
}

/// What one argument of an `rpc` annotation is, by its shape.
#[derive(Clone, Copy, Debug, PartialEq, Eq, Structural)]
pub enum ArgClass {
    /// The marker `meta`.
    Metadata,
    /// `name = "..."`.
    Name,
    /// Anything else.
    Unknown,
}

/// Whether a character opens or closes a bracket.
pub open spec fn is_bracket(c: char) -> bool {
    c == '(' || c == ')' || c == '[' || c == ']' || c == '{' || c == '}'
}

/// Whether a text holds a bracket. Such a text is no identifier.
pub open spec fn has_bracket(text: Seq<char>) -> bool {
    exists|i: int| 0 <= i < text.len() && is_bracket(#[trigger] text[i])
}

/// Calls `syn::parse_str::<syn::Ident>` on the text and prints the
/// identifier, if syn read one, with `to_string`. Nothing is claimed of the
/// outcome. Texts with brackets are kept out, because syn goes through
/// nested brackets by recursion.
#[verifier::external_body]
fn parse_ident(text: &str) -> (ident: Option<String>)
    requires
        !has_bracket(text@),
{
    match syn::parse_str::<syn::Ident>(text) {
        Ok(ident) => Some(ident.to_string()),
        Err(_) => None,
    }
}

/// What a reading can be, given the text that is to be read: no text and a
/// text with a bracket are read as no identifier.
pub open spec fn possible_reading(candidate: Option<Seq<char>>, reading: Option<Seq<char>>) -> bool {
    match candidate {
        Some(text) => has_bracket(text) ==> reading.is_none(),
        None => reading.is_none(),
    }
}

/// What an argument is, by its shape.
pub open spec fn arg_class(arg: MetaArgView) -> ArgClass {
    match arg {
        MetaArgView::Word(word) => if word == "meta"@ {
            ArgClass::Metadata
        } else {
            ArgClass::Unknown
        },
        MetaArgView::NameValue(key, _) => if key == "name"@ {
            ArgClass::Name
        } else {
            ArgClass::Unknown
        },
        MetaArgView::Verbatim(_) => ArgClass::Unknown,
    }
}

/// How many of the arguments are of the given class.
pub open spec fn count_class(args: Seq<MetaArgView>, class: ArgClass) -> nat
    decreases args.len(),
{
    if args.len() == 0 {
        0
    } else {
        count_class(args.drop_last(), class) + if arg_class(args.last()) == class {
            1nat
        } else {
            0nat
        }
    }
}

/// The value of the last argument that gives a name.
pub open spec fn name_value(args: Seq<MetaArgView>) -> Option<Seq<char>>
    decreases args.len(),
{
    if args.len() == 0 {
        None
    } else {
        match args.last() {
            MetaArgView::NameValue(_, value) => if arg_class(args.last()) == ArgClass::Name {
                Some(value)
            } else {
                name_value(args.drop_last())
            },
            _ => name_value(args.drop_last()),
        }
    }
}

/// An argument list has the right shape if every argument is understood and
/// none is given twice.
pub open spec fn shape_accepted(args: Seq<MetaArgView>) -> bool {
    &&& count_class(args, ArgClass::Unknown) == 0
    &&& count_class(args, ArgClass::Metadata) <= 1
    &&& count_class(args, ArgClass::Name) <= 1
}

/// The name that the arguments of an `rpc` annotation give, where they have
/// the right shape: the one text whose reading decides.
pub open spec fn name_argument(args: AttrArgsView) -> Option<Seq<char>> {
    match args {
        AttrArgsView::List(list) => if shape_accepted(list) {
            name_value(list)
        } else {
            None
        },
        _ => None,
    }
}

/// What the arguments of an `rpc` annotation say, given the reading of the
/// name, if they are accepted: they have the right shape, and the name, if
/// there is one, was read as itself.
pub open spec fn parse_args_spec(args: AttrArgsView, reading: Option<Seq<char>>) -> Option<
    AttributeKindView,
> {
    match args {
        AttrArgsView::Empty => Some(
            AttributeKindView::Rpc { name_override: None, has_metadata: false },
        ),
        AttrArgsView::List(list) => if shape_accepted(list) && (name_value(list).is_none()
            || reading == name_value(list)) {
            Some(
                AttributeKindView::Rpc {
                    name_override: name_value(list),
                    has_metadata: count_class(list, ArgClass::Metadata) == 1,
                },
            )
        } else {
            None
        },
        AttrArgsView::Verbatim(_) => None,
    }
}

/// Whether an annotation is of the recognised kind.
pub open spec fn is_rpc(attr: AttributeView) -> bool {
    attr.path == "rpc"@
}

/// The positions of the recognised annotations in a list, ascending.
pub open spec fn rpc_positions(attrs: Seq<AttributeView>) -> Seq<int>
    decreases attrs.len(),
{
    if attrs.len() == 0 {
        Seq::empty()
    } else if is_rpc(attrs.last()) {
        rpc_positions(attrs.drop_last()).push(attrs.len() - 1)
    } else {
        rpc_positions(attrs.drop_last())
    }
}

/// The name that the one `rpc` annotation of a procedure gives: the one text
/// of the procedure whose reading decides.
pub open spec fn name_candidate(method: MethodView) -> Option<Seq<char>> {
    let found = rpc_positions(method.attrs);
    if found.len() == 1 {
        name_argument(method.attrs[found[0]].args)
    } else {
        None
    }
}

/// What the annotations of a procedure amount to, given the reading of its
/// name: nothing where none is recognised; the one recognised annotation
/// with what it says; an error at the second where two are recognised, else
/// at the one whose arguments are not accepted.
pub open spec fn parse_attr_spec(method: MethodView, reading: Option<Seq<char>>) -> Result<
    Option<RpcMethodAttributeView>,
    AttributeError,
> {
    let found = rpc_positions(method.attrs);
    if found.len() == 0 {
        Ok(None)
    } else if found.len() > 1 {
        Err(AttributeError::Malformed { attr: found[1] as usize })
    } else {
        match parse_args_spec(method.attrs[found[0]].args, reading) {
            Some(kind) => Ok(
                Some(RpcMethodAttributeView { attr: method.attrs[found[0]], index: found[0], kind }),
            ),
            None => Err(AttributeError::Malformed { attr: found[0] as usize }),
        }
    }
}

/// The view of an optional kind.
pub open spec fn kind_view(kind: Option<AttributeKind>) -> Option<AttributeKindView> {
    match kind {
        Some(k) => Some(k@),
        None => None,
    }
}

/// The view of an optional reference to a text.
pub open spec fn borrowed_view(text: Option<&String>) -> Option<Seq<char>> {
    match text {
        Some(t) => Some(t@),
        None => None,
    }
}

/// The view of an outcome of `parse_attr`.
pub open spec fn attr_result_view(
    outcome: Result<Option<RpcMethodAttribute>, AttributeError>,
) -> Result<Option<RpcMethodAttributeView>, AttributeError> {
    match outcome {
        Ok(Some(attr)) => Ok(Some(attr@)),
        Ok(None) => Ok(None),
        Err(error) => Err(error),
    }
}

/// Whether a text holds a bracket.
pub fn contains_bracket(text: &str) -> (found: bool)
    ensures
        found == has_bracket(text@),
{
    let length = text.unicode_len();
    let mut i: usize = 0;
    while i < length
        invariant
            i <= length,
            length == text@.len(),
            forall|k: int| 0 <= k < i ==> !is_bracket(#[trigger] text@[k]),
        decreases length - i,
    {
        let c = text.get_char(i);
        if c == '(' || c == ')' || c == '[' || c == ']' || c == '{' || c == '}' {
            return true;
        }
        i += 1;
    }
    false
}

/// Reads a name as an identifier. Nothing is read of no name, and nothing
/// of a name with a bracket; of any other name, syn is asked.
pub fn read_name(candidate: Option<&String>) -> (reading: Option<String>)
    ensures
        possible_reading(borrowed_view(candidate), text_view(reading)),
{
    match candidate {
        Some(text) => {
            if contains_bracket(text.as_str()) {
                None
            } else {
                parse_ident(text.as_str())
            }
        },
        None => None,
    }
}

/// What an argument is, by its shape.
pub fn classify_arg(arg: &MetaArg) -> (class: ArgClass)
    ensures
        class == arg_class(arg@),
{
    match arg {
        MetaArg::Word(word) => {
            if is_word(word, "meta") {
                ArgClass::Metadata
            } else {
                ArgClass::Unknown
            }
        },
        MetaArg::NameValue(key, _) => {
            if is_word(key, "name") {
                ArgClass::Name
            } else {
                ArgClass::Unknown
            }
        },
        MetaArg::Verbatim(_) => ArgClass::Unknown,
    }
}

/// Goes through an argument list once: whether it has the right shape,
/// whether it holds the marker `meta` once, and the name that it gives.
fn shape<'a>(list: &'a Vec<MetaArg>) -> (found: (bool, bool, Option<&'a String>))
    ensures
        found.0 == shape_accepted(views(list@)),
        found.1 == (count_class(views(list@), ArgClass::Metadata) == 1),
        borrowed_view(found.2) == name_value(views(list@)),
{
    let ghost all = views(list@);
    let mut unknown: usize = 0;
    let mut metadata: usize = 0;
    let mut names: usize = 0;
    let mut name: Option<&'a String> = None;
    let mut i: usize = 0;
    while i < list.len()
        invariant
            i <= list.len(),
            all == views(list@),
            unknown == count_class(all.take(i as int), ArgClass::Unknown),
            metadata == count_class(all.take(i as int), ArgClass::Metadata),
            names == count_class(all.take(i as int), ArgClass::Name),
            unknown <= i && metadata <= i && names <= i,
            borrowed_view(name) == name_value(all.take(i as int)),
        decreases list.len() - i,
    {
        let arg = &list[i];
        let class = classify_arg(arg);
        proof {
            assert(all.take(i + 1).drop_last() =~= all.take(i as int));
            assert(all.take(i + 1).last() == arg@);
        }
        match class {
            ArgClass::Unknown => {
                unknown += 1;
            },
            ArgClass::Metadata => {
                metadata += 1;
            },
            ArgClass::Name => {
                names += 1;
                if let MetaArg::NameValue(_, value) = arg {
                    name = Some(value);
                }
            },
        }
        i += 1;
    }
    assert(all.take(i as int) =~= all);
    (unknown == 0 && metadata <= 1 && names <= 1, metadata == 1, name)
}

/// The name that the arguments of an `rpc` annotation give, where they have
/// the right shape.
pub fn name_argument_of(args: &AttrArgs) -> (name: Option<&String>)
    ensures
        borrowed_view(name) == name_argument(args@),
{
    match args {
        AttrArgs::List(list) => {
            let (accepted, _, name) = shape(list);
            if accepted {
                name
            } else {
                None
            }
        },
        _ => None,
    }
}

/// Reads the arguments of an `rpc` annotation, given the reading of the
/// name that they give.
pub fn parse_args_with(args: &AttrArgs, reading: &Option<String>) -> (kind: Option<AttributeKind>)
    ensures
        kind_view(kind) == parse_args_spec(args@, text_view(*reading)),
{
    match args {
        AttrArgs::Empty => Some(AttributeKind::Rpc { name_override: None, has_metadata: false }),
        AttrArgs::Verbatim(_) => None,
        AttrArgs::List(list) => {
            let (accepted, has_metadata, name) = shape(list);
            if !accepted {
                return None;
            }
            match name {
                None => Some(AttributeKind::Rpc { name_override: None, has_metadata }),
                Some(value) => {
                    let read_as_written = match reading {
                        Some(read) => read.same(value),
                        None => false,
                    };
                    if read_as_written {
                        Some(
                            AttributeKind::Rpc {
                                name_override: Some(value.duplicate()),
                                has_metadata,
                            },
                        )
                    } else {
                        None
                    }
                },
            }
        },
    }
}

/// Reads the arguments of an `rpc` annotation. The name that they give is
/// read by syn, so the outcome is one that `parse_args_with` has for some
/// possible reading. Without a name, and with a name that holds a bracket,
/// that is the outcome for no reading.
pub fn parse_args(args: &AttrArgs) -> (kind: Option<AttributeKind>)
    ensures
        exists|reading: Option<Seq<char>>|
            possible_reading(name_argument(args@), reading) && kind_view(kind)
                == #[trigger] parse_args_spec(args@, reading),
        name_argument(args@).is_none() ==> kind_view(kind) == parse_args_spec(args@, None),
        name_argument(args@).is_some() && has_bracket(name_argument(args@).unwrap())
            ==> kind.is_none(),
{
    let reading = read_name(name_argument_of(args));
    let kind = parse_args_with(args, &reading);
    assert(possible_reading(name_argument(args@), text_view(reading)) && kind_view(kind)
        == parse_args_spec(args@, text_view(reading)));
    kind
}

/// The positions of the `rpc` annotations of a procedure.
fn find_rpc(method: &Method) -> (found: Vec<usize>)
    ensures
        found.len() == rpc_positions(method@.attrs).len(),
        forall|k: int|
            0 <= k < found.len() ==> found[k] as int == rpc_positions(method@.attrs)[k]
                && found[k] < method.attrs.len(),
{
    let ghost all = views(method.attrs@);
    let mut found: Vec<usize> = Vec::new();
    let mut i: usize = 0;
    while i < method.attrs.len()
        invariant
            i <= method.attrs.len(),
            all == views(method.attrs@),
            found.len() == rpc_positions(all.take(i as int)).len(),
            forall|k: int|
                0 <= k < found.len() ==> found[k] as int == rpc_positions(all.take(i as int))[k],
            forall|k: int| 0 <= k < found.len() ==> found[k] < i,
        decreases method.attrs.len() - i,
    {
        proof {
            assert(all.take(i + 1).drop_last() =~= all.take(i as int));
            assert(all.take(i + 1).last() == method.attrs[i as int]@);
        }
        if is_word(&method.attrs[i].path, "rpc") {
            found.push(i);
        }
        i += 1;
    }
    assert(all.take(i as int) =~= all);
    found
}

impl RpcMethodAttribute {
    /// The name that the one `rpc` annotation of a procedure gives.
    pub fn name_candidate(method: &Method) -> (name: Option<&String>)
        ensures
            borrowed_view(name) == name_candidate(method@),
    {
        let found = find_rpc(method);
        if found.len() == 1 {
            name_argument_of(&method.attrs[found[0]].args)
        } else {
            None
        }
    }

    /// Reads the annotations of a procedure, given the reading of the name
    /// that its `rpc` annotation gives.
    ///
    /// A procedure without an `rpc` annotation is plain: the outcome is
    /// `Ok(None)`. One `rpc` annotation whose arguments are accepted is handed
    /// back with its position and with what it says. Anything else is
    /// malformed.
    pub fn parse_attr_with(method: &Method, reading: &Option<String>) -> (outcome: Result<
        Option<RpcMethodAttribute>,
        AttributeError,
    >)
        ensures
            attr_result_view(outcome) == parse_attr_spec(method@, text_view(*reading)),
    {
        let found = find_rpc(method);
        if found.len() == 0 {
            Ok(None)
        } else if found.len() > 1 {
            Err(AttributeError::Malformed { attr: found[1] })
        } else {
            let at = found[0];
            match parse_args_with(&method.attrs[at].args, reading) {
                Some(kind) => Ok(
                    Some(
                        RpcMethodAttribute { attr: method.attrs[at].duplicate(), index: at, kind },
                    ),
                ),
                None => Err(AttributeError::Malformed { attr: at }),
            }
        }
    }

    /// Reads the annotations of a procedure. The name that its `rpc`
    /// annotation gives is read by syn, so the outcome is one that
    /// `parse_attr_with` has for some possible reading. Whatever syn reads:
    /// the outcome is `Ok(None)` exactly where no `rpc` annotation stands;
    /// a second `rpc` annotation is the error; and where no name is to be
    /// read, the outcome is the one for no reading.
    pub fn parse_attr(method: &Method) -> (outcome: Result<
        Option<RpcMethodAttribute>,
        AttributeError,
    >)
        ensures
            exists|reading: Option<Seq<char>>|
                possible_reading(name_candidate(method@), reading) && attr_result_view(outcome)
                    == #[trigger] parse_attr_spec(method@, reading),
            outcome == Ok::<Option<RpcMethodAttribute>, AttributeError>(None) <==> rpc_positions(
                method@.attrs,
            ).len() == 0,
            rpc_positions(method@.attrs).len() > 1 ==> outcome == Err::<
                Option<RpcMethodAttribute>,
                AttributeError,
            >(AttributeError::Malformed { attr: rpc_positions(method@.attrs)[1] as usize }),
            name_candidate(method@).is_none() ==> attr_result_view(outcome) == parse_attr_spec(
                method@,
                None,
            ),
            name_candidate(method@).is_some() && has_bracket(name_candidate(method@).unwrap())
                ==> attr_result_view(outcome) == parse_attr_spec(method@, None),
    {
        let reading = read_name(Self::name_candidate(method));
        let outcome = Self::parse_attr_with(method, &reading);
        assert(possible_reading(name_candidate(method@), text_view(reading)) && attr_result_view(
            outcome,
        ) == parse_attr_spec(method@, text_view(reading)));
        outcome
    }
}

} // verus!
