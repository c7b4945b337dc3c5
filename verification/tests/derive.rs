use open_rpc_derive::attr::{
    classify_arg, contains_bracket, name_argument_of, parse_args, parse_args_with, read_name,
    ArgClass, AttributeKind, RpcMethodAttribute,
};
use open_rpc_derive::error::{AttributeError, Error, RegistrationError};
use open_rpc_derive::rpc_trait::{
    compute_method_registrations, compute_method_registrations_with, handle_impl, handle_trait,
    handle_trait_with, read_names, rpc_trait, rpc_trait_with, rpc_wrapper_mod_name,
    schema_signature_item, Expansion, RpcTrait, TraitExpansion,
};
use open_rpc_derive::syntax::{
    duplicate_all, is_word, same_all, AssocType, AttrArgs, Attribute, Duplicate, Item, ItemImpl,
    ItemTrait, MetaArg, Method, Param, Path, PathSegment, Same, TraitItem,
};
use open_rpc_derive::to_gen_schema::{
    describe, generate_schema_method, MethodDescriptor, MethodRegistration, RpcMethod,
};

fn text(s: &str) -> String {
    s.to_string()
}

fn word(s: &str) -> MetaArg {
    MetaArg::Word(text(s))
}

fn name_value(key: &str, value: &str) -> MetaArg {
    MetaArg::NameValue(text(key), text(value))
}

fn rpc(args: Vec<MetaArg>) -> Attribute {
    Attribute { path: text("rpc"), args: AttrArgs::List(args) }
}

fn doc(line: &str) -> Attribute {
    Attribute { path: text("doc"), args: AttrArgs::Verbatim(format!("= \"{}\"", line)) }
}

fn param(name: &str, ty: &str) -> Param {
    Param { name: text(name), ty: text(ty) }
}

fn method(attrs: Vec<Attribute>, name: &str, params: Vec<Param>, output: &str) -> Method {
    let listed: Vec<String> = params.iter().map(|p| format!(", {} : {}", p.name, p.ty)).collect();
    Method {
        attrs,
        name: text(name),
        params,
        output: text(output),
        source: format!("fn {} (& self {}) -> {} ;", name, listed.concat(), output),
    }
}

fn interface(name: &str, items: Vec<TraitItem>) -> ItemTrait {
    ItemTrait { name: text(name), items, source: format!("pub trait {} {{ }}", name) }
}

fn assoc(name: &str, bounds: Vec<&str>) -> AssocType {
    AssocType {
        name: text(name),
        bounds: bounds.into_iter().map(text).collect(),
        source: format!("type {} ;", name),
    }
}

fn single(name: &str) -> Path {
    Path {
        leading_colon: false,
        segments: vec![PathSegment { name: text(name), arguments: String::new() }],
    }
}

fn block(trait_: Option<Path>, items: Vec<&str>) -> ItemImpl {
    ItemImpl {
        trait_,
        items: items.into_iter().map(text).collect(),
        source: text("impl Foo for Server { }"),
    }
}

fn expanded(item: ItemTrait) -> TraitExpansion {
    match handle_trait(item) {
        Ok(expansion) => expansion,
        Err(error) => panic!("refused: {:?}", error),
    }
}

fn names(methods: &Vec<MethodDescriptor>) -> Vec<String> {
    methods.iter().map(|m| m.name.clone()).collect()
}

#[test]
fn plain_interface_gets_only_the_schema_signature() {
    let items = vec![
        TraitItem::Method(method(vec![doc("adds")], "add", vec![param("a", "u64")], "u64")),
        TraitItem::Verbatim(text("const LIMIT : usize = 3 ;")),
        TraitItem::Type(assoc("Output", vec!["Send"])),
    ];
    let given = interface("Calc", items.clone());
    let expansion = expanded(given.clone());
    assert!(expansion.module.routine.methods.is_empty());
    let mut expected = items;
    expected.push(schema_signature_item());
    assert_eq!(expansion.interface.items, expected);
    assert_eq!(expansion.interface.name, given.name);
    assert_eq!(expansion.interface.source, given.source);
}

#[test]
fn empty_interface_gets_only_the_schema_signature() {
    let expansion = expanded(interface("Nothing", vec![]));
    assert!(expansion.module.routine.methods.is_empty());
    assert_eq!(expansion.interface.items, vec![schema_signature_item()]);
    assert_eq!(expansion.module.name, "openrpc_schema_Nothing");
}

#[test]
fn schema_signature_is_hidden_and_bodiless() {
    let expected = Method {
        attrs: vec![Attribute { path: text("doc"), args: AttrArgs::List(vec![word("hidden")]) }],
        name: text("schema"),
        params: vec![],
        output: text("OpenrpcDocument"),
        source: text("fn schema (& self) -> OpenrpcDocument ;"),
    };
    assert_eq!(schema_signature_item(), TraitItem::Method(expected));
}

#[test]
fn descriptors_follow_declaration_order() {
    let items = vec![
        TraitItem::Method(method(vec![rpc(vec![])], "third", vec![], "u8")),
        TraitItem::Method(method(vec![], "skipped", vec![], "u8")),
        TraitItem::Type(assoc("Output", vec![])),
        TraitItem::Method(method(vec![rpc(vec![name_value("name", "first")])], "a", vec![], "u8")),
        TraitItem::Method(method(vec![rpc(vec![word("meta")])], "second", vec![], "u8")),
    ];
    let expansion = expanded(interface("Ordered", items));
    assert_eq!(names(&expansion.module.routine.methods), vec!["third", "first", "second"]);
    assert_eq!(expansion.module.routine.name, "gen_schema");
}

#[test]
fn registrations_carry_positions_in_the_interface() {
    let items = vec![
        TraitItem::Verbatim(text("const A : u8 = 1 ;")),
        TraitItem::Method(method(vec![doc("x"), rpc(vec![])], "one", vec![], "u8")),
        TraitItem::Method(method(vec![], "plain", vec![], "u8")),
        TraitItem::Method(method(vec![rpc(vec![word("meta")])], "two", vec![], "u8")),
    ];
    let registrations = compute_method_registrations(&interface("I", items.clone())).unwrap();
    assert_eq!(registrations.len(), 2);
    let MethodRegistration::Standard { method: first, has_metadata: first_meta } = &registrations[0];
    let MethodRegistration::Standard { method: second, has_metadata: second_meta } = &registrations[1];
    assert_eq!((first.index, first.attr.index, *first_meta), (1, 1, false));
    assert_eq!((second.index, second.attr.index, *second_meta), (3, 0, true));
    assert_eq!(TraitItem::Method(first.trait_item.clone()), items[1]);
    assert_eq!(first.attr().attr, rpc(vec![]));
    assert_eq!(registrations[1].method().name(), "two");
}

#[test]
fn no_rpc_annotation_is_left() {
    let items = vec![
        TraitItem::Method(method(
            vec![doc("before"), rpc(vec![word("meta")]), doc("after")],
            "one",
            vec![param("x", "u8")],
            "u8",
        )),
        TraitItem::Method(method(vec![rpc(vec![])], "two", vec![], "u8")),
        TraitItem::Method(method(vec![doc("plain")], "three", vec![], "u8")),
    ];
    let expansion = expanded(interface("Strip", items));
    let rewritten = expansion.interface;
    for item in rewritten.items.iter() {
        if let TraitItem::Method(m) = item {
            assert!(m.attrs.iter().all(|a| a.path != "rpc"));
        }
    }
    assert_eq!(
        rewritten.items[0],
        TraitItem::Method(method(
            vec![doc("before"), doc("after")],
            "one",
            vec![param("x", "u8")],
            "u8"
        ))
    );
    assert_eq!(rewritten.items[1], TraitItem::Method(method(vec![], "two", vec![], "u8")));
    assert_eq!(rewritten.items[2], TraitItem::Method(method(vec![doc("plain")], "three", vec![], "u8")));
    assert_eq!(compute_method_registrations(&rewritten), Ok(vec![]));
    let again = expanded(rewritten.clone());
    assert!(again.module.routine.methods.is_empty());
    assert_eq!(again.interface.items[..rewritten.items.len()], rewritten.items[..]);
}

#[test]
fn metadata_flag_only_where_marked() {
    let items = vec![
        TraitItem::Method(method(vec![rpc(vec![word("meta")])], "with", vec![param("a", "u8")], "u8")),
        TraitItem::Method(method(vec![rpc(vec![])], "without", vec![param("a", "u8")], "u8")),
    ];
    let expansion = expanded(interface("Mixed", items));
    let methods = expansion.module.routine.methods;
    assert_eq!(methods.len(), 2);
    assert!(methods[0].has_metadata);
    assert!(!methods[1].has_metadata);
    assert_eq!(methods[0].params, methods[1].params);
}

#[test]
fn duplicate_declared_names_are_refused() {
    let items = vec![
        TraitItem::Method(method(vec![rpc(vec![])], "same", vec![], "u8")),
        TraitItem::Method(method(vec![], "same", vec![], "u8")),
        TraitItem::Method(method(vec![rpc(vec![])], "same", vec![param("x", "u8")], "u8")),
    ];
    let outcome = handle_trait(interface("Twice", items));
    assert_eq!(outcome, Err(Error::Registration(RegistrationError::DuplicateName { item: 2 })));
}

#[test]
fn duplicate_names_by_override_are_refused() {
    let items = vec![
        TraitItem::Method(method(vec![rpc(vec![])], "balance", vec![], "u8")),
        TraitItem::Method(method(vec![rpc(vec![])], "other", vec![], "u8")),
        TraitItem::Method(method(vec![rpc(vec![name_value("name", "balance")])], "get", vec![], "u8")),
        TraitItem::Method(method(vec![rpc(vec![name_value("name", "other")])], "put", vec![], "u8")),
    ];
    let outcome = rpc_trait(Item::Trait(interface("Twice", items)));
    assert_eq!(outcome, Err(Error::Registration(RegistrationError::DuplicateName { item: 2 })));
}

#[test]
fn override_frees_the_declared_name() {
    let items = vec![
        TraitItem::Method(method(vec![rpc(vec![name_value("name", "renamed")])], "same", vec![], "u8")),
        TraitItem::Method(method(vec![rpc(vec![])], "same", vec![], "u8")),
    ];
    let expansion = expanded(interface("Free", items));
    assert_eq!(names(&expansion.module.routine.methods), vec!["renamed", "same"]);
}

#[test]
fn foo_bar_is_described() {
    let items = vec![TraitItem::Method(method(vec![rpc(vec![])], "bar", vec![param("x", "Int")], "String"))];
    let expansion = expanded(interface("Foo", items));
    let expected = MethodDescriptor {
        name: text("bar"),
        params: vec![param("x", "Int")],
        result: text("String"),
        has_metadata: false,
    };
    assert_eq!(expansion.module.routine.methods, vec![expected]);
    assert_eq!(expansion.module.name, "openrpc_schema_Foo");
    assert_eq!(expansion.module.imports, vec!["super :: *", "open_rpc_schema :: document :: *"]);
    assert_eq!(expansion.import, "open_rpc_schema :: document :: OpenrpcDocument");
    assert_eq!(expansion.reexport, "gen_schema");
}

#[test]
fn plain_block_is_refused() {
    let outcome = handle_impl(block(None, vec!["fn new () -> Self { Server }"]));
    assert_eq!(outcome, Err(Error::NotAnInterfaceImplementation));
    let through = rpc_trait(Item::Impl(block(None, vec![])));
    assert_eq!(through, Err(Error::NotAnInterfaceImplementation));
}

#[test]
fn block_gets_the_accessor() {
    let given = block(Some(single("Foo")), vec!["fn bar (& self) { }"]);
    let rewritten = handle_impl(given.clone()).unwrap();
    assert_eq!(
        rewritten.items,
        vec![
            text("fn bar (& self) { }"),
            text("fn schema (& self) -> OpenrpcDocument { super :: openrpc_schema_Foo :: gen_schema () }"),
        ]
    );
    assert_eq!(rewritten.trait_, given.trait_);
    assert_eq!(rewritten.source, given.source);
}

#[test]
fn accessor_names_the_module_of_the_interface() {
    let expansion = expanded(interface("Wallet", vec![]));
    let rewritten = handle_impl(block(Some(single("Wallet")), vec![])).unwrap();
    let expected = format!(
        "fn schema (& self) -> OpenrpcDocument {{ super :: {} :: {} () }}",
        expansion.module.name, expansion.module.routine.name
    );
    assert_eq!(rewritten.items, vec![expected]);
}

#[test]
fn interface_path_must_be_one_identifier() {
    let two = Path {
        leading_colon: false,
        segments: vec![
            PathSegment { name: text("api"), arguments: String::new() },
            PathSegment { name: text("Foo"), arguments: String::new() },
        ],
    };
    let rooted = Path { leading_colon: true, ..single("Foo") };
    let generic = Path {
        leading_colon: false,
        segments: vec![PathSegment { name: text("Foo"), arguments: text("< T >") }],
    };
    let none = Path { leading_colon: false, segments: vec![] };
    assert_eq!(two.get_ident(), None);
    assert_eq!(rooted.get_ident(), None);
    assert_eq!(generic.get_ident(), None);
    assert_eq!(none.get_ident(), None);
    assert_eq!(single("Foo").get_ident(), Some(&text("Foo")));
    for path in [two, rooted, generic, none] {
        assert_eq!(handle_impl(block(Some(path), vec![])), Err(Error::UnresolvedInterface));
    }
}

#[test]
fn other_declarations_are_refused() {
    let outcome = rpc_trait(Item::Verbatim(text("struct Point { x : u8 }")));
    assert_eq!(outcome, Err(Error::UnsupportedTarget));
}

#[test]
fn entry_point_dispatches() {
    let of_trait = rpc_trait(Item::Trait(interface("Foo", vec![]))).unwrap();
    assert_eq!(of_trait, Expansion::Trait(expanded(interface("Foo", vec![]))));
    let of_impl = rpc_trait(Item::Impl(block(Some(single("Foo")), vec![]))).unwrap();
    assert_eq!(of_impl, Expansion::Impl(handle_impl(block(Some(single("Foo")), vec![])).unwrap()));
}

#[test]
fn deriving_twice_gives_the_same() {
    let items = vec![
        TraitItem::Type(assoc("Metadata", vec![])),
        TraitItem::Method(method(vec![rpc(vec![word("meta"), name_value("name", "n")])], "a", vec![], "u8")),
    ];
    let input = Item::Trait(interface("Same", items));
    assert_eq!(rpc_trait(input.clone()), rpc_trait(input));
}

#[test]
fn companion_name_is_prefix_and_name() {
    assert_eq!(rpc_wrapper_mod_name("Foo"), "openrpc_schema_Foo");
    assert_eq!(rpc_wrapper_mod_name(""), "openrpc_schema_");
    assert_ne!(rpc_wrapper_mod_name("Foo"), rpc_wrapper_mod_name("Bar"));
}

#[test]
fn metadata_type_gets_the_bound() {
    let items = vec![
        TraitItem::Type(assoc("Metadata", vec!["Clone"])),
        TraitItem::Type(assoc("Output", vec!["Clone"])),
    ];
    let expansion = expanded(interface("Meta", items));
    assert_eq!(
        expansion.interface.items[0],
        TraitItem::Type(assoc("Metadata", vec!["Clone", "_jsonrpc_core :: Metadata"]))
    );
    assert_eq!(expansion.interface.items[1], TraitItem::Type(assoc("Output", vec!["Clone"])));
}

#[test]
fn folder_notes_the_metadata_type() {
    let mut folder = RpcTrait { methods: vec![], has_metadata: false };
    let other = folder.fold_trait_item_type(&assoc("Output", vec![]));
    assert_eq!(other, assoc("Output", vec![]));
    assert!(!folder.has_metadata);
    let folded = folder.fold_trait_item_type(&assoc("Metadata", vec![]));
    assert_eq!(folded, assoc("Metadata", vec!["_jsonrpc_core :: Metadata"]));
    assert!(folder.has_metadata);
    let kept = folder.fold_trait_item(7, &TraitItem::Verbatim(text("const A : u8 = 1 ;")));
    assert_eq!(kept, TraitItem::Verbatim(text("const A : u8 = 1 ;")));
}

#[test]
fn folder_strips_the_registered_procedure() {
    let annotated = method(vec![doc("a"), rpc(vec![])], "one", vec![], "u8");
    let folder = folder_for(&annotated, 4);
    assert_eq!(
        folder.fold_trait_item_method(4, &annotated),
        method(vec![doc("a")], "one", vec![], "u8")
    );
    assert_eq!(folder.fold_trait_item_method(3, &annotated), annotated);
    let short = method(vec![doc("a")], "one", vec![], "u8");
    assert_eq!(folder.fold_trait_item_method(4, &short), short);
}

#[test]
fn plain_procedure_has_no_attribute() {
    assert_eq!(RpcMethodAttribute::parse_attr(&method(vec![], "a", vec![], "u8")), Ok(None));
    assert_eq!(RpcMethodAttribute::parse_attr(&method(vec![doc("x")], "a", vec![], "u8")), Ok(None));
}

#[test]
fn bare_annotation_is_accepted() {
    let bare = Attribute { path: text("rpc"), args: AttrArgs::Empty };
    let outcome = RpcMethodAttribute::parse_attr(&method(vec![doc("x"), bare.clone()], "a", vec![], "u8"));
    let expected = RpcMethodAttribute {
        attr: bare,
        index: 1,
        kind: AttributeKind::Rpc { name_override: None, has_metadata: false },
    };
    assert_eq!(outcome, Ok(Some(expected)));
}

#[test]
fn arguments_are_read_in_any_order() {
    let expected = Some(AttributeKind::Rpc { name_override: Some(text("get_balance")), has_metadata: true });
    let one = AttrArgs::List(vec![word("meta"), name_value("name", "get_balance")]);
    let other = AttrArgs::List(vec![name_value("name", "get_balance"), word("meta")]);
    assert_eq!(parse_args(&one), expected);
    assert_eq!(parse_args(&other), expected);
    assert_eq!(
        parse_args(&AttrArgs::List(vec![])),
        Some(AttributeKind::Rpc { name_override: None, has_metadata: false })
    );
}

#[test]
fn malformed_arguments_are_refused() {
    let refused = vec![
        AttrArgs::Verbatim(text("= \"x\"")),
        AttrArgs::List(vec![word("metadata")]),
        AttrArgs::List(vec![word("meta"), word("meta")]),
        AttrArgs::List(vec![name_value("name", "a"), name_value("name", "b")]),
        AttrArgs::List(vec![name_value("alias", "a")]),
        AttrArgs::List(vec![word("meta"), MetaArg::Verbatim(text("alias (\"a\")"))]),
        AttrArgs::List(vec![name_value("name", "")]),
        AttrArgs::List(vec![name_value("name", "1abc")]),
        AttrArgs::List(vec![name_value("name", "a b")]),
        AttrArgs::List(vec![name_value("name", " spaced")]),
        AttrArgs::List(vec![name_value("name", "a.b")]),
        AttrArgs::List(vec![name_value("name", "fn")]),
    ];
    for args in refused {
        assert_eq!(parse_args(&args), None, "{:?}", args);
        let annotated = method(vec![doc("x"), Attribute { path: text("rpc"), args }], "a", vec![], "u8");
        assert_eq!(
            RpcMethodAttribute::parse_attr(&annotated),
            Err(AttributeError::Malformed { attr: 1 })
        );
    }
}

#[test]
fn name_must_be_an_identifier() {
    for good in ["a", "_a", "get_balance", "eth_getBalance", "x1"] {
        assert_eq!(
            parse_args(&AttrArgs::List(vec![name_value("name", good)])),
            Some(AttributeKind::Rpc { name_override: Some(text(good)), has_metadata: false })
        );
    }
    for bad in ["1", "a-b", "a::b", "\"a\"", "a /* b */", "'a"] {
        assert_eq!(parse_args(&AttrArgs::List(vec![name_value("name", bad)])), None, "{}", bad);
    }
}

#[test]
fn second_annotation_is_refused() {
    let twice = method(vec![rpc(vec![]), doc("x"), rpc(vec![word("meta")]), rpc(vec![])], "a", vec![], "u8");
    assert_eq!(RpcMethodAttribute::parse_attr(&twice), Err(AttributeError::Malformed { attr: 2 }));
    let bad_first = method(vec![rpc(vec![word("bogus")]), rpc(vec![])], "a", vec![], "u8");
    assert_eq!(RpcMethodAttribute::parse_attr(&bad_first), Err(AttributeError::Malformed { attr: 1 }));
}

#[test]
fn arguments_are_classified() {
    assert_eq!(classify_arg(&word("meta")), ArgClass::Metadata);
    assert_eq!(classify_arg(&word("name")), ArgClass::Unknown);
    assert_eq!(classify_arg(&word("Meta")), ArgClass::Unknown);
    assert_eq!(classify_arg(&name_value("name", "a")), ArgClass::Name);
    assert_eq!(classify_arg(&name_value("name", "1 2")), ArgClass::Name);
    assert_eq!(classify_arg(&name_value("meta", "a")), ArgClass::Unknown);
    assert_eq!(classify_arg(&MetaArg::Verbatim(text("meta"))), ArgClass::Unknown);
}

#[test]
fn arguments_are_read_given_the_reading() {
    let named = AttrArgs::List(vec![word("meta"), name_value("name", "balance")]);
    let accepted = Some(AttributeKind::Rpc { name_override: Some(text("balance")), has_metadata: true });
    assert_eq!(parse_args_with(&named, &Some(text("balance"))), accepted);
    assert_eq!(parse_args_with(&named, &Some(text("other"))), None);
    assert_eq!(parse_args_with(&named, &None), None);
    let unnamed = AttrArgs::List(vec![word("meta")]);
    let marked = Some(AttributeKind::Rpc { name_override: None, has_metadata: true });
    assert_eq!(parse_args_with(&unnamed, &None), marked);
    assert_eq!(parse_args_with(&unnamed, &Some(text("anything"))), marked);
    let twice = AttrArgs::List(vec![name_value("name", "a"), name_value("name", "a")]);
    assert_eq!(parse_args_with(&twice, &Some(text("a"))), None);
    let bare = Some(AttributeKind::Rpc { name_override: None, has_metadata: false });
    assert_eq!(parse_args_with(&AttrArgs::Empty, &Some(text("a"))), bare);
    assert_eq!(parse_args_with(&AttrArgs::Verbatim(text("= 1")), &Some(text("a"))), None);
}

#[test]
fn only_a_well_shaped_list_has_a_name_to_read() {
    let named = AttrArgs::List(vec![word("meta"), name_value("name", "balance")]);
    assert_eq!(name_argument_of(&named), Some(&text("balance")));
    let unknown = AttrArgs::List(vec![word("bogus"), name_value("name", "balance")]);
    assert_eq!(name_argument_of(&unknown), None);
    let twice = AttrArgs::List(vec![name_value("name", "a"), name_value("name", "b")]);
    assert_eq!(name_argument_of(&twice), None);
    assert_eq!(name_argument_of(&AttrArgs::List(vec![word("meta")])), None);
    assert_eq!(name_argument_of(&AttrArgs::Empty), None);
    assert_eq!(name_argument_of(&AttrArgs::Verbatim(text("name = \"a\""))), None);
}

#[test]
fn brackets_are_found() {
    for with in ["(", "a)", "[", "a]b", "{", "}", "a(b)", "\u{e9}{"] {
        assert!(contains_bracket(with), "{}", with);
    }
    for without in ["", "a", "a b", "<a>", "a.b", "\u{e9}t\u{e9}"] {
        assert!(!contains_bracket(without), "{}", without);
    }
}

#[test]
fn names_with_brackets_are_not_read() {
    assert_eq!(read_name(None), None);
    assert_eq!(read_name(Some(&text("a(b)"))), None);
    assert_eq!(read_name(Some(&text("balance"))), Some(text("balance")));
    assert_eq!(read_name(Some(&text("1abc"))), None);
    let deep = format!("{}{}", "(".repeat(200_000), ")".repeat(200_000));
    assert_eq!(read_name(Some(&deep)), None);
    assert_eq!(parse_args(&AttrArgs::List(vec![name_value("name", &deep)])), None);
    let annotated = method(vec![rpc(vec![name_value("name", &deep)])], "a", vec![], "u8");
    assert_eq!(
        RpcMethodAttribute::parse_attr(&annotated),
        Err(AttributeError::Malformed { attr: 0 })
    );
}

#[test]
fn procedure_is_read_given_the_reading() {
    let annotated = method(vec![doc("x"), rpc(vec![name_value("name", "balance")])], "get", vec![], "u8");
    assert_eq!(RpcMethodAttribute::name_candidate(&annotated), Some(&text("balance")));
    let expected = RpcMethodAttribute {
        attr: rpc(vec![name_value("name", "balance")]),
        index: 1,
        kind: AttributeKind::Rpc { name_override: Some(text("balance")), has_metadata: false },
    };
    assert_eq!(
        RpcMethodAttribute::parse_attr_with(&annotated, &Some(text("balance"))),
        Ok(Some(expected))
    );
    assert_eq!(
        RpcMethodAttribute::parse_attr_with(&annotated, &None),
        Err(AttributeError::Malformed { attr: 1 })
    );
    let plain = method(vec![doc("x")], "get", vec![], "u8");
    assert_eq!(RpcMethodAttribute::name_candidate(&plain), None);
    assert_eq!(RpcMethodAttribute::parse_attr_with(&plain, &Some(text("balance"))), Ok(None));
    let twice = method(vec![rpc(vec![name_value("name", "a")]), rpc(vec![])], "get", vec![], "u8");
    assert_eq!(RpcMethodAttribute::name_candidate(&twice), None);
    assert_eq!(
        RpcMethodAttribute::parse_attr_with(&twice, &Some(text("a"))),
        Err(AttributeError::Malformed { attr: 1 })
    );
}

#[test]
fn interface_is_derived_given_the_readings() {
    let items = vec![
        TraitItem::Type(assoc("Output", vec![])),
        TraitItem::Method(method(vec![rpc(vec![name_value("name", "first")])], "a", vec![], "u8")),
        TraitItem::Method(method(vec![rpc(vec![])], "b", vec![], "u8")),
    ];
    let given = interface("Readings", items);
    let read = vec![None, Some(text("first")), None];
    assert_eq!(read_names(&given), read);
    let registrations = compute_method_registrations_with(&given, &read).unwrap();
    assert_eq!(registrations.len(), 2);
    assert_eq!(registrations[0].method().name(), "first");
    assert_eq!(handle_trait_with(given.clone(), &read), handle_trait(given.clone()));
    assert_eq!(
        rpc_trait_with(Item::Trait(given.clone()), &read),
        rpc_trait(Item::Trait(given.clone()))
    );
    let refused = Error::Attribute { item: 1, error: AttributeError::Malformed { attr: 0 } };
    for unread in [vec![], vec![None], vec![None, None, None], vec![Some(text("first"))]] {
        assert_eq!(compute_method_registrations_with(&given, &unread), Err(refused));
        assert_eq!(handle_trait_with(given.clone(), &unread), Err(refused));
        assert_eq!(rpc_trait_with(Item::Trait(given.clone()), &unread), Err(refused));
    }
    let misread = vec![None, Some(text("second")), None];
    assert_eq!(compute_method_registrations_with(&given, &misread), Err(refused));
}

#[test]
fn readings_do_not_matter_without_names() {
    let items = vec![
        TraitItem::Method(method(vec![rpc(vec![word("meta")])], "a", vec![], "u8")),
        TraitItem::Method(method(vec![doc("x")], "b", vec![], "u8")),
    ];
    let given = interface("Unnamed", items);
    assert_eq!(read_names(&given), vec![None, None]);
    let derived = handle_trait(given.clone());
    assert!(derived.is_ok());
    for read in [vec![], vec![Some(text("a")), Some(text("b"))], vec![None, Some(text("x")), None]] {
        assert_eq!(handle_trait_with(given.clone(), &read), derived);
    }
    let of_block = Item::Impl(block(Some(single("Foo")), vec![]));
    assert_eq!(rpc_trait_with(of_block.clone(), &vec![Some(text("a"))]), rpc_trait(of_block));
    let other = Item::Verbatim(text("struct A ;"));
    assert_eq!(rpc_trait_with(other, &vec![Some(text("a"))]), Err(Error::UnsupportedTarget));
}

fn folder_for(registered: &Method, index: usize) -> RpcTrait {
    let attr = RpcMethodAttribute::parse_attr(registered).unwrap().unwrap();
    let registration = MethodRegistration::Standard {
        method: RpcMethod::new(attr, registered.clone(), index),
        has_metadata: false,
    };
    RpcTrait { methods: vec![registration], has_metadata: false }
}

#[test]
fn folding_twice_strips_once() {
    let annotated = method(vec![rpc(vec![]), doc("kept")], "one", vec![], "u8");
    let folder = folder_for(&annotated, 0);
    let once = folder.fold_trait_item_method(0, &annotated);
    assert_eq!(once, method(vec![doc("kept")], "one", vec![], "u8"));
    let twice = folder.fold_trait_item_method(0, &once);
    assert_eq!(twice, once);
}

#[test]
fn unregistered_procedure_is_left_alone() {
    let annotated = method(vec![rpc(vec![])], "one", vec![], "u8");
    let folder = folder_for(&annotated, 0);
    let plain = method(vec![doc("kept")], "plain", vec![], "u8");
    assert_eq!(folder.fold_trait_item_method(0, &plain), plain);
    let other = method(vec![rpc(vec![])], "other", vec![], "u8");
    assert_eq!(folder.fold_trait_item_method(0, &other), other);
    assert_eq!(folder.fold_trait_item_method(1, &annotated), annotated);
}

#[test]
fn every_equal_annotation_is_stripped() {
    let marker = Attribute { path: text("mark"), args: AttrArgs::Empty };
    let given = method(vec![marker.clone(), doc("a"), marker.clone(), doc("b")], "one", vec![], "u8");
    let attr = RpcMethodAttribute {
        attr: marker,
        index: 0,
        kind: AttributeKind::Rpc { name_override: None, has_metadata: false },
    };
    let registration = MethodRegistration::Standard {
        method: RpcMethod::new(attr, given.clone(), 5),
        has_metadata: false,
    };
    let folder = RpcTrait { methods: vec![registration], has_metadata: false };
    let folded = folder.fold_trait_item_method(5, &given);
    assert_eq!(folded, method(vec![doc("a"), doc("b")], "one", vec![], "u8"));
    assert_eq!(folder.fold_trait_item_method(5, &folded), folded);
}

#[test]
fn values_are_compared_in_depth() {
    let one = method(vec![doc("x"), rpc(vec![word("meta")])], "a", vec![param("x", "u8")], "u8");
    assert!(one.same(&one.duplicate()));
    assert!(!one.same(&method(vec![doc("x"), rpc(vec![])], "a", vec![param("x", "u8")], "u8")));
    assert!(!one.same(&method(vec![doc("x"), rpc(vec![word("meta")])], "a", vec![param("x", "u16")], "u8")));
    assert!(!one.same(&method(vec![doc("x"), rpc(vec![word("meta")])], "b", vec![param("x", "u8")], "u8")));
    assert!(rpc(vec![]).same(&rpc(vec![])));
    assert!(!rpc(vec![]).same(&Attribute { path: text("rpc"), args: AttrArgs::Empty }));
    assert!(same_all(&vec![text("a"), text("b")], &vec![text("a"), text("b")]));
    assert!(!same_all(&vec![text("a"), text("b")], &vec![text("a")]));
    assert!(!same_all(&vec![text("a"), text("b")], &vec![text("a"), text("c")]));
}

#[test]
fn first_refused_procedure_aborts() {
    let items = vec![
        TraitItem::Method(method(vec![rpc(vec![])], "same", vec![], "u8")),
        TraitItem::Method(method(vec![rpc(vec![])], "same", vec![], "u8")),
        TraitItem::Method(method(vec![doc("x"), rpc(vec![word("bogus")])], "b", vec![], "u8")),
        TraitItem::Method(method(vec![rpc(vec![word("worse")])], "c", vec![], "u8")),
    ];
    let expected = Error::Attribute { item: 2, error: AttributeError::Malformed { attr: 1 } };
    assert_eq!(compute_method_registrations(&interface("Bad", items.clone())), Err(expected));
    assert_eq!(handle_trait(interface("Bad", items.clone())), Err(expected));
    assert_eq!(rpc_trait(Item::Trait(interface("Bad", items))), Err(expected));
}

#[test]
fn empty_registrations_give_an_empty_routine() {
    let routine = generate_schema_method(&vec![]);
    assert_eq!(routine.name, "gen_schema");
    assert!(routine.methods.is_empty());
}

#[test]
fn descriptor_takes_signature_and_override() {
    let annotated = method(
        vec![rpc(vec![name_value("name", "transfer"), word("meta")])],
        "send",
        vec![param("to", "Address"), param("amount", "u128")],
        "Result < Receipt >",
    );
    let attr = RpcMethodAttribute::parse_attr(&annotated).unwrap().unwrap();
    let registered = RpcMethod::new(attr, annotated, 0);
    assert_eq!(registered.name(), "transfer");
    let descriptor = describe(&MethodRegistration::Standard { method: registered, has_metadata: true });
    let expected = MethodDescriptor {
        name: text("transfer"),
        params: vec![param("to", "Address"), param("amount", "u128")],
        result: text("Result < Receipt >"),
        has_metadata: true,
    };
    assert_eq!(descriptor, expected);
}

#[test]
fn procedure_without_return_type_is_described() {
    let annotated = method(vec![rpc(vec![])], "ping", vec![], "");
    let expansion = expanded(interface("P", vec![TraitItem::Method(annotated)]));
    assert_eq!(expansion.module.routine.methods[0].result, "");
    assert!(expansion.module.routine.methods[0].params.is_empty());
}

#[test]
fn errors_have_messages() {
    assert_eq!(
        Error::UnsupportedTarget.message(),
        "The #[document_rpc] custom attribute only works with trait and impl declarations"
    );
    let all = [
        Error::Attribute { item: 0, error: AttributeError::Malformed { attr: 0 } },
        Error::Registration(RegistrationError::DuplicateName { item: 1 }),
        Error::NotAnInterfaceImplementation,
        Error::UnresolvedInterface,
        Error::UnsupportedTarget,
    ];
    for (i, a) in all.iter().enumerate() {
        for (j, b) in all.iter().enumerate() {
            assert_eq!(i == j, a.message() == b.message());
        }
    }
}

#[test]
fn copies_are_equal() {
    let given = method(vec![doc("x"), rpc(vec![word("meta")])], "a", vec![param("x", "u8")], "u8");
    assert_eq!(given.duplicate(), given);
    let items = vec![
        TraitItem::Method(given),
        TraitItem::Type(assoc("Metadata", vec!["Send"])),
        TraitItem::Verbatim(text("const A : u8 = 1 ;")),
    ];
    assert_eq!(duplicate_all(&items), items);
    assert!(is_word(&text("rpc"), "rpc"));
    assert!(!is_word(&text("rpc"), "rpcs"));
}

#[test]
fn raw_identifier_is_kept_as_written() {
    assert_eq!(
        parse_args(&AttrArgs::List(vec![name_value("name", "r#type")])),
        Some(AttributeKind::Rpc { name_override: Some(text("r#type")), has_metadata: false })
    );
}
