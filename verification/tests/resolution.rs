use prop_types::ast::AliasDecl;
use prop_types::ast::DeclIndex;
use prop_types::ast::DiagKind;
use prop_types::ast::Diagnostic;
use prop_types::ast::InterfaceDecl;
use prop_types::ast::Keyword;
use prop_types::ast::Lit;
use prop_types::ast::Member;
use prop_types::ast::MethodSig;
use prop_types::ast::PropDescriptor;
use prop_types::ast::PropKey;
use prop_types::ast::PropName;
use prop_types::ast::PropSig;
use prop_types::ast::RefName;
use prop_types::ast::Tag;
use prop_types::ast::TypeKind;
use prop_types::ast::TypeNode;
use prop_types::resolver::infer_runtime_type;
use prop_types::resolver::resolve_indexed_access;
use prop_types::resolver::resolve_props;
use prop_types::table::build_props_type;
use prop_types::table::resolve_prop_table;
use prop_types::table::DEFAULT_FUEL;

fn node(kind: TypeKind) -> TypeNode {
    TypeNode { span: 0, kind }
}

fn kw(k: Keyword) -> TypeNode {
    node(TypeKind::Keyword(k))
}

fn str_lit(s: &str) -> TypeNode {
    node(TypeKind::Lit(Lit::StrLit(s.to_owned())))
}

fn local_ref(name: &str, scope: u32) -> TypeNode {
    node(TypeKind::Ref(
        RefName { sym: name.to_owned(), scope, unresolved: false },
        Vec::new(),
    ))
}

fn builtin_ref(name: &str, args: Vec<TypeNode>) -> TypeNode {
    node(TypeKind::Ref(RefName { sym: name.to_owned(), scope: 0, unresolved: true }, args))
}

fn prop(name: &str, ty: TypeNode) -> Member {
    Member::Property(PropSig {
        key: PropKey::Ident(name.to_owned()),
        key_span: 0,
        optional: false,
        type_ann: Some(Box::new(ty)),
    })
}

fn opt_prop(name: &str, ty: TypeNode) -> Member {
    Member::Property(PropSig {
        key: PropKey::Ident(name.to_owned()),
        key_span: 0,
        optional: true,
        type_ann: Some(Box::new(ty)),
    })
}

fn obj(members: Vec<Member>) -> TypeNode {
    node(TypeKind::Object(members))
}

fn empty_index() -> DeclIndex {
    DeclIndex { aliases: Vec::new(), interfaces: Vec::new() }
}

fn resolve(idx: &DeclIndex, t: &TypeNode) -> (Vec<PropDescriptor>, Vec<Diagnostic>) {
    let mut diags: Vec<Diagnostic> = Vec::new();
    let table = build_props_type(idx, t, &mut diags);
    (table, diags)
}

fn tags_of(idx: &DeclIndex, t: &TypeNode) -> Vec<Option<Tag>> {
    let mut diags: Vec<Diagnostic> = Vec::new();
    infer_runtime_type(idx, t, DEFAULT_FUEL, &mut diags).to_tags()
}

fn ident(name: &str) -> PropName {
    PropName::Ident(name.to_owned())
}

// ----- runtime-tag mapping -----

#[test]
fn tag_of_string_keyword() {
    assert_eq!(tags_of(&empty_index(), &kw(Keyword::KwString)), vec![Some(Tag::TString)]);
}

#[test]
fn tag_of_number_keyword() {
    assert_eq!(tags_of(&empty_index(), &kw(Keyword::KwNumber)), vec![Some(Tag::TNumber)]);
}

#[test]
fn tag_of_string_array() {
    let arr = node(TypeKind::Array(Box::new(kw(Keyword::KwString))));
    assert_eq!(tags_of(&empty_index(), &arr), vec![Some(Tag::TArray)]);
}

#[test]
fn tag_of_function_type() {
    assert_eq!(tags_of(&empty_index(), &node(TypeKind::FnOrCtor)), vec![Some(Tag::TFunction)]);
}

#[test]
fn tag_of_string_literal() {
    assert_eq!(tags_of(&empty_index(), &str_lit("x")), vec![Some(Tag::TString)]);
}

#[test]
fn tag_of_null_keyword_is_absent_marker() {
    assert_eq!(tags_of(&empty_index(), &kw(Keyword::KwNull)), vec![None]);
}

#[test]
fn tags_of_string_or_null_keep_order() {
    let u = node(TypeKind::Union(vec![kw(Keyword::KwString), kw(Keyword::KwNull)]));
    assert_eq!(tags_of(&empty_index(), &u), vec![Some(Tag::TString), None]);
}

#[test]
fn duplicate_branch_tags_collapse() {
    let u = node(TypeKind::Union(vec![kw(Keyword::KwString), str_lit("y")]));
    assert_eq!(tags_of(&empty_index(), &u), vec![Some(Tag::TString)]);
}

#[test]
fn tag_of_builtin_value_names() {
    assert_eq!(tags_of(&empty_index(), &builtin_ref("Date", vec![])), vec![Some(Tag::TDate)]);
    assert_eq!(tags_of(&empty_index(), &builtin_ref("RegExp", vec![])), vec![Some(Tag::TRegExp)]);
    assert_eq!(
        tags_of(&empty_index(), &builtin_ref("Promise", vec![kw(Keyword::KwString)])),
        vec![Some(Tag::TPromise)]
    );
}

#[test]
fn tag_of_case_conversion_operator() {
    let t = builtin_ref("Uppercase", vec![str_lit("x")]);
    assert_eq!(tags_of(&empty_index(), &t), vec![Some(Tag::TString)]);
}

#[test]
fn tag_of_nonnullable_removes_absent_marker() {
    let inner = node(TypeKind::Union(vec![kw(Keyword::KwString), kw(Keyword::KwNull)]));
    let t = builtin_ref("NonNullable", vec![inner]);
    assert_eq!(tags_of(&empty_index(), &t), vec![Some(Tag::TString)]);
}

#[test]
fn tag_of_nonnullable_on_null_falls_back_to_object() {
    let t = builtin_ref("NonNullable", vec![kw(Keyword::KwNull)]);
    assert_eq!(tags_of(&empty_index(), &t), vec![Some(Tag::TObject)]);
}

#[test]
fn tag_of_extract_takes_second_argument() {
    let t = builtin_ref("Extract", vec![kw(Keyword::KwString), kw(Keyword::KwBoolean)]);
    assert_eq!(tags_of(&empty_index(), &t), vec![Some(Tag::TBoolean)]);
}

// ----- resolution of object shapes and tables -----

#[test]
fn simple_object_table() {
    let t = obj(vec![prop("a", kw(Keyword::KwString)), opt_prop("b", kw(Keyword::KwNumber))]);
    let (table, diags) = resolve(&empty_index(), &t);
    assert!(diags.is_empty());
    assert_eq!(table.len(), 2);
    assert_eq!(table[0].name, ident("a"));
    assert_eq!(table[0].tags, vec![Some(Tag::TString)]);
    assert!(table[0].required);
    assert_eq!(table[1].name, ident("b"));
    assert_eq!(table[1].tags, vec![Some(Tag::TNumber)]);
    assert!(!table[1].required);
}

#[test]
fn method_and_untyped_property() {
    let t = obj(vec![
        Member::Method(MethodSig {
            key: PropKey::Ident("go".to_owned()),
            key_span: 0,
            optional: false,
        }),
        Member::Property(PropSig {
            key: PropKey::Ident("loose".to_owned()),
            key_span: 0,
            optional: false,
            type_ann: None,
        }),
    ]);
    let (table, diags) = resolve(&empty_index(), &t);
    assert!(diags.is_empty());
    assert_eq!(table[0].name, ident("go"));
    assert_eq!(table[0].tags, vec![Some(Tag::TFunction)]);
    assert_eq!(table[1].name, ident("loose"));
    assert_eq!(table[1].tags, vec![None]);
}

#[test]
fn resolving_twice_yields_identical_tables() {
    let mut aliases = Vec::new();
    aliases.push(AliasDecl { name: "T".to_owned(), scope: 1, ty: obj(vec![prop("a", kw(Keyword::KwString))]) });
    let idx = DeclIndex { aliases, interfaces: Vec::new() };
    let t = node(TypeKind::Union(vec![local_ref("T", 1), obj(vec![opt_prop("b", kw(Keyword::KwNumber))])]));
    let (t1, d1) = resolve(&idx, &t);
    let (t2, d2) = resolve(&idx, &t);
    assert_eq!(t1, t2);
    assert_eq!(d1, d2);
}

#[test]
fn alias_reference_matches_inline_object() {
    let inline = obj(vec![prop("a", kw(Keyword::KwString))]);
    let mut aliases = Vec::new();
    aliases.push(AliasDecl { name: "T".to_owned(), scope: 1, ty: obj(vec![prop("a", kw(Keyword::KwString))]) });
    let idx = DeclIndex { aliases, interfaces: Vec::new() };
    let (by_name, d1) = resolve(&idx, &local_ref("T", 1));
    let (direct, d2) = resolve(&idx, &inline);
    assert_eq!(by_name, direct);
    assert!(d1.is_empty() && d2.is_empty());
}

#[test]
fn interface_extension_flattens_parent_members() {
    let mut interfaces = Vec::new();
    interfaces.push(InterfaceDecl {
        name: "A".to_owned(),
        scope: 1,
        members: vec![prop("a", kw(Keyword::KwString))],
        extends: Vec::new(),
    });
    interfaces.push(InterfaceDecl {
        name: "B".to_owned(),
        scope: 1,
        members: vec![prop("b", kw(Keyword::KwNumber))],
        extends: vec![RefName { sym: "A".to_owned(), scope: 1, unresolved: false }],
    });
    let idx = DeclIndex { aliases: Vec::new(), interfaces };
    let (table, diags) = resolve(&idx, &local_ref("B", 1));
    assert!(diags.is_empty());
    // Own members come first, inherited members after them.
    assert_eq!(table.len(), 2);
    assert_eq!(table[0].name, ident("b"));
    assert_eq!(table[0].tags, vec![Some(Tag::TNumber)]);
    assert_eq!(table[1].name, ident("a"));
    assert_eq!(table[1].tags, vec![Some(Tag::TString)]);
}

#[test]
fn partial_downgrades_every_property() {
    let t = builtin_ref(
        "Partial",
        vec![obj(vec![prop("a", kw(Keyword::KwString)), opt_prop("b", kw(Keyword::KwNumber))])],
    );
    let (table, diags) = resolve(&empty_index(), &t);
    assert!(diags.is_empty());
    assert_eq!(table.len(), 2);
    assert!(table.iter().all(|e| !e.required));
}

#[test]
fn required_upgrades_every_property() {
    let t = builtin_ref(
        "Required",
        vec![obj(vec![prop("a", kw(Keyword::KwString)), opt_prop("b", kw(Keyword::KwNumber))])],
    );
    let (table, diags) = resolve(&empty_index(), &t);
    assert!(diags.is_empty());
    assert_eq!(table.len(), 2);
    assert!(table.iter().all(|e| e.required));
}

#[test]
fn pick_and_omit_partition_the_names() {
    let base = || {
        obj(vec![
            prop("a", kw(Keyword::KwString)),
            prop("b", kw(Keyword::KwNumber)),
            prop("c", kw(Keyword::KwBoolean)),
        ])
    };
    let keys = || node(TypeKind::Union(vec![str_lit("a"), str_lit("b")]));
    let picked = builtin_ref("Pick", vec![base(), keys()]);
    let omitted = builtin_ref("Omit", vec![base(), keys()]);
    let (pt, pd) = resolve(&empty_index(), &picked);
    let (ot, od) = resolve(&empty_index(), &omitted);
    assert!(pd.is_empty() && od.is_empty());
    let pn: Vec<&PropName> = pt.iter().map(|e| &e.name).collect();
    let on: Vec<&PropName> = ot.iter().map(|e| &e.name).collect();
    assert_eq!(pn, vec![&ident("a"), &ident("b")]);
    assert_eq!(on, vec![&ident("c")]);
    for n in &pn {
        assert!(!on.contains(n));
    }
}

#[test]
fn duplicate_names_merge_tags_and_optionality() {
    let t = node(TypeKind::Union(vec![
        obj(vec![prop("a", kw(Keyword::KwString))]),
        obj(vec![opt_prop("a", kw(Keyword::KwNumber))]),
    ]));
    let (table, diags) = resolve(&empty_index(), &t);
    assert!(diags.is_empty());
    assert_eq!(table.len(), 1);
    assert_eq!(table[0].name, ident("a"));
    assert_eq!(table[0].tags, vec![Some(Tag::TString), Some(Tag::TNumber)]);
    assert!(!table[0].required);
}

// ----- indexed access -----

fn point_index() -> DeclIndex {
    let mut interfaces = Vec::new();
    interfaces.push(InterfaceDecl {
        name: "P".to_owned(),
        scope: 1,
        members: vec![prop("a", kw(Keyword::KwString)), prop("b", kw(Keyword::KwNumber))],
        extends: Vec::new(),
    });
    DeclIndex { aliases: Vec::new(), interfaces }
}

#[test]
fn indexed_access_by_literal_key() {
    let idx = point_index();
    let mut diags: Vec<Diagnostic> = Vec::new();
    let r = resolve_indexed_access(&idx, &local_ref("P", 1), &str_lit("a"), DEFAULT_FUEL, &mut diags);
    assert!(diags.is_empty());
    let got = r.expect("the access resolves");
    assert!(matches!(got.kind, TypeKind::Keyword(Keyword::KwString)));
}

#[test]
fn indexed_access_by_string_keyword_unions_member_types() {
    let idx = point_index();
    let mut diags: Vec<Diagnostic> = Vec::new();
    let r = resolve_indexed_access(
        &idx,
        &local_ref("P", 1),
        &kw(Keyword::KwString),
        DEFAULT_FUEL,
        &mut diags,
    );
    assert!(diags.is_empty());
    let got = r.expect("the access resolves");
    match got.kind {
        TypeKind::Union(branches) => {
            assert_eq!(branches.len(), 2);
            assert!(matches!(branches[0].kind, TypeKind::Keyword(Keyword::KwString)));
            assert!(matches!(branches[1].kind, TypeKind::Keyword(Keyword::KwNumber)));
        },
        _ => panic!("expected a union of the member types"),
    }
}

#[test]
fn tuple_access_by_position_and_number_keyword() {
    let tup = node(TypeKind::Tuple(vec![kw(Keyword::KwString), kw(Keyword::KwBoolean)]));
    let pos = node(TypeKind::Lit(Lit::NumLit(1)));
    let mut diags: Vec<Diagnostic> = Vec::new();
    let r = resolve_indexed_access(&empty_index(), &tup, &pos, DEFAULT_FUEL, &mut diags);
    assert!(matches!(r.expect("in range").kind, TypeKind::Keyword(Keyword::KwBoolean)));
    let out = node(TypeKind::Lit(Lit::NumLit(9)));
    let r2 = resolve_indexed_access(&empty_index(), &tup, &out, DEFAULT_FUEL, &mut diags);
    assert!(r2.is_none());
    let r3 = resolve_indexed_access(&empty_index(), &tup, &kw(Keyword::KwNumber), DEFAULT_FUEL, &mut diags);
    match r3.expect("number keyword").kind {
        TypeKind::Union(branches) => assert_eq!(branches.len(), 2),
        _ => panic!("expected a union of the element types"),
    }
    assert!(diags.is_empty());
}

#[test]
fn array_builtin_access_returns_element_type() {
    let arr = builtin_ref("Array", vec![kw(Keyword::KwBoolean)]);
    let mut diags: Vec<Diagnostic> = Vec::new();
    let r = resolve_indexed_access(&empty_index(), &arr, &kw(Keyword::KwNumber), DEFAULT_FUEL, &mut diags);
    assert!(matches!(r.expect("element type").kind, TypeKind::Keyword(Keyword::KwBoolean)));
    assert!(diags.is_empty());
}

#[test]
fn indexed_access_node_resolves_into_properties() {
    let mut aliases = Vec::new();
    aliases.push(AliasDecl {
        name: "Shape".to_owned(),
        scope: 1,
        ty: obj(vec![prop("inner", obj(vec![prop("x", kw(Keyword::KwNumber))]))]),
    });
    let idx = DeclIndex { aliases, interfaces: Vec::new() };
    let access = node(TypeKind::IndexedAccess(
        Box::new(local_ref("Shape", 1)),
        Box::new(str_lit("inner")),
    ));
    let (table, diags) = resolve(&idx, &access);
    assert!(diags.is_empty());
    assert_eq!(table.len(), 1);
    assert_eq!(table[0].name, ident("x"));
    assert_eq!(table[0].tags, vec![Some(Tag::TNumber)]);
}

// ----- error conditions -----

#[test]
fn cross_module_reference_reports_once_and_keeps_siblings() {
    let t = node(TypeKind::Intersection(vec![
        obj(vec![prop("a", kw(Keyword::KwString))]),
        TypeNode {
            span: 7,
            kind: TypeKind::Ref(
                RefName { sym: "Foreign".to_owned(), scope: 9, unresolved: false },
                Vec::new(),
            ),
        },
    ]));
    let (table, diags) = resolve(&empty_index(), &t);
    assert_eq!(diags.len(), 1);
    assert_eq!(diags[0], Diagnostic { span: 7, kind: DiagKind::CrossModule });
    assert_eq!(table.len(), 1);
    assert_eq!(table[0].name, ident("a"));
}

#[test]
fn unknown_builtin_reports_unresolved_reference() {
    let t = TypeNode {
        span: 3,
        kind: TypeKind::Ref(
            RefName { sym: "Wobble".to_owned(), scope: 0, unresolved: true },
            Vec::new(),
        ),
    };
    let (table, diags) = resolve(&empty_index(), &t);
    assert!(table.is_empty());
    assert_eq!(diags, vec![Diagnostic { span: 3, kind: DiagKind::UnresolvedRef }]);
}

#[test]
fn unsupported_index_key_is_reported() {
    let t = builtin_ref(
        "Pick",
        vec![obj(vec![prop("a", kw(Keyword::KwString))]), TypeNode {
            span: 5,
            kind: TypeKind::Keyword(Keyword::KwNumber),
        }],
    );
    let (table, diags) = resolve(&empty_index(), &t);
    assert!(table.is_empty());
    assert_eq!(diags, vec![Diagnostic { span: 5, kind: DiagKind::UnsupportedIndexKey }]);
}

#[test]
fn non_object_shape_is_unresolvable() {
    let t = TypeNode { span: 11, kind: TypeKind::Keyword(Keyword::KwString) };
    let (table, diags) = resolve(&empty_index(), &t);
    assert!(table.is_empty());
    assert_eq!(diags, vec![Diagnostic { span: 11, kind: DiagKind::UnresolvableType }]);
}

#[test]
fn unsupported_prop_key_gets_placeholder_name() {
    let t = obj(vec![Member::Property(PropSig {
        key: PropKey::Unsupported,
        key_span: 13,
        optional: false,
        type_ann: Some(Box::new(kw(Keyword::KwString))),
    })]);
    let (table, diags) = resolve(&empty_index(), &t);
    assert_eq!(diags, vec![Diagnostic { span: 13, kind: DiagKind::UnsupportedPropKey }]);
    assert_eq!(table.len(), 1);
    assert_eq!(table[0].name, ident(""));
}

#[test]
fn circular_alias_reports_circular_reference() {
    let mut aliases = Vec::new();
    aliases.push(AliasDecl { name: "Loop".to_owned(), scope: 1, ty: local_ref("Loop", 1) });
    let idx = DeclIndex { aliases, interfaces: Vec::new() };
    let (table, diags) = resolve(&idx, &local_ref("Loop", 1));
    assert!(table.is_empty());
    assert!(diags.iter().any(|d| d.kind == DiagKind::CircularRef));
}

#[test]
fn setters_and_signatures_are_dropped_from_properties() {
    let idx = empty_index();
    let t = obj(vec![
        Member::Setter,
        Member::CallSig,
        Member::CtorSig,
        Member::IndexSig(Some(Box::new(kw(Keyword::KwString)))),
        prop("kept", kw(Keyword::KwBoolean)),
    ]);
    let mut diags: Vec<Diagnostic> = Vec::new();
    let members = resolve_props(&idx, &t, DEFAULT_FUEL, &mut diags);
    assert_eq!(members.len(), 1);
    assert!(diags.is_empty());
    // At the same time the call/construct signatures drive the inferred
    // category of the object shape itself.
    let tags = tags_of(&idx, &t);
    assert_eq!(tags, vec![Some(Tag::TObject), Some(Tag::TFunction)]);
}

#[test]
fn getter_contributes_like_a_property() {
    let t = obj(vec![Member::Getter(PropSig {
        key: PropKey::Ident("g".to_owned()),
        key_span: 0,
        optional: false,
        type_ann: Some(Box::new(kw(Keyword::KwBoolean))),
    })]);
    let (table, diags) = resolve(&empty_index(), &t);
    assert!(diags.is_empty());
    assert_eq!(table.len(), 1);
    assert_eq!(table[0].name, ident("g"));
    assert_eq!(table[0].tags, vec![Some(Tag::TBoolean)]);
}

#[test]
fn index_signature_and_method_join_string_keyword_access() {
    let t = obj(vec![
        prop("a", kw(Keyword::KwString)),
        Member::IndexSig(Some(Box::new(kw(Keyword::KwBoolean)))),
        Member::Method(MethodSig {
            key: PropKey::Ident("go".to_owned()),
            key_span: 0,
            optional: false,
        }),
    ]);
    let mut diags: Vec<Diagnostic> = Vec::new();
    let r = resolve_indexed_access(&empty_index(), &t, &kw(Keyword::KwString), DEFAULT_FUEL, &mut diags);
    assert!(diags.is_empty());
    match r.expect("the access resolves").kind {
        TypeKind::Union(branches) => {
            assert_eq!(branches.len(), 3);
            assert!(matches!(branches[0].kind, TypeKind::Keyword(Keyword::KwString)));
            assert!(matches!(branches[1].kind, TypeKind::Keyword(Keyword::KwBoolean)));
            match &branches[2].kind {
                TypeKind::Ref(name, _) => assert_eq!(name.sym, "Function"),
                _ => panic!("expected the synthesized function reference"),
            }
        },
        _ => panic!("expected a union of the member value types"),
    }
}

#[test]
fn diagnostic_messages() {
    assert_eq!(
        DiagKind::UnresolvedRef.message(),
        "Unresolvable type reference or unsupported built-in utility type."
    );
    assert_eq!(DiagKind::CrossModule.message(), "Types from other modules can't be resolved.");
    assert_eq!(DiagKind::UnsupportedIndexKey.message(), "Unsupported type as index key.");
    assert_eq!(DiagKind::UnresolvableType.message(), "Unresolvable type.");
    assert_eq!(DiagKind::UnsupportedPropKey.message(), "Unsupported prop key.");
    assert_eq!(DiagKind::CircularRef.message(), "Circular type reference.");
}

#[test]
fn identifier_and_string_keys_stay_distinct_names() {
    let t = obj(vec![
        prop("a", kw(Keyword::KwString)),
        Member::Property(PropSig {
            key: PropKey::StrKey("a".to_owned()),
            key_span: 0,
            optional: false,
            type_ann: Some(Box::new(kw(Keyword::KwNumber))),
        }),
    ]);
    let (table, diags) = resolve(&empty_index(), &t);
    assert!(diags.is_empty());
    assert_eq!(table.len(), 2);
    assert_eq!(table[0].name, ident("a"));
    assert_eq!(table[1].name, PropName::StrName("a".to_owned()));
}

#[test]
fn failed_indexed_access_reports_unresolvable_type() {
    // Indexing a keyword type yields nothing, so the enclosing access
    // node is reported and contributes no members.
    let access = TypeNode {
        span: 21,
        kind: TypeKind::IndexedAccess(
            Box::new(kw(Keyword::KwBoolean)),
            Box::new(str_lit("a")),
        ),
    };
    let (table, diags) = resolve(&empty_index(), &access);
    assert!(table.is_empty());
    assert_eq!(diags, vec![Diagnostic { span: 21, kind: DiagKind::UnresolvableType }]);
}

#[test]
fn parenthesized_and_optional_wrappers_unwrap() {
    let inner = obj(vec![prop("a", kw(Keyword::KwString))]);
    let t = node(TypeKind::Paren(Box::new(node(TypeKind::Optional(Box::new(inner))))));
    let (table, diags) = resolve(&empty_index(), &t);
    assert!(diags.is_empty());
    assert_eq!(table.len(), 1);
    assert_eq!(table[0].name, ident("a"));
}

#[test]
fn aliased_key_set_resolves_through_the_alias() {
    let mut aliases = Vec::new();
    aliases.push(AliasDecl {
        name: "Keys".to_owned(),
        scope: 1,
        ty: node(TypeKind::Union(vec![str_lit("a"), str_lit("b")])),
    });
    let idx = DeclIndex { aliases, interfaces: Vec::new() };
    let t = builtin_ref(
        "Pick",
        vec![
            obj(vec![
                prop("a", kw(Keyword::KwString)),
                prop("b", kw(Keyword::KwNumber)),
                prop("c", kw(Keyword::KwBoolean)),
            ]),
            local_ref("Keys", 1),
        ],
    );
    let (table, diags) = resolve(&idx, &t);
    assert!(diags.is_empty());
    let names: Vec<&PropName> = table.iter().map(|e| &e.name).collect();
    assert_eq!(names, vec![&ident("a"), &ident("b")]);
}

#[test]
fn explicit_fuel_matches_default_entry_point() {
    let t = obj(vec![prop("a", kw(Keyword::KwString))]);
    let mut d1: Vec<Diagnostic> = Vec::new();
    let mut d2: Vec<Diagnostic> = Vec::new();
    let a = build_props_type(&empty_index(), &t, &mut d1);
    let b = resolve_prop_table(&empty_index(), &t, DEFAULT_FUEL, &mut d2);
    assert_eq!(a, b);
    assert_eq!(d1, d2);
}
