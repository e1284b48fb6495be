use quote::ToTokens;
use syn::spanned::Spanned;
use std::collections::HashSet;
use swig_typemap::attrs::{is_wrong_cfg_pointer_width, my_syn_attrs_to_hashmap, MyAttrs};
use swig_typemap::decl::{
    Attribute, ImplItem, Item, ItemImpl, ItemKind, Lit, Meta, NestedMeta, SyntaxError,
    TraitArgument, TraitArguments, TraitPath, TraitSegment,
};
use swig_typemap::name_map::NameMap;
use swig_typemap::normalize::normalize_ty_lifetimes;
use swig_typemap::parse::{
    do_parse, extract_trait_param_type, get_foreigner_hint_for_generic, is_ident_ignore_params,
    item_impl_path_is, parse_foreign_types_map_mod, parse_ty_with_given_span,
    unpack_first_associated_type, ForeignHintVariant,
};
use swig_typemap::registry::TypeMap;
use swig_typemap::rule::{GenericTypeConv, RegisteredTypes, TypeLookup};
use swig_typemap::rust_type::RustType;
use swig_typemap::source::{report_parse_error, DiagnosticError, Span};
use swig_typemap::syntax::parse_type;
use swig_typemap::trait_bounds::{Generics, TypeParam, TypeParamBound, WherePredicate};
use swig_typemap::type_expr::TypeExpr;

fn tokens_of<T: ToTokens>(t: &T) -> String {
    t.into_token_stream().to_string()
}

fn span_of<T: Spanned>(t: &T) -> Span {
    let (start, end) = (t.span().start(), t.span().end());
    Span::new(start.line, start.column, end.line, end.column)
}

fn lower_type(ty: &syn::Type) -> TypeExpr {
    parse_type(&tokens_of(ty)).unwrap()
}

fn lower_lit(lit: &syn::Lit) -> Lit {
    Lit {
        token: tokens_of(lit),
        str_value: match lit {
            syn::Lit::Str(s) => Some(s.value()),
            _ => None,
        },
    }
}

fn lower_meta(meta: &syn::Meta) -> Meta {
    match meta {
        syn::Meta::Word(ident) => Meta::Word { ident: ident.to_string() },
        syn::Meta::List(list) => Meta::List {
            ident: list.ident.to_string(),
            nested: list
                .nested
                .iter()
                .map(|n| match n {
                    syn::NestedMeta::Meta(syn::Meta::NameValue(nv)) => {
                        NestedMeta::NameValue { ident: nv.ident.to_string(), lit: lower_lit(&nv.lit) }
                    }
                    _ => NestedMeta::Other,
                })
                .collect(),
        },
        syn::Meta::NameValue(nv) => {
            Meta::NameValue { ident: nv.ident.to_string(), lit: lower_lit(&nv.lit) }
        }
    }
}

fn lower_attrs(attrs: &[syn::Attribute]) -> Vec<Attribute> {
    attrs
        .iter()
        .map(|a| Attribute {
            span: span_of(a),
            path: tokens_of(&a.path),
            meta: match a.parse_meta() {
                Ok(meta) => Ok(lower_meta(&meta)),
                Err(e) => Err(SyntaxError { span: Span::call_site(), message: e.to_string() }),
            },
            text: tokens_of(a),
        })
        .collect()
}

fn lower_bounds(
    bounds: &syn::punctuated::Punctuated<syn::TypeParamBound, syn::token::Add>,
) -> Vec<TypeParamBound> {
    bounds
        .iter()
        .map(|b| match b {
            syn::TypeParamBound::Trait(t) => TypeParamBound::Trait(tokens_of(&t.path)),
            syn::TypeParamBound::Lifetime(l) => TypeParamBound::Lifetime(l.ident.to_string()),
        })
        .collect()
}

fn lower_generics(generics: &syn::Generics) -> Generics {
    Generics {
        span: Span::call_site(),
        type_params: generics
            .type_params()
            .map(|p| TypeParam { ident: p.ident.to_string(), bounds: lower_bounds(&p.bounds) })
            .collect(),
        where_clause: generics.where_clause.as_ref().map(|w| {
            w.predicates
                .iter()
                .map(|p| match p {
                    syn::WherePredicate::Type(t) => WherePredicate::Type {
                        bounded_ty: lower_type(&t.bounded_ty),
                        bounds: lower_bounds(&t.bounds),
                    },
                    _ => WherePredicate::Other,
                })
                .collect()
        }),
    }
}

fn lower_trait_path(path: &syn::Path) -> TraitPath {
    TraitPath {
        span: Span::call_site(),
        leading_colon: path.leading_colon.is_some(),
        segments: path
            .segments
            .iter()
            .map(|s| TraitSegment {
                ident: s.ident.to_string(),
                arguments_span: Span::call_site(),
                arguments: match &s.arguments {
                    syn::PathArguments::None => TraitArguments::Absent,
                    syn::PathArguments::AngleBracketed(a) => TraitArguments::AngleBracketed {
                        args: a
                            .args
                            .iter()
                            .map(|arg| TraitArgument {
                                span: Span::call_site(),
                                ty: match arg {
                                    syn::GenericArgument::Type(t) => Some(lower_type(t)),
                                    _ => None,
                                },
                            })
                            .collect(),
                    },
                    syn::PathArguments::Parenthesized(_) => TraitArguments::Parenthesized,
                },
            })
            .collect(),
    }
}

fn lower_impl(item: &syn::ItemImpl) -> ItemImpl {
    ItemImpl {
        trait_: item.trait_.as_ref().map(|t| lower_trait_path(&t.1)),
        generics: lower_generics(&item.generics),
        self_ty: lower_type(&item.self_ty),
        items: item
            .items
            .iter()
            .map(|i| match i {
                syn::ImplItem::Type(t) => {
                    ImplItem::Type { ident: t.ident.to_string(), ty: lower_type(&t.ty) }
                }
                _ => ImplItem::Other,
            })
            .collect(),
    }
}

fn lower_item(item: &syn::Item) -> Item {
    let (attrs, kind) = match item {
        syn::Item::Mod(m) => (lower_attrs(&m.attrs), ItemKind::Mod { ident: m.ident.to_string() }),
        syn::Item::Impl(i) => (lower_attrs(&i.attrs), ItemKind::Impl(lower_impl(i))),
        syn::Item::Trait(t) => {
            (lower_attrs(&t.attrs), ItemKind::Trait { ident: t.ident.to_string() })
        }
        syn::Item::Macro(m) => (lower_attrs(&m.attrs), ItemKind::Macro),
        _ => (Vec::new(), ItemKind::Other),
    };
    Item { span: span_of(item), attrs, kind, tokens: tokens_of(item) }
}

fn lower_file(code: &str) -> Vec<Item> {
    syn::parse_str::<syn::File>(code).unwrap().items.iter().map(lower_item).collect()
}

fn parse_code(name: &str, code: &str, width: usize) -> Result<TypeMap, DiagnosticError> {
    do_parse(name, &lower_file(code), width, NameMap::new())
}

fn parse(name: &str, code: &str, width: usize, codes: NameMap<String>) -> TypeMap {
    match do_parse(name, &lower_file(code), width, codes) {
        Ok(map) => map,
        Err(err) => panic!("{}", report_parse_error(name, code, &err)),
    }
}

fn impl_from(code: &str) -> syn::ItemImpl {
    syn::parse_str::<syn::ItemImpl>(code).unwrap()
}

fn str_to_rust_ty(code: &str) -> RustType {
    let ty = parse_type(code).unwrap();
    let name = normalize_ty_lifetimes(&ty);
    RustType::new(ty, &name)
}

fn apply_template(template: &str, var: &str, to_type: &str) -> String {
    let line = template
        .replace("{to_var}", var)
        .replace("{from_var}", var)
        .replace("{to_var_type}", to_type);
    format!("    {}\n", line)
}

fn fixed_edge_code(map: &TypeMap, from: &str, to: &str) -> Option<String> {
    let from_index = *map.rust_names_map.get(from)?;
    let to_index = *map.rust_names_map.get(to)?;
    let mut i = 0;
    while let Some(edge) = map.conv_graph.edge(i) {
        if edge.from == from_index && edge.to == to_index {
            return Some(edge.edge.code_template.clone());
        }
        i += 1;
    }
    None
}

/// Walks from `from` to the type named like `to`: over a fixed conversion
/// where one leads to the goal, over the first generic rule that applies otherwise.
fn convert_rust_types(
    map: &TypeMap,
    known: &RegisteredTypes,
    from: &RustType,
    to: &RustType,
    var: &str,
) -> Option<String> {
    let mut code = String::new();
    let mut current = RustType::new(from.ty.clone(), from.name());
    for _ in 0..8 {
        if current.name() == to.name() {
            return Some(code);
        }
        if let Some(template) = fixed_edge_code(map, current.name(), to.name()) {
            code.push_str(&apply_template(&template, var, to.name()));
            return Some(code);
        }
        let mut next = None;
        for rule in &map.generic_edges {
            if let Some((ty, name)) = rule.is_conv_possible(&current, Some(to), known) {
                code.push_str(&apply_template(&rule.code_template, var, name.as_str()));
                next = Some(RustType::new(ty, name.as_str()));
                break;
            }
        }
        current = next?;
    }
    None
}

fn table_values(table: &MyAttrs) -> Vec<(String, Vec<String>)> {
    let mut out = Vec::new();
    let mut i = 0;
    while let Some((name, values)) = table.entry(i) {
        out.push((name.to_string(), values.iter().map(|v| v.value.clone()).collect()));
        i += 1;
    }
    out
}

#[test]
fn test_parsing_only_types_map_mod() {
    let types_map = parse(
        "foreign_mod",
        r#"
mod swig_foreign_types_map {
    #![swig_foreigner_type="boolean"]
    #![swig_rust_type="jboolean"]
    #![swig_foreigner_type="int"]
    #![swig_rust_type="jint"]
}
"#,
        64,
        NameMap::new(),
    );

    assert_eq!(
        {
            let mut set = HashSet::new();
            set.insert(("boolean".to_string(), "jboolean".to_string()));
            set.insert(("int".to_string(), "jint".to_string()));
            set
        },
        {
            let mut set = HashSet::new();
            for i in 0..types_map.foreign_names_map.len() {
                let (k, v) = types_map.foreign_names_map.entry(i);
                set.insert((
                    k.to_string(),
                    types_map.conv_graph.node(*v).unwrap().name().to_string(),
                ));
            }
            set
        }
    );
}

#[test]
fn test_parse_foreign_types_map_mod() {
    let mod_item = syn::parse_str::<syn::ItemMod>(
        r#"
mod swig_foreign_types_map {
    #![swig_foreigner_type="boolean"]
    #![swig_rust_type="jboolean"]
    #![swig_foreigner_type="short"]
    #![swig_rust_type="jshort"]
    #![swig_foreigner_type="int"]
    #![swig_rust_type="jint"]
}
"#,
    )
    .unwrap();
    let map = parse_foreign_types_map_mod(&lower_attrs(&mod_item.attrs)).ok().unwrap();
    assert_eq!(
        vec![
            ("boolean".to_string(), "jboolean".to_string()),
            ("int".to_string(), "jint".to_string()),
            ("short".to_string(), "jshort".to_string()),
        ],
        {
            let mut ret = map
                .into_iter()
                .map(|v| (v.foreign_name.to_string(), v.rust_name.to_string()))
                .collect::<Vec<_>>();
            ret.sort_by(|a, b| a.0.cmp(&b.0));
            ret
        }
    );
}

#[test]
fn test_double_map_err() {
    let err = parse_code(
        "double_map_err",
        r#"
mod swig_foreign_types_map {}
mod swig_foreign_types_map {}
"#,
        64,
    )
    .err()
    .unwrap();
    assert_eq!(err.message(), "Should only one swig_foreign_types_map per types map");
    assert_eq!(err.notes_len(), 1);
    assert_eq!(err.note(0).message, "Previously defined here");
    assert!(!err.is_internal());
}

#[test]
fn test_parse_cfg_target_width() {
    let item_impl = impl_from(
        r#"
        #[swig_to_foreigner_hint = "T"]
        #[cfg(target_pointer_width = "64")]
        impl SwigFrom<isize> for jlong {
            fn swig_from(x: isize, _: *mut JNIEnv) -> Self {
                x as jlong
            }
        }
        "#,
    );
    assert!(is_wrong_cfg_pointer_width(&lower_attrs(&item_impl.attrs), 32));
    assert!(!is_wrong_cfg_pointer_width(&lower_attrs(&item_impl.attrs), 64));
}

#[test]
fn test_my_syn_attrs_to_hashmap() {
    let item_impl = impl_from(
        r#"
        #[swig_to_foreigner_hint = "T"]
        #[cfg(target_pointer_width = "64")]
        impl SwigFrom<isize> for jlong {
            fn swig_from(x: isize, _: *mut JNIEnv) -> Self {
                x as jlong
            }
        }
        "#,
    );
    assert_eq!(
        vec![("swig_to_foreigner_hint".to_string(), vec!["T".to_string()])],
        table_values(&my_syn_attrs_to_hashmap(&lower_attrs(&item_impl.attrs)).ok().unwrap())
    );

    let item_impl = impl_from(
        r#"
        #[swig_to_foreigner_hint = "T"]
        #[swig_code = "let mut {to_var}: {to_var_type} = <{to_var_type}>::swig_from({from_var});"]
        #[cfg(target_pointer_width = "64")]
        impl SwigFrom<isize> for jlong {
            fn swig_from(x: isize, _: *mut JNIEnv) -> Self {
                x as jlong
            }
        }
        "#,
    );
    assert_eq!(
        {
            let mut v = vec![
                ("swig_to_foreigner_hint".to_string(), vec!["T".to_string()]),
                (
                    "swig_code".to_string(),
                    vec![
                        "let mut {to_var}: {to_var_type} = <{to_var_type}>::swig_from({from_var});"
                            .to_string(),
                    ],
                ),
            ];
            v.sort();
            v
        },
        {
            let mut v =
                table_values(&my_syn_attrs_to_hashmap(&lower_attrs(&item_impl.attrs)).ok().unwrap());
            v.sort();
            v
        }
    );
}

#[test]
fn test_extract_trait_param_type() {
    let trait_impl = impl_from(
        r#"
        impl<'bugaga> SwigFrom<jobject> for Option<&'bugaga str> {
            fn swig_from(x: jobject) -> Self {
                unimplemented!();
            }
        }
        "#,
    );
    let trait_impl_path = lower_trait_path(&trait_impl.trait_.unwrap().1);

    assert_eq!(
        parse_type("jobject").unwrap(),
        *extract_trait_param_type(&trait_impl_path).ok().unwrap()
    );
}

#[test]
fn test_get_foreigner_hint_for_generic() {
    let trait_impl = impl_from(
        r#"
        #[swig_to_foreigner_hint = "T"]
        impl<T: SwigForeignClass> SwigFrom<T> for *mut ::std::os::raw::c_void {
            fn swig_from(x: T) -> Self {
                unimplemented!();
            }
        }
        "#,
    );
    let my_attrs = my_syn_attrs_to_hashmap(&lower_attrs(&trait_impl.attrs)).ok().unwrap();
    assert_eq!(
        "T",
        get_foreigner_hint_for_generic(
            &lower_generics(&trait_impl.generics),
            &my_attrs,
            ForeignHintVariant::To
        )
        .ok()
        .unwrap()
        .unwrap()
    );
}

#[test]
fn test_unpack_first_associated_type() {
    let trait_impl = lower_impl(&impl_from(
        r#"
        impl<T> SwigDeref for Vec<T> {
            type Target = [T];
            fn swig_deref(&self) -> &Self::Target {
                &*self
            }
        }
        "#,
    ));
    assert_eq!(
        "[ T ]",
        swig_typemap::normalize::token_text(
            unpack_first_associated_type(&trait_impl.items, "Target").unwrap()
        )
    );
}

#[test]
fn test_parse_trait_with_code() {
    let conv_map = parse_code(
        "trait_with_code",
        r#"
#[allow(dead_code)]
#[swig_code = "let {to_var}: {to_var_type} = {from_var}.swig_into(env);"]
trait SwigInto<T> {
    fn swig_into(self, env: *mut JNIEnv) -> T;
}

impl SwigInto<bool> for jboolean {
    fn swig_into(self, _: *mut JNIEnv) -> bool {
        self != 0
    }
}

#[allow(dead_code)]
#[swig_code = "let {to_var}: {to_var_type} = <{to_var_type}>::swig_from({from_var}, env);"]
trait SwigFrom<T> {
    fn swig_from(T, env: *mut JNIEnv) -> Self;
}
impl SwigFrom<bool> for jboolean {
    fn swig_from(x: bool, _: *mut JNIEnv) -> Self {
        if x {
            1 as jboolean
        } else {
            0 as jboolean
        }
    }
}
"#,
        64,
    )
    .ok()
    .unwrap();
    let known = RegisteredTypes::new();

    let code = convert_rust_types(
        &conv_map,
        &known,
        &str_to_rust_ty("jboolean"),
        &str_to_rust_ty("bool"),
        "a0",
    )
    .unwrap();
    assert_eq!("    let a0: bool = a0.swig_into(env);\n".to_string(), code);

    let code = convert_rust_types(
        &conv_map,
        &known,
        &str_to_rust_ty("bool"),
        &str_to_rust_ty("jboolean"),
        "a0",
    )
    .unwrap();

    assert_eq!("    let a0: jboolean = <jboolean>::swig_from(a0, env);\n".to_string(), code);
}

#[test]
fn test_parse_deref() {
    let conv_map = parse_code(
        "deref_code",
        r#"
#[allow(dead_code)]
#[swig_code = "let {to_var}: {to_var_type} = {from_var}.swig_deref();"]
trait SwigDeref {
    type Target: ?Sized;
    fn swig_deref(&self) -> &Self::Target;
}

impl SwigDeref for String {
    type Target = str;
    fn swig_deref(&self) -> &str {
        &self
    }
}
"#,
        64,
    )
    .ok()
    .unwrap();

    let code = convert_rust_types(
        &conv_map,
        &RegisteredTypes::new(),
        &str_to_rust_ty("String"),
        &str_to_rust_ty("&str"),
        "a0",
    )
    .unwrap();
    assert_eq!("    let a0: & str = a0.swig_deref();\n".to_string(), code);
}

#[test]
fn test_parse_conv_impl_with_type_params() {
    let conv_map = parse_code(
        "trait_with_type_params_code",
        r#"
#[allow(dead_code)]
#[swig_code = "let {to_var}: {to_var_type} = <{to_var_type}>::swig_from({from_var}, env);"]
trait SwigFrom<T> {
    fn swig_from(T, env: *mut JNIEnv) -> Self;
}

#[allow(dead_code)]
#[swig_code = "let {to_var}: {to_var_type} = {from_var}.swig_deref();"]
trait SwigDeref {
    type Target: ?Sized;
    fn swig_deref(&self) -> &Self::Target;
}

impl<T: SwigForeignClass> SwigFrom<T> for jobject {
    fn swig_from(x: T, env: *mut JNIEnv) -> Self {
        object_to_jobject(x, <T>::jni_class_name(), env)
    }
}

impl<T> SwigDeref for Arc<Mutex<T>> {
    type Target = Mutex<T>;
    fn swig_deref(&self) -> &Mutex<T> {
        &self
    }
}

impl<'a, T> SwigFrom<&'a Mutex<T>> for MutexGuard<'a, T> {
    fn swig_from(m: &'a Mutex<T>, _: *mut JNIEnv) -> MutexGuard<'a, T> {
        m.lock().unwrap()
    }
}

impl<'a, T> SwigDeref for MutexGuard<'a, T> {
    type Target = T;
    fn swig_deref(&self) -> &T {
        &self
    }
}
"#,
        64,
    )
    .ok()
    .unwrap();

    let mut known = RegisteredTypes::new();
    known.add("Foo", str_to_rust_ty("Foo").implements("SwigForeignClass"));

    let code = convert_rust_types(
        &conv_map,
        &known,
        &str_to_rust_ty("Arc<Mutex<Foo>>"),
        &str_to_rust_ty("&Foo"),
        "a0",
    )
    .unwrap();
    assert_eq!(
        r#"    let a0: & Mutex < Foo > = a0.swig_deref();
    let a0: MutexGuard < Foo > = <MutexGuard < Foo >>::swig_from(a0, env);
    let a0: & Foo = a0.swig_deref();
"#
        .to_string(),
        code
    );
}

#[test]
fn test_parse_macros_conv() {
    let conv_map = parse_code(
        "macros",
        r#"
mod swig_foreign_types_map {
    #![swig_foreigner_type="byte"]
    #![swig_rust_type="jbyte"]
    #![swig_foreigner_type="short"]
    #![swig_rust_type="jshort"]
}

#[swig_code = "let {to_var}: {to_var_type} = <{to_var_type}>::swig_from({from_var}, env);"]
trait SwigFrom<T> {
    fn swig_from(T, env: *mut JNIEnv) -> Self;
}

impl SwigFrom<u8> for jshort {
    fn swig_from(x: u8, _: *mut JNIEnv) -> Self {
        x as jshort
    }
}


#[allow(unused_macros)]
#[swig_generic_arg = "T"]
#[swig_generic_arg = "E"]
#[swig_from = "Result<T, E>"]
#[swig_to = "T"]
#[swig_code = "let {to_var}: {to_var_type} = jni_unpack_return!({from_var}, env);"]
macro_rules! jni_unpack_return {
    ($result_value:expr, $default_value:expr, $env:ident) => {
        {
            let ret = match $result_value {
                Ok(x) => x,
                Err(msg) => {
                    jni_throw_exception($env, &msg);
                    return $default_value;
                }
            };
            ret
        }
    }
}
"#,
        64,
    )
    .ok()
    .unwrap();

    let mut known = RegisteredTypes::new();
    known.add("Foo", str_to_rust_ty("Foo"));

    let code = convert_rust_types(
        &conv_map,
        &known,
        &str_to_rust_ty("Result<Foo, String>"),
        &str_to_rust_ty("Foo"),
        "a0",
    )
    .unwrap();
    assert_eq!(
        r#"    let a0: Foo = jni_unpack_return!(a0, env);
"#,
        code
    );

    let code = convert_rust_types(
        &conv_map,
        &known,
        &str_to_rust_ty("Result<u8, &'static str>"),
        &str_to_rust_ty("jshort"),
        "a0",
    )
    .unwrap();
    assert_eq!(
        r#"    let a0: u8 = jni_unpack_return!(a0, env);
    let a0: jshort = <jshort>::swig_from(a0, env);
"#,
        code
    );
}

const INTO_TRAIT: &str = r#"
#[swig_code = "let {to_var}: {to_var_type} = {from_var}.swig_into(env);"]
trait SwigInto<T> {
    fn swig_into(self, env: *mut JNIEnv) -> T;
}
"#;

const DEREF_TRAIT: &str = r#"
#[swig_code = "let {to_var}: {to_var_type} = {from_var}.swig_deref();"]
trait SwigDeref {
    type Target: ?Sized;
    fn swig_deref(&self) -> &Self::Target;
}
"#;

fn message_of(code: &str) -> String {
    match parse_code("faulty", code, 64) {
        Ok(_) => panic!("the build went through"),
        Err(e) => e.message().to_string(),
    }
}

fn with_into(rest: &str) -> String {
    format!("{}{}", INTO_TRAIT, rest)
}

#[test]
fn one_fixed_rule_gives_one_edge_with_its_template() {
    let map = parse_code(
        "booleans",
        &with_into(
            r#"
impl SwigInto<jboolean> for bool {
    fn swig_into(self, _: *mut JNIEnv) -> jboolean {
        if self { 1 } else { 0 }
    }
}
"#,
        ),
        64,
    )
    .ok()
    .unwrap();
    assert_eq!(map.conv_graph.node_count(), 2);
    assert_eq!(map.conv_graph.edge_count(), 1);
    assert!(map.conv_graph.edge(1).is_none());
    assert!(map.generic_edges.is_empty());
    let edge = map.conv_graph.edge(0).unwrap();
    assert_eq!(map.conv_graph.node(edge.from).unwrap().name(), "bool");
    assert_eq!(map.conv_graph.node(edge.to).unwrap().name(), "jboolean");
    assert_eq!(map.conv_graph.node(edge.from).unwrap().ty, parse_type("bool").unwrap());
    assert!(map.conv_graph.node(2).is_none());
    assert_eq!(map.rust_names_map.get("bool"), Some(&edge.from));
    assert_eq!(map.rust_names_map.get("jboolean"), Some(&edge.to));
    assert_eq!(edge.edge.code_template, "let {to_var}: {to_var_type} = {from_var}.swig_into(env);");
    assert!(edge.edge.dependency.as_ref().unwrap().starts_with("impl SwigInto < jboolean > for bool"));
    let line = edge
        .edge
        .code_template
        .replace("{to_var}", "x")
        .replace("{from_var}", "x")
        .replace("{to_var_type}", "jboolean");
    assert_eq!(line, "let x: jboolean = x.swig_into(env);");
    assert_eq!(map.utils_code.len(), 1);
    assert!(map.utils_code[0].starts_with("# [ swig_code"));
    assert_eq!(
        map.trait_code("SwigInto").map(|s| s.as_str()),
        Some("let {to_var}: {to_var_type} = {from_var}.swig_into(env);")
    );
    assert!(map.trait_code("SwigFrom").is_none());
    assert_eq!(map.type_named("bool").unwrap().name(), "bool");
    assert!(map.type_named("u8").is_none());
}

#[test]
fn fixed_rules_share_the_nodes_of_their_types() {
    let map = parse_code(
        "shared",
        &with_into(
            r#"
impl SwigInto<B> for A {}
impl SwigInto<C> for B {}
impl SwigInto<B> for A {}
#[swig_to_foreigner_hint = "X"]
impl SwigInto<C> for A {}
#[swig_from_foreigner_hint = "Y"]
impl SwigInto<C> for A {}
"#,
        ),
        64,
    )
    .ok()
    .unwrap();
    let names: Vec<String> = (0..map.conv_graph.node_count())
        .map(|i| map.conv_graph.node(i).unwrap().name().to_string())
        .collect();
    assert_eq!(names, vec!["A", "B", "C", "C\0X", "A\0Y"]);
    let edges: Vec<(usize, usize)> = (0..map.conv_graph.edge_count())
        .map(|i| map.conv_graph.edge(i).unwrap())
        .map(|e| (e.from, e.to))
        .collect();
    assert_eq!(edges, vec![(0, 1), (1, 2), (0, 1), (0, 3), (4, 2)]);
}

#[test]
fn declarations_for_another_pointer_width_are_left_out() {
    let code = with_into(
        r#"
#[cfg(target_pointer_width = "32")]
impl SwigInto<i32> for isize {}
#[cfg(target_pointer_width = "64")]
impl SwigInto<i64> for isize {}
#[cfg(target_pointer_width = "32")]
#[swig_code = 3]
impl SwigInto<u8> for u16 {}
#[cfg(feature = "x")]
impl SwigInto<i8> for isize {}
"#,
    );
    let names = |width| -> Vec<String> {
        let map = parse_code("widths", &code, width).ok().unwrap();
        (0..map.conv_graph.node_count())
            .map(|i| map.conv_graph.node(i).unwrap().name().to_string())
            .collect()
    };
    assert_eq!(names(64), vec!["isize", "i64", "i8"]);
    assert_eq!(
        parse_code("widths", &code, 32).err().map(|e| e.message().to_string()),
        Some("Invalid attribute".to_string())
    );
    let skipped = code.replace("#[swig_code = 3]", "");
    assert_eq!(
        parse_code("widths", &skipped, 32)
            .ok()
            .map(|map| map.conv_graph.node_count()),
        Some(5)
    );
}

#[test]
fn guard_is_decided_by_the_first_attribute_that_names_a_width() {
    let attrs_of = |code: &str| lower_attrs(&impl_from(code).attrs);
    let unquoted = attrs_of("#[cfg(target_pointer_width = 64)] impl A for B {}");
    assert!(is_wrong_cfg_pointer_width(&unquoted, 32));
    assert!(!is_wrong_cfg_pointer_width(&unquoted, 64));
    let two = attrs_of(
        "#[cfg(target_pointer_width = \"x\")] #[cfg(target_pointer_width = \"32\")] \
         #[cfg(target_pointer_width = \"64\")] impl A for B {}",
    );
    assert!(!is_wrong_cfg_pointer_width(&two, 32));
    assert!(is_wrong_cfg_pointer_width(&two, 64));
    for code in [
        "impl A for B {}",
        "#[cfg(target_pointer_width = \"64\", unix)] impl A for B {}",
        "#[cfg(target_os = \"64\")] impl A for B {}",
        "#[cfg(unix)] impl A for B {}",
        "#[cfg = \"64\"] impl A for B {}",
        "#[other(target_pointer_width = \"64\")] impl A for B {}",
        "#[cfg(target_pointer_width = \"-64\")] impl A for B {}",
    ] {
        assert!(!is_wrong_cfg_pointer_width(&attrs_of(code), 32), "{}", code);
    }
}

#[test]
fn other_declarations_are_passed_through() {
    let map = parse_code(
        "support",
        r#"
mod helpers {}
fn f() {}
impl Foo {}
impl Display for Foo {}
#[swig_code = 3]
struct S;
macro_rules! m { () => {} }
trait Plain {}
"#,
        64,
    )
    .ok()
    .unwrap();
    assert_eq!(
        map.utils_code,
        vec![
            "mod helpers { }",
            "fn f ( ) { }",
            "impl Foo { }",
            "impl Display for Foo { }",
            "# [ swig_code = 3 ] struct S ;",
            "macro_rules ! m { ( ) => { } }",
            "trait Plain { }",
        ]
    );
    assert_eq!(map.conv_graph.node_count(), 0);
    assert!(map.foreign_names_map.is_empty());
    assert!(map.trait_code("Plain").is_none());
}

#[test]
fn second_types_map_is_reported_whatever_stands_between() {
    let err = parse_code(
        "twice",
        r#"
mod swig_foreign_types_map {
    #![swig_foreigner_type="int"]
    #![swig_rust_type="jint"]
}
fn between() {}
mod swig_foreign_types_map {
    #![swig_foreigner_type="long"]
    #![swig_rust_type="jlong"]
}
mod swig_foreign_types_map {}
"#,
        64,
    )
    .err()
    .unwrap();
    assert_eq!(err.message(), "Should only one swig_foreign_types_map per types map");
    assert_eq!(err.notes_len(), 1);
    assert_eq!(err.note(0).message, "Previously defined here");
    assert_eq!(
        err.to_string(),
        "Should only one swig_foreign_types_map per types map\nPreviously defined here"
    );

    let mut items = lower_file("mod swig_foreign_types_map {}\nmod swig_foreign_types_map {}");
    items[0].span = Span::new(1, 0, 1, 29);
    items[1].span = Span::new(2, 0, 2, 29);
    let err = do_parse("twice", &items, 64, NameMap::new()).err().unwrap();
    assert_eq!(err.span(), Span::new(2, 0, 2, 29));
    assert_eq!(err.note(0).span, Span::new(1, 0, 1, 29));

    items.insert(0, lower_file("#[swig_code = 1] trait Early {}").remove(0));
    let err = do_parse("twice", &items, 64, NameMap::new()).err().unwrap();
    assert_eq!(err.message(), "Invalid attribute");
}

#[test]
fn failed_build_is_reported_with_the_name_of_the_map() {
    let code = "mod swig_foreign_types_map {}\nmod swig_foreign_types_map {}";
    let err = parse_code("twice", code, 64).err().unwrap();
    assert_eq!(
        report_parse_error("twice", code, &err),
        "parsing of types map 'twice' failed\nerror: 'Should only one swig_foreign_types_map per \
         types map\nPreviously defined here'"
    );
    assert!(parse_code("once", "mod swig_foreign_types_map {}", 64).is_ok());
}

#[test]
fn foreign_types_map_reports_its_malformed_lines() {
    let in_map = |body: &str| message_of(&format!("mod swig_foreign_types_map {{ {} }}", body));
    assert_eq!(in_map("#![swig_foreigner_type(x)]"), "Expect name value attribute");
    assert_eq!(in_map("#![swig_foreigner_type = 1]"), "Expect name value attribute");
    assert_eq!(
        in_map("#![swig_foreigner_type = \"a\"] #![swig_rust_type = 1]"),
        "Expect name value attribute"
    );
    assert_eq!(
        in_map("#![swig_rust_type = \"jint\"]"),
        "No swig_foreigner_type for swig_rust_type"
    );
    assert_eq!(
        in_map(
            "#![swig_foreigner_type = \"a\"] #![swig_rust_type = \"b\"] #![swig_rust_type = \"c\"]"
        ),
        "No swig_foreigner_type for swig_rust_type"
    );
    assert_eq!(in_map("#![allow(unused)]"), "Unexpected attribute: '# ! [ allow ( unused ) ]'");
    assert!(!in_map("#![swig_foreigner_type x y]").is_empty());
}

#[test]
fn foreign_types_map_is_read_in_the_order_of_its_lines() {
    let mod_item = syn::parse_str::<syn::ItemMod>(
        r#"
mod swig_foreign_types_map {
    #![swig_foreigner_type="int"]
    #![swig_rust_type="jint"]
    #![swig_foreigner_type="long"]
    #![swig_foreigner_type="short"]
    #![swig_rust_type="jshort"]
    #![swig_foreigner_type="integer"]
    #![swig_rust_type="jint"]
}
"#,
    )
    .unwrap();
    let mut attrs = lower_attrs(&mod_item.attrs);
    for (i, a) in attrs.iter_mut().enumerate() {
        a.span = Span::new(i + 2, 4, i + 2, 40);
    }
    let entries: Vec<(String, String, TypeExpr, Span)> = parse_foreign_types_map_mod(&attrs)
        .ok()
        .unwrap()
        .into_iter()
        .map(|e| (e.foreign_name, e.rust_name, e.rust_ty, e.span))
        .collect();
    assert_eq!(
        entries,
        vec![
            ("int".to_string(), "jint".to_string(), TypeExpr::ident("jint"), Span::new(2, 4, 2, 40)),
            (
                "short".to_string(),
                "jshort".to_string(),
                TypeExpr::ident("jshort"),
                Span::new(5, 4, 5, 40)
            ),
            (
                "integer".to_string(),
                "jint".to_string(),
                TypeExpr::ident("jint"),
                Span::new(7, 4, 7, 40)
            ),
        ]
    );

    let mut map = TypeMap::new(NameMap::new());
    assert!(swig_typemap::parse::fill_foreign_types_map(&attrs, &mut map).is_ok());
    assert_eq!(map.conv_graph.node_count(), 2);
    assert_eq!(map.foreign_names_map.len(), 3);
    let node_of = |name: &str| {
        map.conv_graph.node(*map.foreign_names_map.get(name).unwrap()).unwrap().name().to_string()
    };
    assert_eq!(node_of("int"), "jint");
    assert_eq!(node_of("short"), "jshort");
    assert_eq!(node_of("integer"), "jint");
    assert_eq!(map.foreign_names_map.get("int"), map.foreign_names_map.get("integer"));
}

#[test]
fn foreign_name_that_is_named_twice_is_reported() {
    let code = r#"
mod swig_foreign_types_map {
    #![swig_foreigner_type="short"]
    #![swig_rust_type="jshort"]
    #![swig_foreigner_type="int"]
    #![swig_rust_type="jint"]
    #![swig_foreigner_type="int"]
    #![swig_rust_type="jlong"]
}
"#;
    let mut items = lower_file(code);
    for (i, a) in items[0].attrs.iter_mut().enumerate() {
        a.span = Span::new(i + 3, 4, i + 3, 40);
    }
    let err = parse_foreign_types_map_mod(&items[0].attrs).err().unwrap();
    assert_eq!(err.message(), "Duplicate swig_foreigner_type int");
    assert_eq!(err.span(), Span::new(7, 4, 7, 40));
    assert_eq!(err.notes_len(), 1);
    assert_eq!(err.note(0).message, "Previously defined here");
    assert_eq!(err.note(0).span, Span::new(5, 4, 5, 40));
    assert!(!err.is_internal());

    let mut map = TypeMap::new(NameMap::new());
    let err = swig_typemap::parse::fill_foreign_types_map(&items[0].attrs, &mut map).err().unwrap();
    assert_eq!(err.message(), "Duplicate swig_foreigner_type int");
    assert_eq!(map.conv_graph.node_count(), 0);
    assert!(map.foreign_names_map.is_empty());

    let err = do_parse("twice", &items, 64, NameMap::new()).err().unwrap();
    assert_eq!(err.to_string(), "Duplicate swig_foreigner_type int\nPreviously defined here");

    let same_host = code.replace("jlong", "jint");
    assert_eq!(message_of(&same_host), "Duplicate swig_foreigner_type int");
    let waiting = r#"
mod swig_foreign_types_map {
    #![swig_foreigner_type="int"]
    #![swig_rust_type="jint"]
    #![swig_foreigner_type="int"]
}
"#;
    assert_eq!(message_of(waiting), "Duplicate swig_foreigner_type int");
    let renamed_before_its_type = r#"
mod swig_foreign_types_map {
    #![swig_foreigner_type="int"]
    #![swig_foreigner_type="int"]
    #![swig_rust_type="jint"]
}
"#;
    let map = parse_code("renamed", renamed_before_its_type, 64).ok().unwrap();
    assert_eq!(map.foreign_names_map.len(), 1);
}

#[test]
fn known_attributes_have_to_be_strings() {
    assert_eq!(message_of("#[swig_code = 3] trait T {}"), "Invalid attribute");
    assert_eq!(message_of("#[swig_code] trait T {}"), "Invalid attribute");
    assert_eq!(message_of("#[swig_to(x)] macro_rules! m { () => {} }"), "Invalid attribute");
    assert!(!message_of("#[swig_code x y] trait T {}").is_empty());
    let table = my_syn_attrs_to_hashmap(&lower_attrs(
        &impl_from(
            "#[swig_generic_arg = \"T\"] #[doc = \"x\"] #[swig_generic_arg = \"E\"] \
             #[swig_to = \"T\"] impl A for B {}",
        )
        .attrs,
    ))
    .ok()
    .unwrap();
    assert_eq!(
        table_values(&table),
        vec![
            ("swig_generic_arg".to_string(), vec!["T".to_string(), "E".to_string()]),
            ("swig_to".to_string(), vec!["T".to_string()]),
        ]
    );
    assert_eq!(table.len(), 2);
    assert!(table.contains_key("swig_to") && !table.contains_key("doc"));
    assert!(!table.is_empty() && !table.has_only("swig_to"));
    assert_eq!(table.get("swig_generic_arg").unwrap().len(), 2);
    assert!(table.get("swig_code").is_none());
    assert!(MyAttrs::new().is_empty());
}

#[test]
fn code_templates_need_their_variables() {
    assert_eq!(
        message_of("#[swig_code = \"let {to_var} = 1;\"] trait T {}"),
        "let {to_var} = 1; not contains one of {to_var}, {from_var}"
    );
    assert_eq!(
        message_of("#[swig_code = \"f({from_var});\"] trait T {}"),
        "f({from_var}); not contains one of {to_var}, {from_var}"
    );
    assert_eq!(message_of("#[swig_to = \"x\"] trait T {}"), "No swig_code attribute");
    assert_eq!(
        message_of(
            "#[swig_code = \"{to_var}{from_var}\"] #[swig_code = \"{to_var}{from_var}\"] trait T {}"
        ),
        "Expect to have swig_code attribute, and it should be only one"
    );
    assert!(swig_typemap::parse::validate_code_template(Span::call_site(), "{from_var}{to_var}")
        .is_ok());
}

#[test]
fn cast_implementations_report_what_is_wrong_with_them() {
    assert_eq!(
        message_of("impl SwigInto<u8> for u16 {}"),
        "Can not find conversation code for SwigInto/SwigFrom"
    );
    assert_eq!(
        message_of(&with_into("impl SwigFrom<u8> for u16 {}")),
        "Can not find conversation code for SwigInto/SwigFrom"
    );
    assert_eq!(
        message_of(&with_into("impl SwigInto for u16 {}")),
        "Expect generic arguments here"
    );
    assert_eq!(
        message_of(&with_into("impl SwigInto<u8, u8> for u16 {}")),
        "Should be only one generic argument"
    );
    assert_eq!(message_of(&with_into("impl SwigInto<'a> for u16 {}")), "Expect type here");
    assert_eq!(
        message_of(&with_into(
            "#[swig_to_foreigner_hint = \"a\"] #[swig_to_foreigner_hint = \"b\"] \
             impl SwigInto<u8> for u16 {}"
        )),
        "Expect only swig_to_foreigner_hint attribute"
    );
    assert_eq!(
        message_of(&with_into(
            "#[swig_to_foreigner_hint = \"a\"] #[swig_from_foreigner_hint = \"b\"] \
             impl SwigInto<u8> for u16 {}"
        )),
        "Expect only swig_to_foreigner_hint attribute"
    );
    assert_eq!(
        message_of(&with_into(
            "#[swig_from_foreigner_hint = \"a\"] #[swig_code = \"b\"] impl SwigInto<u8> for u16 {}"
        )),
        "Expect only swig_from_foreigner_hint attribute"
    );
}

#[test]
fn trait_paths_are_taken_apart() {
    let path_of = |code: &str| lower_trait_path(&impl_from(code).trait_.unwrap().1);
    let message = |code: &str| {
        extract_trait_param_type(&path_of(code)).err().unwrap().message().to_string()
    };
    assert_eq!(message("impl a::SwigFrom<u8> for u16 {}"), "Invalid trait path");
    assert_eq!(message("impl SwigFrom for u16 {}"), "Expect generic arguments here");
    assert_eq!(message("impl SwigFrom<> for u16 {}"), "Should be only one generic argument");
    assert_eq!(message("impl SwigFrom<A = u8> for u16 {}"), "Expect type here");
    assert!(is_ident_ignore_params(&path_of("impl SwigFrom<u8> for u16 {}"), "SwigFrom"));
    assert!(is_ident_ignore_params(&path_of("impl SwigFrom for u16 {}"), "SwigFrom"));
    assert!(!is_ident_ignore_params(&path_of("impl ::SwigFrom<u8> for u16 {}"), "SwigFrom"));
    assert!(!is_ident_ignore_params(&path_of("impl a::SwigFrom<u8> for u16 {}"), "SwigFrom"));
    assert!(!is_ident_ignore_params(&path_of("impl SwigFrom<u8> for u16 {}"), "SwigInto"));
    let deref = lower_impl(&impl_from("impl SwigDeref for u16 {}"));
    assert!(item_impl_path_is(&deref, "SwigDeref", "SwigDerefMut"));
    assert!(!item_impl_path_is(&deref, "SwigInto", "SwigFrom"));
    assert!(!item_impl_path_is(&lower_impl(&impl_from("impl u16 {}")), "SwigInto", "SwigFrom"));
}

#[test]
fn hints_of_generic_rules_are_validated() {
    let hint_of = |code: &str, variant: ForeignHintVariant| {
        let item = impl_from(code);
        let attrs = my_syn_attrs_to_hashmap(&lower_attrs(&item.attrs)).ok().unwrap();
        get_foreigner_hint_for_generic(&lower_generics(&item.generics), &attrs, variant)
            .map_err(|e| e.to_string())
    };
    let one = "#[swig_from_foreigner_hint = \"T []\"] impl<T> SwigFrom<T> for u8 {}";
    assert_eq!(hint_of(one, ForeignHintVariant::From), Ok(Some("T []".to_string())));
    assert_eq!(hint_of(one, ForeignHintVariant::To), Ok(None));
    assert_eq!(
        hint_of(
            "#[swig_to_foreigner_hint = \"T\"] #[swig_to_foreigner_hint = \"T\"] \
             impl<T> SwigFrom<T> for u8 {}",
            ForeignHintVariant::To
        ),
        Err("Several swig_to_foreigner_hint attributes\nFirst swig_to_foreigner_hint".to_string())
    );
    assert_eq!(
        hint_of(
            "#[swig_to_foreigner_hint = \"T\"] impl<T, E> SwigFrom<T> for u8 {}",
            ForeignHintVariant::To
        ),
        Err("Expect exactly one generic parameter for swig_to_foreigner_hint".to_string())
    );
    assert_eq!(
        hint_of("#[swig_to_foreigner_hint = \"T\"] impl SwigFrom<T> for u8 {}", ForeignHintVariant::To),
        Err("Expect exactly one generic parameter for swig_to_foreigner_hint".to_string())
    );
    assert_eq!(
        hint_of(
            "#[swig_from_foreigner_hint = \"X []\"] impl<'a, T> SwigFrom<T> for u8 {}",
            ForeignHintVariant::From
        ),
        Err("swig_from_foreigner_hint not contains T\nT defined here".to_string())
    );
}

#[test]
fn generic_implementations_become_rules_in_their_order() {
    let map = parse_code(
        "rules",
        &format!(
            "{}{}{}",
            INTO_TRAIT,
            DEREF_TRAIT,
            r#"
#[swig_to_foreigner_hint = "T []"]
impl<T: SwigForeignClass> SwigInto<jobjectArray> for Vec<T> {}
impl<'a, T> SwigDeref for Guard<'a, T> { type Target = T; }
#[swig_code = "let {to_var}: {to_var_type} = {from_var}.swig_deref_mut();"]
trait SwigDerefMut { type Target; }
impl<T> SwigDerefMut for Cell<T> where T: Copy { type Target = T; }
impl SwigDeref for String { type Target = str; }
"#
        ),
        64,
    )
    .ok()
    .unwrap();
    assert_eq!(map.generic_edges.len(), 3);
    let rule = &map.generic_edges[0];
    assert_eq!(rule.from_ty, parse_type("Vec<T>").unwrap());
    assert_eq!(rule.to_ty, parse_type("jobjectArray").unwrap());
    assert_eq!(rule.to_foreigner_hint.as_deref(), Some("T []"));
    assert_eq!(rule.from_foreigner_hint, None);
    assert_eq!(rule.code_template, "let {to_var}: {to_var_type} = {from_var}.swig_into(env);");
    assert_eq!(rule.generic_params.type_params.len(), 1);
    assert!(rule.dependency.as_ref().unwrap().contains("impl < T : SwigForeignClass >"));
    assert_eq!(map.generic_edges[1].from_ty, parse_type("Guard<'a, T>").unwrap());
    assert_eq!(map.generic_edges[1].to_ty, parse_type("&T").unwrap());
    assert_eq!(map.generic_edges[2].to_ty, parse_type("&mut T").unwrap());
    assert_eq!(
        map.generic_edges[2].code_template,
        "let {to_var}: {to_var_type} = {from_var}.swig_deref_mut();"
    );
    assert!(map.generic_edges[2].generic_params.where_clause.is_some());
    assert_eq!(map.conv_graph.edge_count(), 1);
    assert_eq!(map.conv_graph.node(1).unwrap().name(), "& str");

    let mut known = RegisteredTypes::new();
    known.add("Foo", str_to_rust_ty("Foo").implements("SwigForeignClass"));
    let (to, name) = rule.is_conv_possible(&str_to_rust_ty("Vec<Foo>"), None, &known).unwrap();
    assert_eq!(to, parse_type("jobjectArray").unwrap());
    assert_eq!(name.as_str(), "jobjectArray\0Foo []");
}

#[test]
fn deref_implementations_report_what_is_wrong_with_them() {
    assert_eq!(
        message_of(&format!("{}impl SwigDeref for String {{}}", DEREF_TRAIT)),
        "No Target associated type"
    );
    assert_eq!(
        message_of(&format!("{}impl SwigDeref for String {{ type Other = str; }}", DEREF_TRAIT)),
        "No Target associated type"
    );
    assert_eq!(
        message_of("impl SwigDeref for String { type Target = str; }"),
        "Can not find conversation code for SwigDeref/SwigDerefMut"
    );
    assert_eq!(
        message_of(&format!("{}impl SwigDerefMut for String {{ type Target = str; }}", DEREF_TRAIT)),
        "Can not find conversation code for SwigDeref/SwigDerefMut"
    );
    assert_eq!(
        message_of(&format!(
            "{}#[swig_to_foreigner_hint = \"X\"] impl<T> SwigDeref for B<T> {{ type Target = T; }}",
            DEREF_TRAIT
        )),
        "swig_to_foreigner_hint not contains T"
    );
}

#[test]
fn fixed_deref_leads_to_the_registered_reference() {
    let map = parse_code(
        "deref",
        &format!(
            "{}{}{}",
            INTO_TRAIT,
            DEREF_TRAIT,
            r#"
impl SwigInto<&'static str> for Name {}
impl SwigDeref for String { type Target = str; }
"#
        ),
        64,
    )
    .ok()
    .unwrap();
    assert_eq!(map.conv_graph.node_count(), 3);
    let edge = map.conv_graph.edge(1).unwrap();
    assert_eq!((edge.from, edge.to), (2, 1));
    assert_eq!(map.conv_graph.node(1).unwrap().ty, parse_type("&'static str").unwrap());
    assert_eq!(edge.edge.code_template, "let {to_var}: {to_var_type} = {from_var}.swig_deref();");
}

#[test]
fn conversion_macros_report_what_is_wrong_with_them() {
    let code = "#[swig_code = \"{to_var}{from_var}\"]";
    let on_macro = |attrs: &str| message_of(&format!("{} macro_rules! m {{ () => {{}} }}", attrs));
    assert_eq!(on_macro("#[swig_to = \"T\"]"), "No swig_from but there are other attr");
    assert_eq!(on_macro("#[swig_from = \"T\"]"), "No swig_to but there are other attr");
    assert_eq!(on_macro("#[swig_from = \"T\"] #[swig_to = \"T\"]"), "No swig_code attribute");
    assert!(!on_macro(&format!(
        "#[swig_from = \"T<\"] #[swig_to = \"T\"] #[swig_generic_arg = \"T\"] {}",
        code
    ))
    .is_empty());
    assert!(!on_macro(&format!(
        "#[swig_from = \"T\"] #[swig_to = \"(\"] #[swig_generic_arg = \"T\"] {}",
        code
    ))
    .is_empty());
    assert!(!on_macro(&format!(
        "#[swig_from = \"T\"] #[swig_to = \"T\"] #[swig_generic_arg = \"<\"] {}",
        code
    ))
    .is_empty());
    assert_eq!(
        on_macro(&format!(
            "#[swig_from = \"T\"] #[swig_to = \"T\"] #[swig_generic_arg = \"Vec<T>\"] {}",
            code
        )),
        "Expect an identifier as generic parameter"
    );
    assert_eq!(
        on_macro(&format!(
            "#[swig_from = \"T\"] #[swig_to = \"T\"] #[swig_generic_arg = \"T\"] \
             #[swig_to_foreigner_hint = \"X\"] {}",
            code
        )),
        "swig_to_foreigner_hint not contains T"
    );
    let err = parse_code(
        "macros",
        &format!("#[swig_from = \"T\"] #[swig_to = \"T\"] {} macro_rules! m {{ () => {{}} }}", code),
        64,
    )
    .err()
    .unwrap();
    assert!(err.is_internal());
    assert_eq!(err.message(), "conversion macro without generic arguments is not supported");
}

#[test]
fn conversion_macro_becomes_a_generic_rule() {
    let map = parse_code(
        "macros",
        r#"
#[swig_generic_arg = "T"]
#[swig_from = "Option<T>"]
#[swig_to = "*const T"]
#[swig_to_foreigner_hint = "T?"]
#[swig_code = "let {to_var}: {to_var_type} = unpack!({from_var});"]
macro_rules! unpack { ($x:expr) => { $x } }
"#,
        64,
    )
    .ok()
    .unwrap();
    assert_eq!(map.generic_edges.len(), 1);
    assert!(map.utils_code.is_empty());
    let rule = &map.generic_edges[0];
    assert_eq!(rule.from_ty, parse_type("Option<T>").unwrap());
    assert_eq!(rule.to_ty, parse_type("*const T").unwrap());
    assert_eq!(rule.generic_params.type_params[0].ident, "T");
    assert_eq!(rule.to_foreigner_hint.as_deref(), Some("T?"));
    let (to, name) =
        rule.is_conv_possible(&str_to_rust_ty("Option<u8>"), None, &RegisteredTypes::new()).unwrap();
    assert_eq!(to, parse_type("*const u8").unwrap());
    assert_eq!(name.as_str(), "* const u8\0u8?");
}

#[test]
fn given_code_templates_are_used_and_traits_override_them() {
    let mut given = NameMap::new();
    given.insert("SwigFrom", "{to_var} = from({from_var});".to_string());
    given.insert("SwigInto", "{to_var} = old({from_var});".to_string());
    let items = lower_file(&with_into("impl SwigFrom<u8> for u16 {}\nimpl SwigInto<u8> for u16 {}"));
    let map = do_parse("given", &items, 64, given).ok().unwrap();
    assert_eq!(map.conv_graph.edge(0).unwrap().edge.code_template, "{to_var} = from({from_var});");
    assert_eq!(
        map.conv_graph.edge(1).unwrap().edge.code_template,
        "let {to_var}: {to_var_type} = {from_var}.swig_into(env);"
    );
    assert_eq!((map.conv_graph.edge(0).unwrap().from, map.conv_graph.edge(0).unwrap().to), (0, 1));
    assert_eq!((map.conv_graph.edge(1).unwrap().from, map.conv_graph.edge(1).unwrap().to), (1, 0));
}

#[test]
fn types_are_read_at_a_span() {
    let at = Span::new(3, 1, 3, 9);
    assert_eq!(parse_ty_with_given_span("Vec<u8>", at).ok(), parse_type("Vec<u8>").ok());
    let err = parse_ty_with_given_span("Vec<", at).err().unwrap();
    assert_eq!(err.span(), at);
    assert_eq!(err.message(), parse_type("Vec<").err().unwrap());
}

#[test]
fn registry_answers_lookups_by_unique_name() {
    let map = parse_code("lookup", &with_into("impl SwigInto<B> for A {}"), 64).ok().unwrap();
    assert_eq!(map.lookup("A").unwrap().name(), "A");
    assert_eq!(map.lookup("B").unwrap().ty, parse_type("B").unwrap());
    assert!(map.lookup("C").is_none());

    let bounded = Generics {
        span: Span::call_site(),
        type_params: vec![TypeParam {
            ident: "T".to_string(),
            bounds: vec![TypeParamBound::Trait("Marker".to_string())],
        }],
        where_clause: None,
    };
    let rule = |generics: Generics| {
        GenericTypeConv::simple_new(parse_type("Vec<T>").unwrap(), parse_type("T").unwrap(), generics)
    };
    let input = str_to_rust_ty("Vec<A>");
    assert!(rule(bounded).is_conv_possible(&input, None, &map).is_none());
    let free = Generics::unbounded(&vec!["T".to_string()]);
    let (to, name) = rule(free).is_conv_possible(&input, None, &map).unwrap();
    assert_eq!(to, parse_type("A").unwrap());
    assert_eq!(name.as_str(), "A");
}

#[test]
fn diagnostics_point_at_the_places_in_the_source() {
    let err = parse_code(
        "twice",
        "mod swig_foreign_types_map {}\n\n  mod swig_foreign_types_map {}\n",
        64,
    )
    .err()
    .unwrap();
    assert_eq!((err.span().start.line, err.span().start.column), (3, 2));
    assert_eq!((err.note(0).span.start.line, err.note(0).span.start.column), (1, 0));
    assert_ne!(err.span(), err.note(0).span);

    let err = parse_code(
        "names",
        "mod swig_foreign_types_map {\n#![swig_foreigner_type=\"int\"]\n#![swig_rust_type=\"jint\"]\n\
         #![swig_foreigner_type=\"int\"]\n}",
        64,
    )
    .err()
    .unwrap();
    assert_eq!(err.message(), "Duplicate swig_foreigner_type int");
    assert_eq!(err.span().start.line, 4);
    assert_eq!(err.note(0).span.start.line, 2);
}

#[test]
fn host_type_has_to_be_a_plain_name() {
    let map_with = |host: &str| {
        format!(
            "mod swig_foreign_types_map {{\n#![swig_foreigner_type=\"int\"]\n#![swig_rust_type=\"{}\"]\n}}",
            host
        )
    };
    let entries = parse_foreign_types_map_mod(&lower_file(&map_with("jint"))[0].attrs).ok().unwrap();
    assert_eq!(entries.len(), 1);
    assert_eq!(entries[0].foreign_name, "int");
    assert_eq!(entries[0].rust_name, "jint");
    assert_eq!(entries[0].rust_ty, TypeExpr::ident("jint"));

    for host in ["Vec<u8>", "a::b", "::jint", "&jint", "(jint)", "fn()", "jint<>"] {
        let err = parse_code("names", &map_with(host), 64).err().unwrap();
        assert_eq!(err.message(), format!("Expect a type name as swig_rust_type, got {}", host));
        assert_eq!(err.span().start.line, 3);
        assert_eq!(err.notes_len(), 0);
    }
    for host in ["", "1x", "a b", "Vec<"] {
        let err = parse_code("names", &map_with(host), 64).err().unwrap();
        assert_eq!(err.message(), parse_type(host).err().unwrap(), "{:?}", host);
        assert_eq!(err.span().start.line, 3);
    }
    let err = parse_code("names", &map_with("dyn 'a + T"), 64).err().unwrap();
    assert_eq!(err.message(), swig_typemap::syntax::UNREADABLE_TYPE);

    let mut map = TypeMap::new(NameMap::new());
    let items = lower_file(&map_with("Vec<u8>"));
    assert!(swig_typemap::parse::fill_foreign_types_map(&items[0].attrs, &mut map).is_err());
    assert_eq!(map.conv_graph.node_count(), 0);
    assert!(map.foreign_names_map.is_empty());
}
