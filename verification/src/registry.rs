//! The registry of conversions: the graph of registered types with the fixed
//! conversions between them, the index of foreign names and the generic rules.

use crate::name_map::NameMap;
use crate::names::{make_unique_typename_if_need, unique_typename_if_need};
use crate::normalize::{normalize_ty_lifetimes, normalized};
use crate::rule::{rule_wf, text_model, GenericTypeConv, RuleModel, TypeLookup};
use crate::rust_type::{RustType, RustTypeModel};
use crate::source::SourceId;
use crate::type_expr::{TypeExpr, TypeModel};
use vstd::prelude::*;
use vstd::string::*;

verus! {

/// A fixed conversion: the code that performs it and the declaration it was read from.
pub struct TypeConvEdge {
    pub code_template: String,
    pub dependency: Option<String>,
}

impl TypeConvEdge {
    /// A conversion with the code `code_template`, read from `dependency`.
    pub fn new(code_template: String, dependency: Option<String>) -> (r: TypeConvEdge)
        ensures
            r.code_template@ == code_template@,
            text_model(r.dependency) == text_model(dependency),
    {
        TypeConvEdge { code_template, dependency }
    }
}

/// An edge of the graph: a fixed conversion from one node to another.
pub struct ConvEdge {
    pub from: usize,
    pub to: usize,
    pub edge: TypeConvEdge,
}

/// Mathematical model of [`ConvEdge`].
pub struct EdgeModel {
    pub from: usize,
    pub to: usize,
    pub code_template: Seq<char>,
    pub dependency: Option<Seq<char>>,
}

impl View for ConvEdge {
    type V = EdgeModel;

    open spec fn view(&self) -> EdgeModel {
        EdgeModel {
            from: self.from,
            to: self.to,
            code_template: self.edge.code_template@,
            dependency: text_model(self.edge.dependency),
        }
    }
}

/// A directed graph whose nodes are registered types and whose edges are
/// fixed conversions. Between two nodes there may be several edges.
pub struct TypesConvGraph {
    nodes: Vec<RustType>,
    edges: Vec<ConvEdge>,
}

impl TypesConvGraph {
    /// The nodes in the order in which they were added.
    pub closed spec fn nodes(&self) -> Seq<RustTypeModel> {
        Seq::new(self.nodes@.len(), |i: int| self.nodes@[i]@)
    }

    /// The edges in the order in which they were added.
    pub closed spec fn edges(&self) -> Seq<EdgeModel> {
        Seq::new(self.edges@.len(), |i: int| self.edges@[i]@)
    }

    /// A graph without nodes.
    pub fn new() -> (r: TypesConvGraph)
        ensures
            r.nodes() == Seq::<RustTypeModel>::empty(),
            r.edges() == Seq::<EdgeModel>::empty(),
    {
        let r = TypesConvGraph { nodes: Vec::new(), edges: Vec::new() };
        assert(r.nodes() =~= Seq::<RustTypeModel>::empty());
        assert(r.edges() =~= Seq::<EdgeModel>::empty());
        r
    }

    /// Adds a node and gives its index.
    pub fn add_node(&mut self, ty: RustType) -> (r: usize)
        ensures
            r == old(self).nodes().len(),
            final(self).nodes() == old(self).nodes().push(ty@),
            final(self).edges() == old(self).edges(),
    {
        let index = self.nodes.len();
        self.nodes.push(ty);
        assert(self.nodes() =~= old(self).nodes().push(ty@));
        assert(self.edges() =~= old(self).edges());
        index
    }

    /// Adds an edge from the node `from` to the node `to`.
    pub fn add_edge(&mut self, from: usize, to: usize, edge: TypeConvEdge)
        requires
            from < old(self).nodes().len(),
            to < old(self).nodes().len(),
        ensures
            final(self).nodes() == old(self).nodes(),
            final(self).edges() == old(self).edges().push(
                EdgeModel {
                    from,
                    to,
                    code_template: edge.code_template@,
                    dependency: text_model(edge.dependency),
                },
            ),
    {
        self.edges.push(ConvEdge { from, to, edge });
        assert(self.nodes() =~= old(self).nodes());
        assert(self.edges() =~= old(self).edges().push(
            EdgeModel {
                from,
                to,
                code_template: edge.code_template@,
                dependency: text_model(edge.dependency),
            },
        ));
    }

    /// The number of nodes.
    pub fn node_count(&self) -> (r: usize)
        ensures
            r == self.nodes().len(),
    {
        self.nodes.len()
    }

    /// The number of edges.
    pub fn edge_count(&self) -> (r: usize)
        ensures
            r == self.edges().len(),
    {
        self.edges.len()
    }

    /// The node at `index`.
    pub fn node(&self, index: usize) -> (r: Option<&RustType>)
        ensures
            match r {
                Some(ty) => index < self.nodes().len() && ty@ == self.nodes()[index as int],
                None => index >= self.nodes().len(),
            },
    {
        if index < self.nodes.len() {
            Some(&self.nodes[index])
        } else {
            None
        }
    }

    /// The edge at `index`.
    pub fn edge(&self, index: usize) -> (r: Option<&ConvEdge>)
        ensures
            match r {
                Some(e) => index < self.edges().len() && e@ == self.edges()[index as int],
                None => index >= self.edges().len(),
            },
    {
        if index < self.edges.len() {
            Some(&self.edges[index])
        } else {
            None
        }
    }
}

/// Mathematical model of [`TypeMap`].
pub struct TypeMapModel {
    pub nodes: Seq<RustTypeModel>,
    pub edges: Seq<EdgeModel>,
    pub foreign_names: Map<Seq<char>, usize>,
    pub rust_names: Map<Seq<char>, usize>,
    pub utils_code: Seq<Seq<char>>,
    pub generic_edges: Seq<RuleModel>,
    pub traits_usage_code: Map<Seq<char>, Seq<char>>,
}

/// The registry of conversions.
pub struct TypeMap {
    pub conv_graph: TypesConvGraph,
    /// The node of each foreign name.
    pub foreign_names_map: NameMap<usize>,
    /// The node of each unique name of a registered type.
    pub rust_names_map: NameMap<usize>,
    /// The declarations that are passed through, as their token text.
    pub utils_code: Vec<String>,
    /// The generic rules in the order of their declarations.
    pub generic_edges: Vec<GenericTypeConv>,
    /// The code template of each conversion trait.
    pub traits_usage_code: NameMap<String>,
}

/// The texts of a map from names to strings.
pub open spec fn code_map(codes: NameMap<String>) -> Map<Seq<char>, Seq<char>> {
    Map::new(|name: Seq<char>| codes.find(name) is Some, |name: Seq<char>| codes.find(name)->0@)
}

/// The models of a list of rules.
pub open spec fn rules_model(rules: Seq<GenericTypeConv>) -> Seq<RuleModel> {
    Seq::new(rules.len(), |i: int| rules[i]@)
}

/// The models of a list of texts.
pub open spec fn codes_model(codes: Seq<String>) -> Seq<Seq<char>> {
    Seq::new(codes.len(), |i: int| codes[i]@)
}

impl View for TypeMap {
    type V = TypeMapModel;

    open spec fn view(&self) -> TypeMapModel {
        TypeMapModel {
            nodes: self.conv_graph.nodes(),
            edges: self.conv_graph.edges(),
            foreign_names: self.foreign_names_map.as_map(),
            rust_names: self.rust_names_map.as_map(),
            utils_code: codes_model(self.utils_code@),
            generic_edges: rules_model(self.generic_edges@),
            traits_usage_code: code_map(self.traits_usage_code),
        }
    }
}

/// The invariant of a registry: names and edges refer to nodes of the graph,
/// each unique name leads to the node that goes by that name, and every rule
/// is well formed.
pub open spec fn registry_wf(m: TypeMapModel) -> bool {
    &&& forall|name: Seq<char>| #[trigger]
        m.rust_names.contains_key(name) ==> m.rust_names[name] < m.nodes.len()
            && m.nodes[m.rust_names[name] as int].normalized_name == name
    &&& forall|name: Seq<char>| #[trigger]
        m.foreign_names.contains_key(name) ==> m.foreign_names[name] < m.nodes.len()
    &&& forall|i: int|
        0 <= i < m.edges.len() ==> (#[trigger] m.edges[i]).from < m.nodes.len() && m.edges[i].to
            < m.nodes.len()
    &&& forall|i: int| 0 <= i < m.generic_edges.len() ==> rule_wf(#[trigger] m.generic_edges[i])
}

/// The registry with one more generic rule.
pub open spec fn with_rule(m: TypeMapModel, rule: RuleModel) -> TypeMapModel {
    TypeMapModel { generic_edges: m.generic_edges.push(rule), ..m }
}

/// The registry with one more declaration that is passed through.
pub open spec fn with_utils_code(m: TypeMapModel, code: Seq<char>) -> TypeMapModel {
    TypeMapModel { utils_code: m.utils_code.push(code), ..m }
}

/// The registry with the code template `code` for the trait `name`.
pub open spec fn with_trait_code(m: TypeMapModel, name: Seq<char>, code: Seq<char>) -> TypeMapModel {
    TypeMapModel { traits_usage_code: m.traits_usage_code.insert(name, code), ..m }
}

/// The registry with a node for the type `ty` under the unique name `name`,
/// and the index of that node. A name that is registered keeps its node.
pub open spec fn with_node(m: TypeMapModel, ty: TypeModel, name: Seq<char>) -> (TypeMapModel, usize) {
    if m.rust_names.contains_key(name) {
        (m, m.rust_names[name])
    } else {
        (
            TypeMapModel {
                nodes: m.nodes.push(
                    RustTypeModel {
                        src_id: SourceId { id: None },
                        ty,
                        normalized_name: name,
                        implements: Set::empty(),
                    },
                ),
                rust_names: m.rust_names.insert(name, m.nodes.len() as usize),
                ..m
            },
            m.nodes.len() as usize,
        )
    }
}

/// The registry with the fixed conversion from `from` to `to`: both types
/// get a node under their unique names, unless they have one, and an edge
/// with the code and the declaration leads from the one to the other.
pub open spec fn with_conv_code(
    m: TypeMapModel,
    from: (TypeModel, Option<Seq<char>>),
    to: (TypeModel, Option<Seq<char>>),
    item_code: Seq<char>,
    conv_code: Seq<char>,
) -> TypeMapModel {
    let (m1, from_index) = with_node(
        m,
        from.0,
        unique_typename_if_need(normalized(from.0), from.1),
    );
    let (m2, to_index) = with_node(m1, to.0, unique_typename_if_need(normalized(to.0), to.1));
    TypeMapModel {
        edges: m2.edges.push(
            EdgeModel {
                from: from_index,
                to: to_index,
                code_template: conv_code,
                dependency: Some(item_code),
            },
        ),
        ..m2
    }
}

impl TypeMap {
    /// The invariant of the registry.
    pub open spec fn wf(&self) -> bool {
        registry_wf(self@)
    }

    /// A registry without types, with the code templates `traits_usage_code`.
    pub fn new(traits_usage_code: NameMap<String>) -> (r: TypeMap)
        ensures
            r@ == (TypeMapModel {
                nodes: Seq::empty(),
                edges: Seq::empty(),
                foreign_names: Map::empty(),
                rust_names: Map::empty(),
                utils_code: Seq::empty(),
                generic_edges: Seq::empty(),
                traits_usage_code: code_map(traits_usage_code),
            }),
            r.wf(),
    {
        let r = TypeMap {
            conv_graph: TypesConvGraph::new(),
            foreign_names_map: NameMap::new(),
            rust_names_map: NameMap::new(),
            utils_code: Vec::new(),
            generic_edges: Vec::new(),
            traits_usage_code,
        };
        assert(r@.utils_code =~= Seq::<Seq<char>>::empty());
        assert(r@.generic_edges =~= Seq::<RuleModel>::empty());
        r
    }

    /// Adds a generic rule behind the others.
    pub fn add_rule(&mut self, rule: GenericTypeConv)
        requires
            old(self).wf(),
            rule.wf(),
        ensures
            final(self)@ == with_rule(old(self)@, rule@),
            final(self).wf(),
    {
        self.generic_edges.push(rule);
        assert(self@.generic_edges =~= old(self)@.generic_edges.push(rule@));
    }

    /// Adds a declaration that is passed through.
    pub fn add_utils_code(&mut self, code: String)
        requires
            old(self).wf(),
        ensures
            final(self)@ == with_utils_code(old(self)@, code@),
            final(self).wf(),
    {
        self.utils_code.push(code);
        assert(self@.utils_code =~= old(self)@.utils_code.push(code@));
    }

    /// Sets the code template of the trait `name`.
    pub fn set_trait_code(&mut self, name: &str, code: String)
        requires
            old(self).wf(),
        ensures
            final(self)@ == with_trait_code(old(self)@, name@, code@),
            final(self).wf(),
    {
        self.traits_usage_code.insert(name, code);
        assert(self@.traits_usage_code =~= old(self)@.traits_usage_code.insert(name@, code@));
    }

    /// The code template of the trait `name`.
    pub fn trait_code(&self, name: &str) -> (r: Option<&String>)
        ensures
            match r {
                Some(code) => self@.traits_usage_code.contains_key(name@)
                    && self@.traits_usage_code[name@] == code@,
                None => !self@.traits_usage_code.contains_key(name@),
            },
    {
        self.traits_usage_code.get(name)
    }

    /// The type expression of the node that goes by the unique name `name`.
    pub fn type_named(&self, name: &str) -> (r: Option<&RustType>)
        requires
            self.wf(),
        ensures
            match r {
                Some(ty) => self@.rust_names.contains_key(name@) && ty@
                    == self@.nodes[self@.rust_names[name@] as int] && ty@.normalized_name == name@,
                None => !self@.rust_names.contains_key(name@),
            },
    {
        match self.rust_names_map.get(name) {
            Some(index) => {
                assert(self@.rust_names.contains_key(name@));
                self.conv_graph.node(*index)
            },
            None => None,
        }
    }

    /// The node of the type `ty` with the unique name `name`: the one that
    /// the name has, or a new one.
    pub fn node_for(&mut self, ty: TypeExpr, name: &str) -> (r: usize)
        requires
            old(self).wf(),
        ensures
            (final(self)@, r) == with_node(old(self)@, ty@, name@),
            final(self).wf(),
            r < final(self)@.nodes.len(),
    {
        match self.rust_names_map.get(name) {
            Some(index) => *index,
            None => {
                let index = self.conv_graph.add_node(RustType::new(ty, name));
                self.rust_names_map.insert(name, index);
                index
            },
        }
    }
}

/// The type that a registry holds under a unique name.
pub open spec fn registered(m: TypeMapModel, name: Seq<char>) -> Option<RustTypeModel> {
    if m.rust_names.contains_key(name) && m.rust_names[name] < m.nodes.len() {
        Some(m.nodes[m.rust_names[name] as int])
    } else {
        None
    }
}

impl TypeLookup for TypeMap {
    open spec fn known(&self, name: Seq<char>) -> Option<RustTypeModel> {
        registered(self@, name)
    }

    fn lookup(&self, name: &str) -> (r: Option<&RustType>) {
        match self.rust_names_map.get(name) {
            Some(index) => {
                assert(self@.rust_names.contains_key(name@));
                self.conv_graph.node(*index)
            },
            None => None,
        }
    }
}

/// Registers the fixed conversion from `from` to `to`, each given with the
/// suffix that makes its name unique: both types get a node, unless they have
/// one, and an edge with the code `conv_code` leads from the one to the other.
pub fn add_conv_code(
    from: (TypeExpr, Option<String>),
    to: (TypeExpr, Option<String>),
    item_code: String,
    conv_code: String,
    ret: &mut TypeMap,
)
    requires
        old(ret).wf(),
    ensures
        final(ret)@ == with_conv_code(
            old(ret)@,
            (from.0@, text_model(from.1)),
            (to.0@, text_model(to.1)),
            item_code@,
            conv_code@,
        ),
        final(ret).wf(),
{
    let (from, from_suffix) = from;
    let from_typename = make_unique_typename_if_need(normalize_ty_lifetimes(&from), from_suffix);
    let (to, to_suffix) = to;
    let to_typename = make_unique_typename_if_need(normalize_ty_lifetimes(&to), to_suffix);
    let from_index = ret.node_for(from, from_typename.as_str());
    let to_index = ret.node_for(to, to_typename.as_str());
    ret.conv_graph.add_edge(from_index, to_index, TypeConvEdge::new(conv_code, Some(item_code)));
}

} // verus!
