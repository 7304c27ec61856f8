//! Turning statements as a syntax parser reports them into the RDF model.
//!
//! Blank node labels are scoped to one document: the mapper gives each label a
//! fresh blank node the first time it meets it and the same node every time after.
use vstd::prelude::*;
use vstd::hash_map::StringHashMap;
use vstd::hash_set::HashSetWithView;
use crate::model::{xsd_string, BlankNode, GraphName, Literal, NamedNode, Quad, Subject, Term, Triple};
use crate::raw::{
    graph_name_labels, quad_labels, subject_labels, term_labels, triple_labels, RawGraphName,
    RawLiteral, RawQuad, RawSubject, RawTerm, RawTriple,
};

verus! {

/// The blank nodes given so far to the labels of a document.
pub type LabelMap = Map<Seq<char>, BlankNode>;

/// `b` is the blank node that `m` gives to `label`.
pub open spec fn blank_node_mapped(label: Seq<char>, m: LabelMap, b: BlankNode) -> bool {
    m.contains_key(label) && b == m[label]
}

/// `l` is the model literal of the literal `raw`; a literal typed `xsd:string` is simple.
pub open spec fn literal_mapped(raw: RawLiteral, l: Literal) -> bool {
    match raw {
        RawLiteral::Simple { value } => l matches Literal::Simple { value: v } && v@ == value@,
        RawLiteral::LanguageTagged { value, language } => l matches Literal::LanguageTagged {
            value: v,
            language: g,
        } && v@ == value@ && g@ == language@,
        RawLiteral::Typed { value, datatype } => if datatype@ == xsd_string() {
            l matches Literal::Simple { value: v } && v@ == value@
        } else {
            l matches Literal::Typed { value: v, datatype: d } && v@ == value@ && d.iri@
                == datatype@
        },
    }
}

/// `s` is the subject `raw` with each blank node label replaced by its node in `m`.
pub open spec fn subject_mapped(raw: RawSubject, m: LabelMap, s: Subject) -> bool
    decreases raw,
{
    match raw {
        RawSubject::NamedNode(iri) => s matches Subject::NamedNode(n) && n.iri@ == iri@,
        RawSubject::BlankNode(id) => s matches Subject::BlankNode(b) && blank_node_mapped(
            id@,
            m,
            b,
        ),
        RawSubject::Triple(t) => s matches Subject::Triple(u) && triple_mapped(*t, m, *u),
    }
}

/// `o` is the object `raw` with each blank node label replaced by its node in `m`.
pub open spec fn term_mapped(raw: RawTerm, m: LabelMap, o: Term) -> bool
    decreases raw,
{
    match raw {
        RawTerm::NamedNode(iri) => o matches Term::NamedNode(n) && n.iri@ == iri@,
        RawTerm::BlankNode(id) => o matches Term::BlankNode(b) && blank_node_mapped(id@, m, b),
        RawTerm::Literal(l) => o matches Term::Literal(k) && literal_mapped(l, k),
        RawTerm::Triple(t) => o matches Term::Triple(u) && triple_mapped(*t, m, *u),
    }
}

/// `t` is the triple `raw` with each blank node label replaced by its node in `m`.
pub open spec fn triple_mapped(raw: RawTriple, m: LabelMap, t: Triple) -> bool
    decreases raw,
{
    &&& subject_mapped(raw.subject, m, t.subject)
    &&& t.predicate.iri@ == raw.predicate@
    &&& term_mapped(raw.object, m, t.object)
}

/// `g` is the graph name `raw` with a blank node label replaced by its node in `m`;
/// no graph name stands for the default graph.
pub open spec fn graph_name_mapped(raw: Option<RawGraphName>, m: LabelMap, g: GraphName) -> bool {
    match raw {
        Some(RawGraphName::NamedNode(iri)) => g matches GraphName::NamedNode(n) && n.iri@ == iri@,
        Some(RawGraphName::BlankNode(id)) => g matches GraphName::BlankNode(b)
            && blank_node_mapped(id@, m, b),
        None => g is DefaultGraph,
    }
}

/// `q` is the quad `raw` with each blank node label replaced by its node in `m`.
pub open spec fn quad_mapped(raw: RawQuad, m: LabelMap, q: Quad) -> bool {
    &&& subject_mapped(raw.subject, m, q.subject)
    &&& q.predicate.iri@ == raw.predicate@
    &&& term_mapped(raw.object, m, q.object)
    &&& graph_name_mapped(raw.graph_name, m, q.graph_name)
}

/// `next` keeps every label of `prev` with its node, and adds exactly the labels `labels`.
pub open spec fn extends_with(prev: LabelMap, next: LabelMap, labels: Set<Seq<char>>) -> bool {
    &&& prev.submap_of(next)
    &&& next.dom() == prev.dom().union(labels)
}

/// A subject stays mapped when the label map grows.
pub proof fn lemma_subject_mapped_grow(raw: RawSubject, m1: LabelMap, m2: LabelMap, s: Subject)
    requires
        subject_mapped(raw, m1, s),
        m1.submap_of(m2),
    ensures
        subject_mapped(raw, m2, s),
    decreases raw,
{
    if let RawSubject::Triple(t) = raw {
        if let Subject::Triple(u) = s {
            lemma_triple_mapped_grow(*t, m1, m2, *u);
        }
    }
}

/// An object stays mapped when the label map grows.
pub proof fn lemma_term_mapped_grow(raw: RawTerm, m1: LabelMap, m2: LabelMap, o: Term)
    requires
        term_mapped(raw, m1, o),
        m1.submap_of(m2),
    ensures
        term_mapped(raw, m2, o),
    decreases raw,
{
    if let RawTerm::Triple(t) = raw {
        if let Term::Triple(u) = o {
            lemma_triple_mapped_grow(*t, m1, m2, *u);
        }
    }
}

/// A triple stays mapped when the label map grows.
pub proof fn lemma_triple_mapped_grow(raw: RawTriple, m1: LabelMap, m2: LabelMap, t: Triple)
    requires
        triple_mapped(raw, m1, t),
        m1.submap_of(m2),
    ensures
        triple_mapped(raw, m2, t),
    decreases raw,
{
    lemma_subject_mapped_grow(raw.subject, m1, m2, t.subject);
    lemma_term_mapped_grow(raw.object, m1, m2, t.object);
}

/// A quad stays mapped when the label map grows.
pub proof fn lemma_quad_mapped_grow(raw: RawQuad, m1: LabelMap, m2: LabelMap, q: Quad)
    requires
        quad_mapped(raw, m1, q),
        m1.submap_of(m2),
    ensures
        quad_mapped(raw, m2, q),
{
    lemma_subject_mapped_grow(raw.subject, m1, m2, q.subject);
    lemma_term_mapped_grow(raw.object, m1, m2, q.object);
}

/// Within one label map, a blank node label stands for one node wherever it occurs:
/// as a subject, as an object or as a graph name.
pub proof fn law_label_one_node(
    label: Seq<char>,
    m: LabelMap,
    subject: Subject,
    object: Term,
    graph_name: GraphName,
    a: String,
    b: String,
    c: String,
)
    requires
        a@ == label,
        b@ == label,
        c@ == label,
        subject_mapped(RawSubject::BlankNode(a), m, subject),
        term_mapped(RawTerm::BlankNode(b), m, object),
        graph_name_mapped(Some(RawGraphName::BlankNode(c)), m, graph_name),
    ensures
        subject == Subject::BlankNode(m[label]),
        object == Term::BlankNode(m[label]),
        graph_name == GraphName::BlankNode(m[label]),
{
}

/// `m` gives different labels different blank nodes.
pub open spec fn labels_apart(m: LabelMap) -> bool {
    forall|l1: Seq<char>, l2: Seq<char>|
        #![trigger m[l1], m[l2]]
        m.contains_key(l1) && m.contains_key(l2) && l1 != l2 ==> m[l1] != m[l2]
}

/// `b` is none of the blank nodes that `m` has given.
pub open spec fn node_is_new(m: LabelMap, b: BlankNode) -> bool {
    forall|l: Seq<char>| #[trigger] m.contains_key(l) ==> m[l] != b
}

/// `next` keeps the labels of `prev` with their nodes, and gives each label that is new
/// to it a node that `prev` does not give any label, a different one for each.
pub open spec fn fresh_extension(prev: LabelMap, next: LabelMap) -> bool {
    &&& prev.submap_of(next)
    &&& forall|l: Seq<char>|
        #[trigger] next.contains_key(l) && !prev.contains_key(l) ==> node_is_new(prev, next[l])
    &&& forall|l1: Seq<char>, l2: Seq<char>|
        #![trigger next[l1], next[l2]]
        next.contains_key(l1) && !prev.contains_key(l1) && next.contains_key(l2)
            && !prev.contains_key(l2) && l1 != l2 ==> next[l1] != next[l2]
}

/// Different labels keep different blank nodes: a map that gives each new label a
/// node of its own keeps apart the labels that were apart.
pub proof fn law_fresh_extension_keeps_labels_apart(prev: LabelMap, next: LabelMap)
    requires
        labels_apart(prev),
        fresh_extension(prev, next),
    ensures
        labels_apart(next),
{
    assert forall|l1: Seq<char>, l2: Seq<char>|
        next.contains_key(l1) && next.contains_key(l2) && l1 != l2 implies #[trigger] next[l1]
        != #[trigger] next[l2] by {
        if prev.contains_key(l1) && prev.contains_key(l2) {
            assert(prev[l1] != prev[l2]);
        } else if prev.contains_key(l1) {
            assert(node_is_new(prev, next[l2]));
            assert(prev[l1] != next[l2]);
        } else if prev.contains_key(l2) {
            assert(node_is_new(prev, next[l1]));
            assert(prev[l2] != next[l1]);
        }
    }
}

/// A call that adds no label gives no new node.
pub(crate) proof fn lemma_fresh_extension_same(m: LabelMap)
    ensures
        fresh_extension(m, m),
{
    assert forall|k: Seq<char>| #[trigger] m.dom().contains(k) implies m.dom().contains(k) && m[k]
        == m[k] by {}
}

proof fn lemma_submap_get(a: LabelMap, b: LabelMap, k: Seq<char>)
    requires
        a.submap_of(b),
        a.contains_key(k),
    ensures
        b.contains_key(k),
        b[k] == a[k],
{
    assert(a.dom().contains(k) ==> b.dom().contains(k) && a[k] == b[k]);
}

/// Giving new labels nodes of their own, call after call, gives them nodes of their
/// own over the whole run.
pub proof fn law_fresh_extension_chains(a: LabelMap, b: LabelMap, c: LabelMap)
    requires
        fresh_extension(a, b),
        fresh_extension(b, c),
    ensures
        fresh_extension(a, c),
{
    vstd::map_lib::lemma_submap_of_trans(a, b, c);
    assert forall|l: Seq<char>| #[trigger] c.contains_key(l) && !a.contains_key(l) implies node_is_new(
        a,
        c[l],
    ) by {
        if b.contains_key(l) {
            assert(node_is_new(a, b[l]));
            assert forall|k: Seq<char>| #[trigger] a.contains_key(k) implies a[k] != c[l] by {
                assert(a[k] != b[l]);
            }
        } else {
            assert(node_is_new(b, c[l]));
            assert forall|k: Seq<char>| #[trigger] a.contains_key(k) implies a[k] != c[l] by {
                lemma_submap_get(a, b, k);
                assert(b[k] != c[l]);
            }
        }
    }
    assert forall|l1: Seq<char>, l2: Seq<char>|
        c.contains_key(l1) && !a.contains_key(l1) && c.contains_key(l2) && !a.contains_key(l2)
            && l1 != l2 implies #[trigger] c[l1] != #[trigger] c[l2] by {
        if b.contains_key(l1) && b.contains_key(l2) {
            assert(b[l1] != b[l2]);
        } else if b.contains_key(l1) {
            assert(node_is_new(b, c[l2]));
            assert(b[l1] != c[l2]);
        } else if b.contains_key(l2) {
            assert(node_is_new(b, c[l1]));
            assert(b[l2] != c[l1]);
        }
    }
}

/// A label met for the first time and given a node that no label has yet keeps the
/// labels of a document apart: different labels stay on different blank nodes, and
/// the new node differs from every node given before.
pub proof fn law_new_label_gets_a_node_of_its_own(m: LabelMap, label: Seq<char>, fresh: BlankNode)
    requires
        labels_apart(m),
        !m.contains_key(label),
        node_is_new(m, fresh),
    ensures
        labels_apart(m.insert(label, fresh)),
        forall|l: Seq<char>| #[trigger] m.contains_key(l) ==> m.insert(label, fresh)[l] != fresh,
{
    let n = m.insert(label, fresh);
    assert forall|l1: Seq<char>, l2: Seq<char>|
        n.contains_key(l1) && n.contains_key(l2) && l1 != l2 implies #[trigger] n[l1] != #[trigger] n[l2] by {
        if l1 != label && l2 != label {
            assert(m[l1] != m[l2]);
        } else if l1 == label {
            assert(m.contains_key(l2));
        } else {
            assert(m.contains_key(l1));
        }
    }
}

/// In a map that keeps labels apart, two labels are given the same blank node exactly
/// when they are the same label.
pub proof fn law_same_node_exactly_for_same_label(
    m: LabelMap,
    l1: Seq<char>,
    l2: Seq<char>,
    b1: BlankNode,
    b2: BlankNode,
)
    requires
        labels_apart(m),
        blank_node_mapped(l1, m, b1),
        blank_node_mapped(l2, m, b2),
    ensures
        b1 == b2 <==> l1 == l2,
{
    if l1 != l2 {
        assert(m[l1] != m[l2]);
    }
}

/// In a triple mapped with a map that keeps labels apart, a blank subject and a blank
/// object are the same node exactly when they have the same label.
pub proof fn law_triple_blank_nodes_follow_labels(raw: RawTriple, m: LabelMap, t: Triple)
    requires
        labels_apart(m),
        triple_mapped(raw, m, t),
        raw.subject is BlankNode,
        raw.object is BlankNode,
    ensures
        t.subject matches Subject::BlankNode(s) && t.object matches Term::BlankNode(o) && (s
            == o <==> raw.subject->BlankNode_0@ == raw.object->BlankNode_0@),
{
    assert(t.subject is BlankNode && t.object is BlankNode);
    law_same_node_exactly_for_same_label(
        m,
        raw.subject->BlankNode_0@,
        raw.object->BlankNode_0@,
        t.subject->BlankNode_0,
        t.object->BlankNode_0,
    );
}

/// In a quad mapped with a map that keeps labels apart, a blank subject and a blank
/// graph name are the same node exactly when they have the same label.
pub proof fn law_quad_blank_graph_name_follows_its_label(raw: RawQuad, m: LabelMap, q: Quad)
    requires
        labels_apart(m),
        quad_mapped(raw, m, q),
        raw.subject is BlankNode,
        raw.graph_name matches Some(RawGraphName::BlankNode(_)),
    ensures
        q.subject matches Subject::BlankNode(s) && q.graph_name matches GraphName::BlankNode(g)
            && (s == g <==> raw.subject->BlankNode_0@ == raw.graph_name->Some_0->BlankNode_0@),
{
    assert(q.subject is BlankNode && q.graph_name is BlankNode);
    law_same_node_exactly_for_same_label(
        m,
        raw.subject->BlankNode_0@,
        raw.graph_name->Some_0->BlankNode_0@,
        q.subject->BlankNode_0,
        q.graph_name->BlankNode_0,
    );
}

/// `maps` are the label maps of a mapper before and after consecutive calls, call `k`
/// adding the labels `added[k]`, as the `ensures` of each mapping method says.
pub open spec fn mapper_run(maps: Seq<LabelMap>, added: Seq<Set<Seq<char>>>) -> bool {
    &&& maps.len() == added.len() + 1
    &&& forall|k: int|
        #![trigger added[k]]
        0 <= k < added.len() ==> extends_with(maps[k], maps[k + 1], added[k])
}

/// A label keeps its blank node over any run of mapper calls: the node given to a
/// label before is the node given to it after.
pub proof fn law_label_keeps_its_node(
    maps: Seq<LabelMap>,
    added: Seq<Set<Seq<char>>>,
    i: int,
    j: int,
    label: Seq<char>,
)
    requires
        mapper_run(maps, added),
        0 <= i <= j < maps.len(),
        maps[i].contains_key(label),
    ensures
        maps[j].contains_key(label),
        maps[j][label] == maps[i][label],
    decreases j - i,
{
    if i < j {
        law_label_keeps_its_node(maps, added, i, j - 1, label);
        assert(extends_with(maps[j - 1], maps[j], added[j - 1]));
    }
}

/// Gives model terms to the statements of one document.
pub struct RioMapper {
    bnode_map: StringHashMap<BlankNode>,
    /// The identifiers of the nodes given so far (and of nodes handed to
    /// `blank_node_with`).
    used: HashSetWithView<u128>,
}

impl RioMapper {
    /// Every node the mapper gives has its identifier among the ones it has used.
    #[verifier::type_invariant]
    spec fn ids_recorded(self) -> bool {
        &&& self.used@.finite()
        &&& forall|l: Seq<char>|
            #[trigger] self.bnode_map@.contains_key(l) ==> self.used@.contains(
                self.bnode_map@[l].id,
            )
    }
}

/// A blank node whose identifier is not in `used`: the drawn identifier when it is
/// not, else the least identifier that is not.
fn unused_node(used: &HashSetWithView<u128>, drawn: u128) -> (b: BlankNode)
    requires
        used@.finite(),
    ensures
        !used@.contains(b.id),
        !used@.contains(drawn) ==> b.id == drawn,
{
    if !used.contains(&drawn) {
        return BlankNode { id: drawn };
    }
    let n = used.len();
    let mut k: u128 = 0;
    let ghost mut seen: Set<u128> = Set::empty();
    while used.contains(&k)
        invariant
            used@.finite(),
            n == used@.len(),
            seen.finite(),
            seen.len() == k,
            seen.subset_of(used@),
            forall|j: u128| #[trigger] seen.contains(j) <==> j < k,
            k <= n,
        decreases n - k,
    {
        proof {
            assert(!seen.contains(k));
            seen = seen.insert(k);
            vstd::set_lib::lemma_len_subset(seen, used@);
        }
        k = k + 1;
    }
    BlankNode { id: k }
}

impl View for RioMapper {
    type V = LabelMap;

    closed spec fn view(&self) -> LabelMap {
        self.bnode_map@
    }
}

impl Default for RioMapper {
    fn default() -> (m: RioMapper)
        ensures
            m@ == LabelMap::empty(),
    {
        RioMapper::new()
    }
}

impl RioMapper {
    /// A mapper that has met no label yet.
    pub fn new() -> (m: RioMapper)
        ensures
            m@ == LabelMap::empty(),
    {
        broadcast use vstd::std_specs::hash::axiom_u128_obeys_hash_table_key_model;

        RioMapper { bnode_map: StringHashMap::new(), used: HashSetWithView::new() }
    }

    /// The named node of an IRI.
    pub fn named_node(iri: &str) -> (n: NamedNode)
        ensures
            n.iri@ == iri@,
    {
        NamedNode::new_unchecked(iri)
    }

    /// The blank node of a label: the one given before, or else `fresh`, which is
    /// remembered for the label.
    pub fn blank_node_with(&mut self, id: &str, fresh: BlankNode) -> (b: BlankNode)
        ensures
            old(self)@.contains_key(id@) ==> b == old(self)@[id@] && final(self)@ == old(self)@,
            !old(self)@.contains_key(id@) ==> b == fresh && final(self)@ == old(self)@.insert(
                id@,
                fresh,
            ),
            blank_node_mapped(id@, final(self)@, b),
            extends_with(old(self)@, final(self)@, set![id@]),
    {
        broadcast use vstd::std_specs::hash::axiom_u128_obeys_hash_table_key_model;

        proof {
            use_type_invariant(&*self);
        }
        match self.bnode_map.get(id) {
            Some(b) => {
                let b = *b;
                assert(final(self)@.dom() =~= old(self)@.dom().union(set![id@]));
                b
            },
            None => {
                let ghost m0 = self.bnode_map@;
                let mut map = StringHashMap::new();
                std::mem::swap(&mut map, &mut self.bnode_map);
                let mut used = HashSetWithView::new();
                std::mem::swap(&mut used, &mut self.used);
                map.insert(id.to_owned(), fresh);
                used.insert(fresh.id);
                proof {
                    vstd::set_lib::lemma_set_insert_finite_iff(old(self).used@, fresh.id);
                    assert forall|l: Seq<char>| #[trigger] map@.contains_key(l) implies used@.contains(
                        map@[l].id,
                    ) by {
                        if l != id@ {
                            assert(m0.contains_key(l));
                        }
                    }
                }
                self.used = used;
                self.bnode_map = map;
                assert(final(self)@.dom() =~= old(self)@.dom().union(set![id@]));
                fresh
            },
        }
    }

    /// The blank node of a label: the one given before, or a new one with a random
    /// identifier, which is remembered for the label.
    pub fn blank_node(&mut self, id: &str) -> (b: BlankNode)
        ensures
            old(self)@.contains_key(id@) ==> final(self)@ == old(self)@ && b == old(self)@[id@],
            !old(self)@.contains_key(id@) ==> final(self)@ == old(self)@.insert(id@, b),
            !old(self)@.contains_key(id@) ==> node_is_new(old(self)@, b),
            blank_node_mapped(id@, final(self)@, b),
            extends_with(old(self)@, final(self)@, set![id@]),
            fresh_extension(old(self)@, final(self)@),
    {
        proof {
            use_type_invariant(&*self);
        }
        let fresh = unused_node(&self.used, BlankNode::new_random().id);
        let b = self.blank_node_with(id, fresh);
        b
    }

    /// The model literal of a literal.
    pub fn literal(literal: &RawLiteral) -> (l: Literal)
        ensures
            literal_mapped(*literal, l),
    {
        match literal {
            RawLiteral::Simple { value } => Literal::new_simple_literal(value.as_str()),
            RawLiteral::LanguageTagged { value, language } => {
                Literal::new_language_tagged_literal_unchecked(value.as_str(), language.as_str())
            },
            RawLiteral::Typed { value, datatype } => {
                Literal::new_typed_literal(value.as_str(), Self::named_node(datatype.as_str()))
            },
        }
    }

    /// The model subject of a subject.
    pub fn subject(&mut self, node: &RawSubject) -> (s: Subject)
        ensures
            extends_with(old(self)@, final(self)@, subject_labels(*node)),
            subject_mapped(*node, final(self)@, s),
            fresh_extension(old(self)@, final(self)@),
        decreases node,
    {
        match node {
            RawSubject::NamedNode(iri) => {
                assert(final(self)@.dom() =~= old(self)@.dom().union(subject_labels(*node)));
                Subject::NamedNode(Self::named_node(iri.as_str()))
            },
            RawSubject::BlankNode(id) => Subject::BlankNode(self.blank_node(id.as_str())),
            RawSubject::Triple(triple) => Subject::Triple(Box::new(self.triple(triple))),
        }
    }

    /// The model object of an object.
    pub fn term(&mut self, node: &RawTerm) -> (o: Term)
        ensures
            extends_with(old(self)@, final(self)@, term_labels(*node)),
            term_mapped(*node, final(self)@, o),
            fresh_extension(old(self)@, final(self)@),
        decreases node,
    {
        match node {
            RawTerm::NamedNode(iri) => {
                assert(final(self)@.dom() =~= old(self)@.dom().union(term_labels(*node)));
                Term::NamedNode(Self::named_node(iri.as_str()))
            },
            RawTerm::BlankNode(id) => Term::BlankNode(self.blank_node(id.as_str())),
            RawTerm::Literal(literal) => {
                assert(final(self)@.dom() =~= old(self)@.dom().union(term_labels(*node)));
                Term::Literal(Self::literal(literal))
            },
            RawTerm::Triple(triple) => Term::Triple(Box::new(self.triple(triple))),
        }
    }

    /// The model triple of a triple.
    pub fn triple(&mut self, triple: &RawTriple) -> (t: Triple)
        ensures
            extends_with(old(self)@, final(self)@, triple_labels(*triple)),
            triple_mapped(*triple, final(self)@, t),
            fresh_extension(old(self)@, final(self)@),
        decreases triple,
    {
        let ghost m0 = self@;
        let subject = self.subject(&triple.subject);
        let ghost m1 = self@;
        let predicate = Self::named_node(triple.predicate.as_str());
        let object = self.term(&triple.object);
        proof {
            lemma_subject_mapped_grow(triple.subject, m1, self@, subject);
            assert(self@.dom() =~= m0.dom().union(triple_labels(*triple)));
            law_fresh_extension_chains(m0, m1, self@);
        }
        Triple { subject, predicate, object }
    }

    /// The model graph name of a graph name; none stands for the default graph.
    pub fn graph_name(&mut self, graph_name: &Option<RawGraphName>) -> (g: GraphName)
        ensures
            extends_with(old(self)@, final(self)@, graph_name_labels(*graph_name)),
            graph_name_mapped(*graph_name, final(self)@, g),
            fresh_extension(old(self)@, final(self)@),
    {
        match graph_name {
            Some(RawGraphName::NamedNode(iri)) => {
                assert(final(self)@.dom() =~= old(self)@.dom().union(
                    graph_name_labels(*graph_name),
                ));
                GraphName::NamedNode(Self::named_node(iri.as_str()))
            },
            Some(RawGraphName::BlankNode(id)) => GraphName::BlankNode(
                self.blank_node(id.as_str()),
            ),
            None => {
                assert(final(self)@.dom() =~= old(self)@.dom().union(
                    graph_name_labels(*graph_name),
                ));
                GraphName::DefaultGraph
            },
        }
    }

    /// The model quad of a quad.
    pub fn quad(&mut self, quad: &RawQuad) -> (q: Quad)
        ensures
            extends_with(old(self)@, final(self)@, quad_labels(*quad)),
            quad_mapped(*quad, final(self)@, q),
            fresh_extension(old(self)@, final(self)@),
    {
        let ghost m0 = self@;
        let subject = self.subject(&quad.subject);
        let ghost m1 = self@;
        let predicate = Self::named_node(quad.predicate.as_str());
        let object = self.term(&quad.object);
        let ghost m2 = self@;
        let graph_name = self.graph_name(&quad.graph_name);
        proof {
            lemma_subject_mapped_grow(quad.subject, m1, self@, subject);
            lemma_term_mapped_grow(quad.object, m2, self@, object);
            assert(self@.dom() =~= m0.dom().union(quad_labels(*quad)));
            law_fresh_extension_chains(m0, m1, m2);
            law_fresh_extension_chains(m0, m2, self@);
        }
        Quad { subject, predicate, object, graph_name }
    }
}

} // verus!
