//! Selections over cached or listed objects: which pods lie in a namespace or
//! on a node, which pod or node has a name, and the names that objects carry.
use vstd::prelude::*;
use crate::text::{str_eq, views};

verus! {

/// What the cache lookups read of a pod: its namespace, its name
/// (`name_any`) and the node it is scheduled on.
#[derive(Clone, Debug)]
pub struct PodRef {
    pub namespace: Option<String>,
    pub name: String,
    pub node_name: Option<String>,
}

/// The pod lies in namespace `ns`.
pub open spec fn in_namespace(p: PodRef, ns: Seq<char>) -> bool {
    p.namespace matches Some(n) && n@ == ns
}

/// The pod is scheduled on node `node`.
pub open spec fn on_node(p: PodRef, node: Seq<char>) -> bool {
    p.node_name matches Some(n) && n@ == node
}

/// Positions of the pods in namespace `ns`, in order.
pub open spec fn namespace_positions(s: Seq<PodRef>, ns: Seq<char>) -> Seq<usize>
    decreases s.len(),
{
    if s.len() == 0 {
        Seq::empty()
    } else if in_namespace(s.last(), ns) {
        namespace_positions(s.drop_last(), ns).push((s.len() - 1) as usize)
    } else {
        namespace_positions(s.drop_last(), ns)
    }
}

/// Positions of the pods on node `node`, in order.
pub open spec fn node_positions(s: Seq<PodRef>, node: Seq<char>) -> Seq<usize>
    decreases s.len(),
{
    if s.len() == 0 {
        Seq::empty()
    } else if on_node(s.last(), node) {
        node_positions(s.drop_last(), node).push((s.len() - 1) as usize)
    } else {
        node_positions(s.drop_last(), node)
    }
}

/// Whether the optional string is `Some(t)` with `t` equal to `s`.
fn opt_eq(o: &Option<String>, s: &str) -> (r: bool)
    ensures
        r == (o matches Some(n) && n@ == s@),
{
    match o {
        Some(n) => str_eq(n.as_str(), s),
        None => false,
    }
}

/// Positions of the pods in namespace `ns` (`get_pods_by_namespace`).
pub fn pods_in_namespace(pods: &Vec<PodRef>, ns: &str) -> (r: Vec<usize>)
    ensures
        r@ == namespace_positions(pods@, ns@),
{
    let mut out: Vec<usize> = Vec::new();
    let mut i: usize = 0;
    while i < pods.len()
        invariant
            0 <= i <= pods@.len(),
            out@ == namespace_positions(pods@.take(i as int), ns@),
        decreases pods.len() - i,
    {
        assert(pods@.take(i + 1).drop_last() == pods@.take(i as int));
        assert(pods@.take(i + 1).last() == pods@[i as int]);
        if opt_eq(&pods[i].namespace, ns) {
            out.push(i);
        }
        i = i + 1;
    }
    assert(pods@.take(pods@.len() as int) == pods@);
    out
}

/// Positions of the pods on node `node` (`get_pods_by_node`).
pub fn pods_on_node(pods: &Vec<PodRef>, node: &str) -> (r: Vec<usize>)
    ensures
        r@ == node_positions(pods@, node@),
{
    let mut out: Vec<usize> = Vec::new();
    let mut i: usize = 0;
    while i < pods.len()
        invariant
            0 <= i <= pods@.len(),
            out@ == node_positions(pods@.take(i as int), node@),
        decreases pods.len() - i,
    {
        assert(pods@.take(i + 1).drop_last() == pods@.take(i as int));
        assert(pods@.take(i + 1).last() == pods@[i as int]);
        if opt_eq(&pods[i].node_name, node) {
            out.push(i);
        }
        i = i + 1;
    }
    assert(pods@.take(pods@.len() as int) == pods@);
    out
}

/// Position of the first pod in namespace `ns` named `name` (`get_pod`).
pub fn find_pod(pods: &Vec<PodRef>, ns: &str, name: &str) -> (r: Option<usize>)
    ensures
        match r {
            Some(i) => i < pods@.len() && in_namespace(pods@[i as int], ns@) && pods@[i as int].name@ == name@
                && forall|j: int| 0 <= j < i ==> !(in_namespace(#[trigger] pods@[j], ns@) && pods@[j].name@ == name@),
            None => forall|j: int| 0 <= j < pods@.len() ==> !(in_namespace(#[trigger] pods@[j], ns@) && pods@[j].name@ == name@),
        },
{
    let mut i: usize = 0;
    while i < pods.len()
        invariant
            0 <= i <= pods@.len(),
            forall|j: int| 0 <= j < i ==> !(in_namespace(#[trigger] pods@[j], ns@) && pods@[j].name@ == name@),
        decreases pods.len() - i,
    {
        if opt_eq(&pods[i].namespace, ns) && str_eq(pods[i].name.as_str(), name) {
            return Some(i);
        }
        i = i + 1;
    }
    None
}

/// Position of the first name equal to `name` (`get_node`).
pub fn find_name(names: &Vec<String>, name: &str) -> (r: Option<usize>)
    ensures
        match r {
            Some(i) => i < names@.len() && names@[i as int]@ == name@
                && forall|j: int| 0 <= j < i ==> (#[trigger] names@[j])@ != name@,
            None => forall|j: int| 0 <= j < names@.len() ==> (#[trigger] names@[j])@ != name@,
        },
{
    let mut i: usize = 0;
    while i < names.len()
        invariant
            0 <= i <= names@.len(),
            forall|j: int| 0 <= j < i ==> (#[trigger] names@[j])@ != name@,
        decreases names.len() - i,
    {
        if str_eq(names[i].as_str(), name) {
            return Some(i);
        }
        i = i + 1;
    }
    None
}

/// The names that are present, in order.
pub open spec fn present_names(s: Seq<Option<String>>) -> Seq<Seq<char>>
    decreases s.len(),
{
    if s.len() == 0 {
        Seq::empty()
    } else {
        match s.last() {
            Some(n) => present_names(s.drop_last()).push(n@),
            None => present_names(s.drop_last()),
        }
    }
}

/// The names of the objects that have one (`filter_map(|o| o.metadata.name)`).
pub fn names_of_objects(names: Vec<Option<String>>) -> (r: Vec<String>)
    ensures
        views(r@) == present_names(names@),
{
    let mut out: Vec<String> = Vec::new();
    let mut i: usize = 0;
    while i < names.len()
        invariant
            0 <= i <= names@.len(),
            views(out@) == present_names(names@.take(i as int)),
        decreases names.len() - i,
    {
        assert(names@.take(i + 1).drop_last() == names@.take(i as int));
        assert(names@.take(i + 1).last() == names@[i as int]);
        if let Some(n) = &names[i] {
            let ghost o = out@;
            out.push(n.clone());
            assert(out@.drop_last() == o);
            assert(views(out@) =~= views(o).push(n@));
        }
        i = i + 1;
    }
    assert(names@.take(names@.len() as int) == names@);
    out
}

} // verus!
