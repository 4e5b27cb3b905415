//! Mapping of nodes, as read from the API, to their stored information.
use vstd::prelude::*;
use crate::client::mappers::{clone_opt, clone_strings, opt_text, opt_texts, ready_from, ready_of};
use crate::client::quantity::{
    as_u64, cpu_cores, fits_u64, memory_bytes, memory_fits, parse_cpu_cores, parse_memory_bytes,
    parse_pod_count, parse_storage_bytes, storage_bytes, storage_fits,
};
use crate::client::sources::{ContainerImageSource, NodeAddressSource, NodeSource, NodeStatusSource, NodeSystemInfoSource, TaintSource, node_maps_ascending};
use crate::info::node::InfoNodeEntity;
use crate::settings::kv::{join_strs, joined};
use crate::text::{parse_u32_spec, push_all, str_eq, views};
use crate::time::{UtcTime, format_rfc3339, parse_rfc3339_strict, rfc3339_strict_parse, rfc3339_text};

verus! {

/// The JSON text that `serde_json::to_string` writes for the string map with
/// these entries (`BTreeMap<String, String>`), or nothing where it reports an error.
pub uninterp spec fn json_map_text(entries: Seq<(Seq<char>, Seq<char>)>) -> Seq<char>;

/// The entries of a string map as values.
pub open spec fn entry_pairs(entries: Seq<(String, String)>) -> Seq<(Seq<char>, Seq<char>)> {
    entries.map_values(|e: (String, String)| (e.0@, e.1@))
}

/// Writes the map with these entries as JSON with `serde_json::to_string`,
/// giving the empty string where it reports an error (`unwrap_or_default`).
///
/// Claims only that the result is the named [`json_map_text`] of the entries.
#[verifier::external_body]
fn map_to_json(entries: &Vec<(String, String)>) -> (r: String)
    ensures
        r@ == json_map_text(entry_pairs(entries@)),
{
    let map: std::collections::BTreeMap<String, String> = entries.iter().cloned().collect();
    serde_json::to_string(&map).unwrap_or_default()
}

/// The address of the last entry of type `kind`.
pub open spec fn address_of(addrs: Seq<NodeAddressSource>, kind: Seq<char>) -> Option<String>
    decreases addrs.len(),
{
    if addrs.len() == 0 {
        None
    } else if addrs.last().kind@ == kind {
        Some(addrs.last().address)
    } else {
        address_of(addrs.drop_last(), kind)
    }
}

/// The quantity of the first entry named `name`.
pub open spec fn quantity_of(entries: Seq<(String, String)>, name: Seq<char>) -> Option<String>
    decreases entries.len(),
{
    if entries.len() == 0 {
        None
    } else {
        match quantity_of(entries.drop_last(), name) {
            Some(q) => Some(q),
            None => if entries.last().0@ == name { Some(entries.last().1) } else { None },
        }
    }
}

/// A taint as `key=value (effect)`.
pub open spec fn taint_text(t: TaintSource) -> Seq<char> {
    t.key@ + "="@ + (match t.value { Some(v) => v@, None => Seq::empty() }) + " ("@ + t.effect@ + ")"@
}

/// The taints as text.
pub open spec fn taint_texts(ts: Seq<TaintSource>) -> Seq<Seq<char>>
    decreases ts.len(),
{
    if ts.len() == 0 { Seq::empty() } else { taint_texts(ts.drop_last()).push(taint_text(ts.last())) }
}

/// All names of the images, in order.
pub open spec fn image_names_of(imgs: Seq<ContainerImageSource>) -> Seq<Seq<char>>
    decreases imgs.len(),
{
    if imgs.len() == 0 {
        Seq::empty()
    } else {
        image_names_of(imgs.drop_last()) + (match imgs.last().names {
            Some(n) => views(n@),
            None => Seq::empty(),
        })
    }
}

/// Sum of the image sizes given, each read as a `u64` (`size as u64`).
pub open spec fn image_size_total(imgs: Seq<ContainerImageSource>) -> int
    decreases imgs.len(),
{
    if imgs.len() == 0 {
        0
    } else {
        image_size_total(imgs.drop_last()) + (match imgs.last().size_bytes {
            Some(s) => (s as u64) as int,
            None => 0,
        })
    }
}

/// A quantity of the capacity or allocatable map of the status, read with `read`.
pub open spec fn status_quantity<A>(
    st: Option<NodeStatusSource>,
    allocatable: bool,
    name: Seq<char>,
    read: spec_fn(Seq<char>) -> Option<A>,
) -> Option<A> {
    match st {
        Some(s) => match (if allocatable { s.allocatable } else { s.capacity }) {
            Some(m) => match quantity_of(m@, name) {
                Some(q) => read(q@),
                None => None,
            },
            None => None,
        },
        None => None,
    }
}

/// The quantities and image sizes of the node fit in a `u64` (the
/// multiplications and the sum do not overflow).
pub open spec fn node_values_fit(n: NodeSource) -> bool {
    &&& fits_u64(status_quantity(n.status, false, "memory"@, |q: Seq<char>| memory_bytes(q)))
    &&& fits_u64(status_quantity(n.status, true, "memory"@, |q: Seq<char>| memory_bytes(q)))
    &&& fits_u64(status_quantity(n.status, false, "ephemeral-storage"@, |q: Seq<char>| storage_bytes(q)))
    &&& fits_u64(status_quantity(n.status, true, "ephemeral-storage"@, |q: Seq<char>| storage_bytes(q)))
    &&& match n.status {
        Some(s) => match s.images {
            Some(imgs) => image_size_total(imgs@) <= u64::MAX,
            None => true,
        },
        None => true,
    }
}

/// A field of the system information, where the node has it.
pub open spec fn info_field(n: NodeSource, f: spec_fn(NodeSystemInfoSource) -> String) -> Option<String> {
    match n.status {
        Some(s) => match s.node_info {
            Some(i) => Some(f(i)),
            None => None,
        },
        None => None,
    }
}

/// An address of the node, where it has addresses.
pub open spec fn node_address(n: NodeSource, kind: Seq<char>) -> Option<String> {
    match n.status {
        Some(s) => match s.addresses {
            Some(a) => address_of(a@, kind),
            None => None,
        },
        None => None,
    }
}

/// The creation time read back from its `to_rfc3339` text with `parse_from_rfc3339`.
pub open spec fn reparsed(t: Option<UtcTime>) -> Option<UtcTime> {
    match t {
        Some(x) => match rfc3339_text(x.secs, x.nanos) {
            Some(text) => match rfc3339_strict_parse(text) {
                Some(p) => Some(UtcTime { secs: p.0, nanos: p.1 }),
                None => None,
            },
            None => None,
        },
        None => None,
    }
}

/// The images of the node, where it lists them.
pub open spec fn node_images(n: NodeSource) -> Option<Seq<ContainerImageSource>> {
    match n.status {
        Some(s) => match s.images {
            Some(i) => Some(i@),
            None => None,
        },
        None => None,
    }
}

/// `e` is the stored information that `map_node_to_info_entity` gives for `n` at `now`.
pub open spec fn node_info_of(n: NodeSource, now: UtcTime, e: InfoNodeEntity) -> bool {
    let m = n.metadata;
    &&& e.node_name == m.name
    &&& e.node_uid == m.uid
    &&& e.creation_timestamp == reparsed(m.creation_timestamp)
    &&& e.resource_version == m.resource_version
    &&& e.last_updated_info_at == Some(now)
    &&& e.deleted is None
    &&& e.last_check_deleted_count is None
    &&& e.hostname == node_address(n, "Hostname"@)
    &&& e.internal_ip == node_address(n, "InternalIP"@)
    &&& e.architecture == info_field(n, |i: NodeSystemInfoSource| i.architecture)
    &&& e.os_image == info_field(n, |i: NodeSystemInfoSource| i.os_image)
    &&& e.kernel_version == info_field(n, |i: NodeSystemInfoSource| i.kernel_version)
    &&& e.kubelet_version == info_field(n, |i: NodeSystemInfoSource| i.kubelet_version)
    &&& e.container_runtime == info_field(n, |i: NodeSystemInfoSource| i.container_runtime_version)
    &&& e.operating_system == info_field(n, |i: NodeSystemInfoSource| i.operating_system)
    &&& e.cpu_capacity_cores == status_quantity(n.status, false, "cpu"@, |q: Seq<char>| cpu_cores(q))
    &&& e.memory_capacity_bytes == as_u64(status_quantity(n.status, false, "memory"@, |q: Seq<char>| memory_bytes(q)))
    &&& e.pod_capacity == status_quantity(n.status, false, "pods"@, |q: Seq<char>| parse_u32_spec(q))
    &&& e.ephemeral_storage_capacity_bytes
        == as_u64(status_quantity(n.status, false, "ephemeral-storage"@, |q: Seq<char>| storage_bytes(q)))
    &&& e.cpu_allocatable_cores == status_quantity(n.status, true, "cpu"@, |q: Seq<char>| cpu_cores(q))
    &&& e.memory_allocatable_bytes == as_u64(status_quantity(n.status, true, "memory"@, |q: Seq<char>| memory_bytes(q)))
    &&& e.ephemeral_storage_allocatable_bytes
        == as_u64(status_quantity(n.status, true, "ephemeral-storage"@, |q: Seq<char>| storage_bytes(q)))
    &&& e.pod_allocatable == status_quantity(n.status, true, "pods"@, |q: Seq<char>| parse_u32_spec(q))
    &&& e.ready == (match n.status {
        Some(s) => match s.conditions {
            Some(c) => ready_of(c@),
            None => None,
        },
        None => None,
    })
    &&& opt_text(e.taints) == (match n.taints {
        Some(t) => Some(joined(taint_texts(t@), ", "@)),
        None => None,
    })
    &&& opt_text(e.label) == (match m.labels {
        Some(l) => Some(json_map_text(entry_pairs(l@))),
        None => None,
    })
    &&& opt_text(e.annotation) == (match m.annotations {
        Some(a) => Some(json_map_text(entry_pairs(a@))),
        None => None,
    })
    &&& e.image_count == (match node_images(n) { Some(i) => Some(i.len() as u32), None => None })
    &&& opt_texts(e.image_names) == (match node_images(n) { Some(i) => Some(image_names_of(i)), None => None })
    &&& e.image_total_size_bytes == (match node_images(n) { Some(i) => Some(image_size_total(i) as u64), None => None })
    &&& e.fixed_instance_usd is None
    &&& e.price_period is None
    &&& e.team is None
    &&& e.service is None
    &&& e.env is None
}

/// The address of the last entry of type `kind`.
fn address_from(addrs: &Vec<NodeAddressSource>, kind: &str) -> (r: Option<String>)
    ensures
        r == address_of(addrs@, kind@),
{
    let mut found: Option<String> = None;
    let mut i: usize = 0;
    while i < addrs.len()
        invariant
            0 <= i <= addrs@.len(),
            found == address_of(addrs@.take(i as int), kind@),
        decreases addrs.len() - i,
    {
        assert(addrs@.take(i + 1).drop_last() == addrs@.take(i as int));
        assert(addrs@.take(i + 1).last() == addrs@[i as int]);
        if str_eq(addrs[i].kind.as_str(), kind) {
            found = Some(addrs[i].address.clone());
        }
        i = i + 1;
    }
    assert(addrs@.take(addrs@.len() as int) == addrs@);
    found
}

/// Once a prefix names a quantity, the whole map gives that one.
proof fn lemma_quantity_of_prefix(s: Seq<(String, String)>, name: Seq<char>, k: int)
    requires
        0 <= k <= s.len(),
        quantity_of(s.take(k), name) is Some,
    ensures
        quantity_of(s, name) == quantity_of(s.take(k), name),
    decreases s.len(),
{
    if k < s.len() {
        assert(s.drop_last().take(k) == s.take(k));
        lemma_quantity_of_prefix(s.drop_last(), name, k);
    } else {
        assert(s.take(k) == s);
    }
}

/// The quantity of the first entry named `name`.
fn quantity_from(entries: &Vec<(String, String)>, name: &str) -> (r: Option<String>)
    ensures
        r == quantity_of(entries@, name@),
{
    let ghost s = entries@;
    let mut i: usize = 0;
    assert(s.take(0) =~= Seq::<(String, String)>::empty());
    while i < entries.len()
        invariant
            0 <= i <= s.len(),
            s == entries@,
            quantity_of(s.take(i as int), name@) is None,
        decreases entries.len() - i,
    {
        assert(s.take(i + 1).drop_last() == s.take(i as int));
        assert(s.take(i + 1).last() == s[i as int]);
        if str_eq(entries[i].0.as_str(), name) {
            proof {
                lemma_quantity_of_prefix(s, name@, i + 1);
            }
            return Some(entries[i].1.clone());
        }
        i = i + 1;
    }
    assert(s.take(s.len() as int) == s);
    None
}

/// The map of the status to read: capacity or allocatable.
fn status_map(st: &Option<NodeStatusSource>, allocatable: bool) -> (r: Option<&Vec<(String, String)>>)
    ensures
        match *st {
            Some(s) => (if allocatable { s.allocatable } else { s.capacity }) == (match r { Some(m) => Some(*m), None => None }),
            None => r is None,
        },
{
    match st {
        Some(s) => if allocatable {
            match &s.allocatable {
                Some(m) => Some(m),
                None => None,
            }
        } else {
            match &s.capacity {
                Some(m) => Some(m),
                None => None,
            }
        },
        None => None,
    }
}

/// The quantity named `name` in the capacity or allocatable map.
fn quantity_at(st: &Option<NodeStatusSource>, allocatable: bool, name: &str) -> (r: Option<String>)
    ensures
        r == (match *st {
            Some(s) => match (if allocatable { s.allocatable } else { s.capacity }) {
                Some(m) => quantity_of(m@, name@),
                None => None,
            },
            None => None,
        }),
{
    match status_map(st, allocatable) {
        Some(m) => quantity_from(m, name),
        None => None,
    }
}

/// CPU cores in the capacity or allocatable map.
fn cpu_at(st: &Option<NodeStatusSource>, allocatable: bool) -> (r: Option<u32>)
    ensures
        r == status_quantity(*st, allocatable, "cpu"@, |q: Seq<char>| cpu_cores(q)),
{
    match quantity_at(st, allocatable, "cpu") {
        Some(q) => parse_cpu_cores(q.as_str()),
        None => None,
    }
}

/// Pod count in the capacity or allocatable map.
fn pods_at(st: &Option<NodeStatusSource>, allocatable: bool) -> (r: Option<u32>)
    ensures
        r == status_quantity(*st, allocatable, "pods"@, |q: Seq<char>| parse_u32_spec(q)),
{
    match quantity_at(st, allocatable, "pods") {
        Some(q) => parse_pod_count(q.as_str()),
        None => None,
    }
}

/// Memory bytes in the capacity or allocatable map.
fn memory_at(st: &Option<NodeStatusSource>, allocatable: bool) -> (r: Option<u64>)
    requires
        fits_u64(status_quantity(*st, allocatable, "memory"@, |q: Seq<char>| memory_bytes(q))),
    ensures
        r == as_u64(status_quantity(*st, allocatable, "memory"@, |q: Seq<char>| memory_bytes(q))),
{
    match quantity_at(st, allocatable, "memory") {
        Some(q) => parse_memory_bytes(q.as_str()),
        None => None,
    }
}

/// Storage bytes in the capacity or allocatable map.
fn storage_at(st: &Option<NodeStatusSource>, allocatable: bool) -> (r: Option<u64>)
    requires
        fits_u64(status_quantity(*st, allocatable, "ephemeral-storage"@, |q: Seq<char>| storage_bytes(q))),
    ensures
        r == as_u64(status_quantity(*st, allocatable, "ephemeral-storage"@, |q: Seq<char>| storage_bytes(q))),
{
    match quantity_at(st, allocatable, "ephemeral-storage") {
        Some(q) => parse_storage_bytes(q.as_str()),
        None => None,
    }
}

/// Whether the memory quantity in the map fits in a `u64`.
fn memory_at_fits(st: &Option<NodeStatusSource>, allocatable: bool) -> (r: bool)
    ensures
        r == fits_u64(status_quantity(*st, allocatable, "memory"@, |q: Seq<char>| memory_bytes(q))),
{
    match quantity_at(st, allocatable, "memory") {
        Some(q) => memory_fits(q.as_str()),
        None => true,
    }
}

/// Whether the storage quantity in the map fits in a `u64`.
fn storage_at_fits(st: &Option<NodeStatusSource>, allocatable: bool) -> (r: bool)
    ensures
        r == fits_u64(status_quantity(*st, allocatable, "ephemeral-storage"@, |q: Seq<char>| storage_bytes(q))),
{
    match quantity_at(st, allocatable, "ephemeral-storage") {
        Some(q) => storage_fits(q.as_str()),
        None => true,
    }
}

/// A prefix's image size total is at most the whole one.
proof fn lemma_image_total_prefix(s: Seq<ContainerImageSource>, k: int)
    requires
        0 <= k <= s.len(),
    ensures
        image_size_total(s.take(k)) <= image_size_total(s),
    decreases s.len(),
{
    if k < s.len() {
        assert(s.drop_last().take(k) == s.take(k));
        lemma_image_total_prefix(s.drop_last(), k);
    } else {
        assert(s.take(k) == s);
    }
}

/// Whether the image sizes sum to at most `u64::MAX`, and the sum where they do.
fn image_total(imgs: &Vec<ContainerImageSource>) -> (r: Option<u64>)
    ensures
        match r {
            Some(t) => t == image_size_total(imgs@),
            None => image_size_total(imgs@) > u64::MAX,
        },
{
    let mut total: u64 = 0;
    let mut i: usize = 0;
    while i < imgs.len()
        invariant
            0 <= i <= imgs@.len(),
            total == image_size_total(imgs@.take(i as int)),
        decreases imgs.len() - i,
    {
        assert(imgs@.take(i + 1).drop_last() == imgs@.take(i as int));
        assert(imgs@.take(i + 1).last() == imgs@[i as int]);
        let add: u64 = match imgs[i].size_bytes {
            Some(s) => s as u64,
            None => 0,
        };
        assert(image_size_total(imgs@.take(i + 1)) == total + add);
        match total.checked_add(add) {
            Some(t) => total = t,
            None => {
                proof {
                    lemma_image_total_prefix(imgs@, i + 1);
                }
                return None;
            },
        }
        i = i + 1;
    }
    assert(imgs@.take(imgs@.len() as int) == imgs@);
    Some(total)
}

/// Whether the quantities and image sizes of the node fit in a `u64`, so that
/// the mapping does not overflow.
pub fn node_values_within_range(n: &NodeSource) -> (r: bool)
    ensures
        r == node_values_fit(*n),
{
    let images_fit = match &n.status {
        Some(s) => match &s.images {
            Some(imgs) => image_total(imgs).is_some(),
            None => true,
        },
        None => true,
    };
    memory_at_fits(&n.status, false) && memory_at_fits(&n.status, true) && storage_at_fits(&n.status, false)
        && storage_at_fits(&n.status, true) && images_fit
}

/// A taint as `key=value (effect)`.
fn taint_string(t: &TaintSource) -> (r: String)
    ensures
        r@ == taint_text(*t),
{
    let mut r = t.key.clone();
    push_all(&mut r, "=");
    if let Some(v) = &t.value {
        push_all(&mut r, v.as_str());
    }
    push_all(&mut r, " (");
    push_all(&mut r, t.effect.as_str());
    push_all(&mut r, ")");
    proof {
        reveal_strlit("");
    }
    assert(r@ =~= taint_text(*t));
    r
}

/// The taints as text joined by `, `.
fn taints_text(ts: &Vec<TaintSource>) -> (r: String)
    ensures
        r@ == joined(taint_texts(ts@), ", "@),
{
    let mut out: Vec<String> = Vec::new();
    let mut i: usize = 0;
    while i < ts.len()
        invariant
            0 <= i <= ts@.len(),
            views(out@) == taint_texts(ts@.take(i as int)),
        decreases ts.len() - i,
    {
        assert(ts@.take(i + 1).drop_last() == ts@.take(i as int));
        let ghost o = out@;
        out.push(taint_string(&ts[i]));
        assert(out@.drop_last() == o);
        assert(views(out@) =~= views(o).push(taint_text(ts@[i as int])));
        i = i + 1;
    }
    assert(ts@.take(ts@.len() as int) == ts@);
    join_strs(&out, ", ")
}

/// All names of the images.
fn image_name_list(imgs: &Vec<ContainerImageSource>) -> (r: Vec<String>)
    ensures
        views(r@) == image_names_of(imgs@),
{
    let mut out: Vec<String> = Vec::new();
    let mut i: usize = 0;
    while i < imgs.len()
        invariant
            0 <= i <= imgs@.len(),
            views(out@) == image_names_of(imgs@.take(i as int)),
        decreases imgs.len() - i,
    {
        assert(imgs@.take(i + 1).drop_last() == imgs@.take(i as int));
        assert(imgs@.take(i + 1).last() == imgs@[i as int]);
        let ghost before = views(out@);
        if let Some(ns) = &imgs[i].names {
            let mut j: usize = 0;
            while j < ns.len()
                invariant
                    0 <= j <= ns@.len(),
                    views(out@) == before + views(ns@).take(j as int),
                decreases ns.len() - j,
            {
                let ghost o = out@;
                out.push(ns[j].clone());
                assert(out@.drop_last() == o);
                assert(views(out@) =~= views(o).push(ns@[j as int]@));
                assert(views(ns@).take(j + 1) =~= views(ns@).take(j as int).push(ns@[j as int]@));
                assert(views(out@) =~= before + views(ns@).take(j + 1));
                j = j + 1;
            }
            assert(views(ns@).take(ns@.len() as int) == views(ns@));
        } else {
            assert(views(out@) =~= before + Seq::<Seq<char>>::empty());
        }
        i = i + 1;
    }
    assert(imgs@.take(imgs@.len() as int) == imgs@);
    out
}

/// The creation time read back from its `to_rfc3339` text.
fn reparse(t: Option<UtcTime>) -> (r: Option<UtcTime>)
    ensures
        r == reparsed(t),
{
    match t {
        Some(x) => match format_rfc3339(x) {
            Some(text) => parse_rfc3339_strict(text.as_str()),
            None => None,
        },
        None => None,
    }
}

/// A field of the system information.
fn info_string(n: &NodeSource, which: u8) -> (r: Option<String>)
    requires
        which < 6,
    ensures
        which == 0 ==> r == info_field(*n, |i: NodeSystemInfoSource| i.architecture),
        which == 1 ==> r == info_field(*n, |i: NodeSystemInfoSource| i.os_image),
        which == 2 ==> r == info_field(*n, |i: NodeSystemInfoSource| i.kernel_version),
        which == 3 ==> r == info_field(*n, |i: NodeSystemInfoSource| i.kubelet_version),
        which == 4 ==> r == info_field(*n, |i: NodeSystemInfoSource| i.container_runtime_version),
        which == 5 ==> r == info_field(*n, |i: NodeSystemInfoSource| i.operating_system),
{
    match &n.status {
        Some(s) => match &s.node_info {
            Some(i) => Some(
                if which == 0 {
                    i.architecture.clone()
                } else if which == 1 {
                    i.os_image.clone()
                } else if which == 2 {
                    i.kernel_version.clone()
                } else if which == 3 {
                    i.kubelet_version.clone()
                } else if which == 4 {
                    i.container_runtime_version.clone()
                } else {
                    i.operating_system.clone()
                },
            ),
            None => None,
        },
        None => None,
    }
}

/// An address of the node.
fn node_address_exec(n: &NodeSource, kind: &str) -> (r: Option<String>)
    ensures
        r == node_address(*n, kind@),
{
    match &n.status {
        Some(s) => match &s.addresses {
            Some(a) => address_from(a, kind),
            None => None,
        },
        None => None,
    }
}

/// The JSON text of an optional map.
fn json_opt(m: &Option<Vec<(String, String)>>) -> (r: Option<String>)
    ensures
        opt_text(r) == (match *m {
            Some(l) => Some(json_map_text(entry_pairs(l@))),
            None => None,
        }),
{
    match m {
        Some(l) => Some(map_to_json(l)),
        None => None,
    }
}

/// Maps a node, as read from the API at `now`, to its stored information:
/// identity, addresses and system information, capacity and allocatable
/// resources read from their quantities, readiness, taints, labels and
/// annotations as JSON, and the images it holds.
pub fn map_node_to_info_entity(node: &NodeSource, now: UtcTime) -> (e: InfoNodeEntity)
    requires
        node_values_fit(*node),
        node_maps_ascending(*node),
    ensures
        node_info_of(*node, now, e),
{
    let m = &node.metadata;
    let st = &node.status;
    let ready = match st {
        Some(s) => match &s.conditions {
            Some(c) => ready_from(c),
            None => None,
        },
        None => None,
    };
    let taints = match &node.taints {
        Some(t) => Some(taints_text(t)),
        None => None,
    };
    let (image_count, image_names, image_total_size_bytes) = match st {
        Some(s) => match &s.images {
            Some(imgs) => {
                let total = match image_total(imgs) {
                    Some(t) => t,
                    None => 0,
                };
                (Some(imgs.len() as u32), Some(image_name_list(imgs)), Some(total))
            },
            None => (None, None, None),
        },
        None => (None, None, None),
    };
    InfoNodeEntity {
        node_name: clone_opt(&m.name),
        node_uid: clone_opt(&m.uid),
        creation_timestamp: reparse(m.creation_timestamp),
        resource_version: clone_opt(&m.resource_version),
        last_updated_info_at: Some(now),
        deleted: None,
        last_check_deleted_count: None,
        hostname: node_address_exec(node, "Hostname"),
        internal_ip: node_address_exec(node, "InternalIP"),
        architecture: info_string(node, 0),
        os_image: info_string(node, 1),
        kernel_version: info_string(node, 2),
        kubelet_version: info_string(node, 3),
        container_runtime: info_string(node, 4),
        operating_system: info_string(node, 5),
        cpu_capacity_cores: cpu_at(st, false),
        memory_capacity_bytes: memory_at(st, false),
        pod_capacity: pods_at(st, false),
        ephemeral_storage_capacity_bytes: storage_at(st, false),
        cpu_allocatable_cores: cpu_at(st, true),
        memory_allocatable_bytes: memory_at(st, true),
        ephemeral_storage_allocatable_bytes: storage_at(st, true),
        pod_allocatable: pods_at(st, true),
        ready,
        taints,
        label: json_opt(&m.labels),
        annotation: json_opt(&m.annotations),
        image_count,
        image_names,
        image_total_size_bytes,
        fixed_instance_usd: None,
        price_period: None,
        team: None,
        service: None,
        env: None,
    }
}

} // verus!
