//! Mapping of pods and nodes, as read from the API, to their stored information.
use vstd::prelude::*;
use crate::client::sources::{ConditionSource, ContainerSource, ContainerStatusSource, OwnerRefSource, PodSource, TolerationSource, VolumeSource, keys_ascending, opt_keys_ascending, pod_maps_ascending};
use crate::info::pod::InfoPodEntity;
use crate::settings::kv::{joined, join_strs};
use crate::text::{dec, is_empty_text, push_all, str_eq, u64_to_dec, views};
use crate::time::UtcTime;

verus! {

// ---------------------------------------------------------------------------
// Small pieces
// ---------------------------------------------------------------------------

/// The view of an optional string.
pub open spec fn opt_text(o: Option<String>) -> Option<Seq<char>> {
    match o {
        Some(s) => Some(s@),
        None => None,
    }
}

/// The view of an optional list of strings.
pub open spec fn opt_texts(o: Option<Vec<String>>) -> Option<Seq<Seq<char>>> {
    match o {
        Some(v) => Some(views(v@)),
        None => None,
    }
}

/// `Some(s)` where `s` is not empty (`.filter(|v| !v.is_empty())`).
pub open spec fn non_empty_seq<A>(s: Seq<A>) -> Option<Seq<A>> {
    if s.len() == 0 { None } else { Some(s) }
}

/// A copy of an optional string.
pub fn clone_opt(o: &Option<String>) -> (r: Option<String>)
    ensures
        r == *o,
{
    match o {
        Some(s) => Some(s.clone()),
        None => None,
    }
}

/// A copy of a list of strings.
pub fn clone_strings(v: &Vec<String>) -> (r: Vec<String>)
    ensures
        r@ == v@,
{
    let mut out: Vec<String> = Vec::new();
    let mut i: usize = 0;
    while i < v.len()
        invariant
            0 <= i <= v@.len(),
            out@ == v@.take(i as int),
        decreases v.len() - i,
    {
        out.push(v[i].clone());
        assert(out@ =~= v@.take(i + 1));
        i = i + 1;
    }
    assert(v@.take(v@.len() as int) == v@);
    out
}

/// The decimal text of an integer, with a leading `-` when negative (`i64` `Display`).
pub open spec fn int_text(n: int) -> Seq<char> {
    if n < 0 { "-"@ + dec((-n) as nat) } else { dec(n as nat) }
}

/// `n.to_string()` for an `i64`.
pub fn i64_to_dec(n: i64) -> (r: String)
    ensures
        r@ == int_text(n as int),
{
    if n < 0 {
        let m: u64 = if n == i64::MIN { 9223372036854775808u64 } else { (-n) as u64 };
        let mut r = String::from_str("-");
        push_all(&mut r, u64_to_dec(m).as_str());
        r
    } else {
        u64_to_dec(n as u64)
    }
}

/// Readiness from the first condition of type `Ready`: whether its status is `True`.
pub open spec fn ready_of(conds: Seq<ConditionSource>) -> Option<bool>
    decreases conds.len(),
{
    if conds.len() == 0 {
        None
    } else {
        match ready_of(conds.drop_last()) {
            Some(b) => Some(b),
            None => if conds.last().kind@ == "Ready"@ {
                Some(conds.last().status@ == "True"@)
            } else {
                None
            },
        }
    }
}

/// Readiness from the conditions.
pub fn ready_from(conds: &Vec<ConditionSource>) -> (r: Option<bool>)
    ensures
        r == ready_of(conds@),
{
    let ghost s = conds@;
    let mut i: usize = 0;
    assert(s.take(0) =~= Seq::<ConditionSource>::empty());
    while i < conds.len()
        invariant
            0 <= i <= s.len(),
            s == conds@,
            ready_of(s.take(i as int)) is None,
        decreases conds.len() - i,
    {
        assert(s.take(i + 1).drop_last() == s.take(i as int));
        assert(s.take(i + 1).last() == s[i as int]);
        if str_eq(conds[i].kind.as_str(), "Ready") {
            let b = str_eq(conds[i].status.as_str(), "True");
            proof {
                lemma_ready_of_prefix(s, i + 1);
            }
            return Some(b);
        }
        i = i + 1;
    }
    assert(s.take(s.len() as int) == s);
    None
}

/// Once a prefix has a `Ready` condition, the whole list reads as it does.
proof fn lemma_ready_of_prefix(s: Seq<ConditionSource>, k: int)
    requires
        0 <= k <= s.len(),
        ready_of(s.take(k)) is Some,
    ensures
        ready_of(s) == ready_of(s.take(k)),
    decreases s.len(),
{
    if k < s.len() {
        assert(s.drop_last().take(k) == s.take(k));
        lemma_ready_of_prefix(s.drop_last(), k);
    } else {
        assert(s.take(k) == s);
    }
}

/// Each entry as `k=v`.
pub open spec fn entry_texts(entries: Seq<(String, String)>) -> Seq<Seq<char>>
    decreases entries.len(),
{
    if entries.len() == 0 {
        Seq::empty()
    } else {
        entry_texts(entries.drop_last()).push(entries.last().0@ + "="@ + entries.last().1@)
    }
}

/// `map.iter().map(|(k, v)| format!("{k}={v}")).join(",")`, `None` for an empty map.
pub open spec fn flattened(entries: Seq<(String, String)>) -> Option<Seq<char>> {
    if entries.len() == 0 {
        None
    } else {
        Some(joined(entry_texts(entries), ","@))
    }
}

/// Flattens a map, given by its entries in key order, to `k=v` pairs joined by
/// `,`; an empty map gives `None`.
pub fn flatten_map(map: &Vec<(String, String)>) -> (r: Option<String>)
    requires
        keys_ascending(map@),
    ensures
        opt_text(r) == flattened(map@),
{
    if map.len() == 0 {
        return None;
    }
    let ghost m = map@;
    let mut parts: Vec<String> = Vec::new();
    let mut i: usize = 0;
    while i < map.len()
        invariant
            0 <= i <= m.len(),
            m == map@,
            views(parts@) == entry_texts(m.take(i as int)),
        decreases map.len() - i,
    {
        let mut p = map[i].0.clone();
        push_all(&mut p, "=");
        push_all(&mut p, map[i].1.as_str());
        assert(p@ == m[i as int].0@ + "="@ + m[i as int].1@);
        let ghost old_parts = parts@;
        parts.push(p);
        assert(parts@.drop_last() == old_parts);
        assert(m.take(i + 1).drop_last() == m.take(i as int));
        assert(views(parts@) =~= entry_texts(m.take(i + 1)));
        i = i + 1;
    }
    assert(m.take(m.len() as int) == m);
    Some(join_strs(&parts, ","))
}

/// The parts of a toleration: key, operator, value, effect and `{seconds}s`, where present.
pub open spec fn toleration_parts(t: TolerationSource) -> Seq<Seq<char>> {
    (match t.key { Some(k) => seq![k@], None => Seq::empty() })
        + (match t.operator { Some(o) => seq![o@], None => Seq::empty() })
        + (match t.value { Some(v) => seq![v@], None => Seq::empty() })
        + (match t.effect { Some(e) => seq![e@], None => Seq::empty() })
        + (match t.toleration_seconds { Some(n) => seq![int_text(n as int) + "s"@], None => Seq::empty() })
}

/// A toleration as text: its parts joined by `:`.
pub open spec fn toleration_text(t: TolerationSource) -> Seq<char> {
    joined(toleration_parts(t), ":"@)
}

/// Appends the string where there is one.
fn push_opt(parts: &mut Vec<String>, v: &Option<String>)
    ensures
        views(final(parts)@) == views(old(parts)@) + (match *v { Some(x) => seq![x@], None => Seq::empty() }),
{
    if let Some(x) = v {
        parts.push(x.clone());
    }
    assert(views(parts@) =~= views(old(parts)@) + (match *v { Some(x) => seq![x@], None => Seq::<Seq<char>>::empty() }));
}

/// Formats a toleration as `key:operator:value:effect:{seconds}s`, leaving out
/// the absent parts.
pub fn format_toleration(t: &TolerationSource) -> (r: String)
    ensures
        r@ == toleration_text(*t),
{
    let mut parts: Vec<String> = Vec::new();
    push_opt(&mut parts, &t.key);
    push_opt(&mut parts, &t.operator);
    push_opt(&mut parts, &t.value);
    push_opt(&mut parts, &t.effect);
    let ghost before = views(parts@);
    if let Some(n) = t.toleration_seconds {
        let mut s = i64_to_dec(n);
        push_all(&mut s, "s");
        parts.push(s);
    }
    assert(views(parts@) =~= toleration_parts(*t));
    join_strs(&parts, ":")
}

// ---------------------------------------------------------------------------
// Lists read from a pod
// ---------------------------------------------------------------------------

/// Names of the containers.
pub open spec fn names_of(cs: Seq<ContainerSource>) -> Seq<Seq<char>>
    decreases cs.len(),
{
    if cs.len() == 0 { Seq::empty() } else { names_of(cs.drop_last()).push(cs.last().name@) }
}

/// Images of the containers that name one.
pub open spec fn images_of(cs: Seq<ContainerSource>) -> Seq<Seq<char>>
    decreases cs.len(),
{
    if cs.len() == 0 {
        Seq::empty()
    } else {
        match cs.last().image {
            Some(i) => images_of(cs.drop_last()).push(i@),
            None => images_of(cs.drop_last()),
        }
    }
}

/// The ports that fit in a `u16` (`u16::try_from(port).ok()`).
pub open spec fn port_list(ps: Seq<i32>) -> Seq<u16>
    decreases ps.len(),
{
    if ps.len() == 0 {
        Seq::empty()
    } else if 0 <= ps.last() <= 65535 {
        port_list(ps.drop_last()).push(ps.last() as u16)
    } else {
        port_list(ps.drop_last())
    }
}

/// The ports of a container.
pub open spec fn container_ports(c: ContainerSource) -> Seq<u16> {
    match c.ports {
        Some(v) => port_list(v@),
        None => Seq::empty(),
    }
}

/// The ports of all containers, in order.
pub open spec fn ports_of(cs: Seq<ContainerSource>) -> Seq<u16>
    decreases cs.len(),
{
    if cs.len() == 0 { Seq::empty() } else { ports_of(cs.drop_last()) + container_ports(cs.last()) }
}

/// The mount paths of a container.
pub open spec fn container_mounts(c: ContainerSource) -> Seq<Seq<char>> {
    match c.mount_paths {
        Some(v) => views(v@),
        None => Seq::empty(),
    }
}

/// The mount paths of all containers, in order.
pub open spec fn mounts_of(cs: Seq<ContainerSource>) -> Seq<Seq<char>>
    decreases cs.len(),
{
    if cs.len() == 0 { Seq::empty() } else { mounts_of(cs.drop_last()) + container_mounts(cs.last()) }
}

/// `s` with only the first occurrence of each item, in order.
pub open spec fn dedup<A>(s: Seq<A>) -> Seq<A>
    decreases s.len(),
{
    if s.len() == 0 {
        Seq::empty()
    } else {
        let d = dedup(s.drop_last());
        if d.contains(s.last()) { d } else { d.push(s.last()) }
    }
}

/// Sum of the restart counts, negative ones read as 0.
pub open spec fn restart_total(ss: Seq<ContainerStatusSource>) -> int
    decreases ss.len(),
{
    if ss.len() == 0 {
        0
    } else {
        restart_total(ss.drop_last()) + (if ss.last().restart_count < 0 { 0 } else { ss.last().restart_count as int })
    }
}

/// The non-empty container identifiers.
pub open spec fn ids_of(ss: Seq<ContainerStatusSource>) -> Seq<Seq<char>>
    decreases ss.len(),
{
    if ss.len() == 0 {
        Seq::empty()
    } else {
        match ss.last().container_id {
            Some(id) => if id@.len() > 0 { ids_of(ss.drop_last()).push(id@) } else { ids_of(ss.drop_last()) },
            None => ids_of(ss.drop_last()),
        }
    }
}

/// The non-empty image identifiers.
pub open spec fn image_ids_of(ss: Seq<ContainerStatusSource>) -> Seq<Seq<char>>
    decreases ss.len(),
{
    if ss.len() == 0 {
        Seq::empty()
    } else if ss.last().image_id@.len() > 0 {
        image_ids_of(ss.drop_last()).push(ss.last().image_id@)
    } else {
        image_ids_of(ss.drop_last())
    }
}

/// Start times of the running containers that have one.
pub open spec fn started_of(ss: Seq<ContainerStatusSource>) -> Seq<UtcTime>
    decreases ss.len(),
{
    if ss.len() == 0 {
        Seq::empty()
    } else {
        match ss.last().running_started_at {
            Some(t) => started_of(ss.drop_last()).push(t),
            None => started_of(ss.drop_last()),
        }
    }
}

/// Names of the volumes.
pub open spec fn volume_names_of(vs: Seq<VolumeSource>) -> Seq<Seq<char>>
    decreases vs.len(),
{
    if vs.len() == 0 { Seq::empty() } else { volume_names_of(vs.drop_last()).push(vs.last().name@) }
}

/// Claim names of the persistent volume claims.
pub open spec fn claims_of(vs: Seq<VolumeSource>) -> Seq<Seq<char>>
    decreases vs.len(),
{
    if vs.len() == 0 {
        Seq::empty()
    } else {
        match vs.last().claim_name {
            Some(c) => claims_of(vs.drop_last()).push(c@),
            None => claims_of(vs.drop_last()),
        }
    }
}

/// The tolerations as text.
pub open spec fn toleration_texts(ts: Seq<TolerationSource>) -> Seq<Seq<char>>
    decreases ts.len(),
{
    if ts.len() == 0 { Seq::empty() } else { toleration_texts(ts.drop_last()).push(toleration_text(ts.last())) }
}

/// Names of the containers.
fn container_names(cs: &Vec<ContainerSource>) -> (r: Vec<String>)
    ensures
        views(r@) == names_of(cs@),
{
    let mut out: Vec<String> = Vec::new();
    let mut i: usize = 0;
    while i < cs.len()
        invariant
            0 <= i <= cs@.len(),
            views(out@) == names_of(cs@.take(i as int)),
        decreases cs.len() - i,
    {
        assert(cs@.take(i + 1).drop_last() == cs@.take(i as int));
        let ghost o = out@;
        out.push(cs[i].name.clone());
        assert(out@.drop_last() == o);
        assert(views(out@) =~= views(o).push(cs@[i as int].name@));
        i = i + 1;
    }
    assert(cs@.take(cs@.len() as int) == cs@);
    out
}

/// Images of the containers.
fn container_images(cs: &Vec<ContainerSource>) -> (r: Vec<String>)
    ensures
        views(r@) == images_of(cs@),
{
    let mut out: Vec<String> = Vec::new();
    let mut i: usize = 0;
    while i < cs.len()
        invariant
            0 <= i <= cs@.len(),
            views(out@) == images_of(cs@.take(i as int)),
        decreases cs.len() - i,
    {
        assert(cs@.take(i + 1).drop_last() == cs@.take(i as int));
        assert(cs@.take(i + 1).last() == cs@[i as int]);
        let ghost o = out@;
        if let Some(img) = &cs[i].image {
            out.push(img.clone());
            assert(out@.drop_last() == o);
            assert(views(out@) =~= views(o).push(img@));
        }
        i = i + 1;
    }
    assert(cs@.take(cs@.len() as int) == cs@);
    out
}

/// Appends the ports of a container.
fn push_ports(out: &mut Vec<u16>, c: &ContainerSource)
    ensures
        final(out)@ == old(out)@ + container_ports(*c),
{
    let ghost start = out@;
    if let Some(ps) = &c.ports {
        let mut j: usize = 0;
        while j < ps.len()
            invariant
                0 <= j <= ps@.len(),
                out@ == start + port_list(ps@.take(j as int)),
            decreases ps.len() - j,
        {
            assert(ps@.take(j + 1).drop_last() == ps@.take(j as int));
            assert(ps@.take(j + 1).last() == ps@[j as int]);
            let p = ps[j];
            if 0 <= p && p <= 65535 {
                out.push(p as u16);
                assert(out@ =~= start + port_list(ps@.take(j + 1)));
            }
            j = j + 1;
        }
        assert(ps@.take(ps@.len() as int) == ps@);
    } else {
        assert(out@ =~= start + container_ports(*c));
    }
}

/// Ports of all containers.
fn container_port_list(cs: &Vec<ContainerSource>) -> (r: Vec<u16>)
    ensures
        r@ == ports_of(cs@),
{
    let mut out: Vec<u16> = Vec::new();
    let mut i: usize = 0;
    while i < cs.len()
        invariant
            0 <= i <= cs@.len(),
            out@ == ports_of(cs@.take(i as int)),
        decreases cs.len() - i,
    {
        assert(cs@.take(i + 1).drop_last() == cs@.take(i as int));
        assert(cs@.take(i + 1).last() == cs@[i as int]);
        push_ports(&mut out, &cs[i]);
        i = i + 1;
    }
    assert(cs@.take(cs@.len() as int) == cs@);
    out
}

/// Whether `v` holds a string equal to `s`.
fn contains_str(v: &Vec<String>, s: &str) -> (r: bool)
    ensures
        r == views(v@).contains(s@),
{
    let mut i: usize = 0;
    while i < v.len()
        invariant
            0 <= i <= v@.len(),
            forall|k: int| 0 <= k < i ==> v@[k]@ != s@,
        decreases v.len() - i,
    {
        if str_eq(v[i].as_str(), s) {
            assert(views(v@)[i as int] == s@);
            return true;
        }
        i = i + 1;
    }
    assert forall|k: int| 0 <= k < views(v@).len() implies views(v@)[k] != s@ by {
        assert(views(v@)[k] == v@[k]@);
    }
    false
}

/// Mount paths of all containers, each once, in order of first appearance.
fn unique_mount_paths(cs: &Vec<ContainerSource>) -> (r: Vec<String>)
    ensures
        views(r@) == dedup(mounts_of(cs@)),
{
    let mut out: Vec<String> = Vec::new();
    let mut i: usize = 0;
    while i < cs.len()
        invariant
            0 <= i <= cs@.len(),
            views(out@) == dedup(mounts_of(cs@.take(i as int))),
        decreases cs.len() - i,
    {
        assert(cs@.take(i + 1).drop_last() == cs@.take(i as int));
        assert(cs@.take(i + 1).last() == cs@[i as int]);
        let ghost before = mounts_of(cs@.take(i as int));
        if let Some(ms) = &cs[i].mount_paths {
            let mut j: usize = 0;
            assert(before + views(ms@).take(0) == before);
            while j < ms.len()
                invariant
                    0 <= j <= ms@.len(),
                    views(out@) == dedup(before + views(ms@).take(j as int)),
                decreases ms.len() - j,
            {
                let ghost cur = before + views(ms@).take(j as int);
                assert((before + views(ms@).take(j + 1)).drop_last() == cur);
                assert((before + views(ms@).take(j + 1)).last() == ms@[j as int]@);
                if !contains_str(&out, ms[j].as_str()) {
                    let ghost o = out@;
                    out.push(ms[j].clone());
                    assert(out@.drop_last() == o);
                    assert(views(out@) =~= views(o).push(ms@[j as int]@));
                }
                j = j + 1;
            }
            assert(views(ms@).take(ms@.len() as int) == views(ms@));
        } else {
            assert(before + container_mounts(cs@[i as int]) == before);
        }
        i = i + 1;
    }
    assert(cs@.take(cs@.len() as int) == cs@);
    out
}

/// Sum of the restart counts.
fn restart_sum(ss: &Vec<ContainerStatusSource>) -> (r: u32)
    requires
        restart_total(ss@) <= u32::MAX,
    ensures
        r == restart_total(ss@),
{
    let mut total: u32 = 0;
    let mut i: usize = 0;
    while i < ss.len()
        invariant
            0 <= i <= ss@.len(),
            total == restart_total(ss@.take(i as int)),
            restart_total(ss@) <= u32::MAX,
        decreases ss.len() - i,
    {
        assert(ss@.take(i + 1).drop_last() == ss@.take(i as int));
        assert(ss@.take(i + 1).last() == ss@[i as int]);
        proof {
            lemma_restart_total_prefix(ss@, i + 1);
        }
        let c = ss[i].restart_count;
        let add: u32 = if c < 0 { 0 } else { c as u32 };
        total = total + add;
        i = i + 1;
    }
    assert(ss@.take(ss@.len() as int) == ss@);
    total
}

/// A prefix's restart total is at most the whole one.
proof fn lemma_restart_total_prefix(s: Seq<ContainerStatusSource>, k: int)
    requires
        0 <= k <= s.len(),
    ensures
        restart_total(s.take(k)) <= restart_total(s),
    decreases s.len(),
{
    if k < s.len() {
        assert(s.drop_last().take(k) == s.take(k));
        lemma_restart_total_prefix(s.drop_last(), k);
    } else {
        assert(s.take(k) == s);
    }
}

/// The non-empty container identifiers.
fn container_ids(ss: &Vec<ContainerStatusSource>) -> (r: Vec<String>)
    ensures
        views(r@) == ids_of(ss@),
{
    let mut out: Vec<String> = Vec::new();
    let mut i: usize = 0;
    while i < ss.len()
        invariant
            0 <= i <= ss@.len(),
            views(out@) == ids_of(ss@.take(i as int)),
        decreases ss.len() - i,
    {
        assert(ss@.take(i + 1).drop_last() == ss@.take(i as int));
        assert(ss@.take(i + 1).last() == ss@[i as int]);
        let ghost o = out@;
        if let Some(id) = &ss[i].container_id {
            if !is_empty_text(id.as_str()) {
                out.push(id.clone());
                assert(out@.drop_last() == o);
                assert(views(out@) =~= views(o).push(id@));
            }
        }
        i = i + 1;
    }
    assert(ss@.take(ss@.len() as int) == ss@);
    out
}

/// The non-empty image identifiers.
fn image_ids(ss: &Vec<ContainerStatusSource>) -> (r: Vec<String>)
    ensures
        views(r@) == image_ids_of(ss@),
{
    let mut out: Vec<String> = Vec::new();
    let mut i: usize = 0;
    while i < ss.len()
        invariant
            0 <= i <= ss@.len(),
            views(out@) == image_ids_of(ss@.take(i as int)),
        decreases ss.len() - i,
    {
        assert(ss@.take(i + 1).drop_last() == ss@.take(i as int));
        assert(ss@.take(i + 1).last() == ss@[i as int]);
        let ghost o = out@;
        if !is_empty_text(ss[i].image_id.as_str()) {
            out.push(ss[i].image_id.clone());
            assert(out@.drop_last() == o);
            assert(views(out@) =~= views(o).push(ss@[i as int].image_id@));
        }
        i = i + 1;
    }
    assert(ss@.take(ss@.len() as int) == ss@);
    out
}

/// Start times of the running containers.
fn started_times(ss: &Vec<ContainerStatusSource>) -> (r: Vec<UtcTime>)
    ensures
        r@ == started_of(ss@),
{
    let mut out: Vec<UtcTime> = Vec::new();
    let mut i: usize = 0;
    while i < ss.len()
        invariant
            0 <= i <= ss@.len(),
            out@ == started_of(ss@.take(i as int)),
        decreases ss.len() - i,
    {
        assert(ss@.take(i + 1).drop_last() == ss@.take(i as int));
        assert(ss@.take(i + 1).last() == ss@[i as int]);
        if let Some(t) = ss[i].running_started_at {
            out.push(t);
        }
        i = i + 1;
    }
    assert(ss@.take(ss@.len() as int) == ss@);
    out
}

/// Names of the volumes.
fn volume_names(vs: &Vec<VolumeSource>) -> (r: Vec<String>)
    ensures
        views(r@) == volume_names_of(vs@),
{
    let mut out: Vec<String> = Vec::new();
    let mut i: usize = 0;
    while i < vs.len()
        invariant
            0 <= i <= vs@.len(),
            views(out@) == volume_names_of(vs@.take(i as int)),
        decreases vs.len() - i,
    {
        assert(vs@.take(i + 1).drop_last() == vs@.take(i as int));
        let ghost o = out@;
        out.push(vs[i].name.clone());
        assert(out@.drop_last() == o);
        assert(views(out@) =~= views(o).push(vs@[i as int].name@));
        i = i + 1;
    }
    assert(vs@.take(vs@.len() as int) == vs@);
    out
}

/// Claim names of the persistent volume claims.
fn claim_names(vs: &Vec<VolumeSource>) -> (r: Vec<String>)
    ensures
        views(r@) == claims_of(vs@),
{
    let mut out: Vec<String> = Vec::new();
    let mut i: usize = 0;
    while i < vs.len()
        invariant
            0 <= i <= vs@.len(),
            views(out@) == claims_of(vs@.take(i as int)),
        decreases vs.len() - i,
    {
        assert(vs@.take(i + 1).drop_last() == vs@.take(i as int));
        assert(vs@.take(i + 1).last() == vs@[i as int]);
        let ghost o = out@;
        if let Some(c) = &vs[i].claim_name {
            out.push(c.clone());
            assert(out@.drop_last() == o);
            assert(views(out@) =~= views(o).push(c@));
        }
        i = i + 1;
    }
    assert(vs@.take(vs@.len() as int) == vs@);
    out
}

/// The tolerations as text.
fn toleration_strings(ts: &Vec<TolerationSource>) -> (r: Vec<String>)
    ensures
        views(r@) == toleration_texts(ts@),
{
    let mut out: Vec<String> = Vec::new();
    let mut i: usize = 0;
    while i < ts.len()
        invariant
            0 <= i <= ts@.len(),
            views(out@) == toleration_texts(ts@.take(i as int)),
        decreases ts.len() - i,
    {
        assert(ts@.take(i + 1).drop_last() == ts@.take(i as int));
        let ghost o = out@;
        out.push(format_toleration(&ts[i]));
        assert(out@.drop_last() == o);
        assert(views(out@) =~= views(o).push(toleration_text(ts@[i as int])));
        i = i + 1;
    }
    assert(ts@.take(ts@.len() as int) == ts@);
    out
}

// ---------------------------------------------------------------------------
// Pods
// ---------------------------------------------------------------------------

/// The IP of a pod status: its `pod_ip`, else the first of its `pod_ips`.
pub open spec fn pod_ip_of(st: crate::client::sources::PodStatusSource) -> Option<String> {
    match st.pod_ip {
        Some(ip) => Some(ip),
        None => match st.pod_ips {
            Some(ips) => if ips@.len() > 0 { Some(ips@[0]) } else { None },
            None => None,
        },
    }
}

/// The restart counts of the pod sum to at most `u32::MAX` (the sum does not overflow).
pub open spec fn pod_restarts_fit(p: PodSource) -> bool {
    match p.status {
        Some(st) => match st.container_statuses {
            Some(cs) => restart_total(cs@) <= u32::MAX,
            None => true,
        },
        None => true,
    }
}

/// The first owner reference, if any.
pub open spec fn first_owner(p: PodSource) -> Option<OwnerRefSource> {
    match p.metadata.owner_references {
        Some(o) => if o@.len() > 0 { Some(o@[0]) } else { None },
        None => None,
    }
}

/// A list from the pod spec, where the pod has a spec.
pub open spec fn from_spec<A>(p: PodSource, f: spec_fn(crate::client::sources::PodSpecSource) -> Option<A>) -> Option<A> {
    match p.spec {
        Some(sp) => f(sp),
        None => None,
    }
}

/// A list from the container statuses, where the pod has them.
pub open spec fn from_statuses<A>(p: PodSource, f: spec_fn(Seq<ContainerStatusSource>) -> Option<A>) -> Option<A> {
    match p.status {
        Some(st) => match st.container_statuses {
            Some(cs) => f(cs@),
            None => None,
        },
        None => None,
    }
}

/// A field of the pod status, where the pod has one.
pub open spec fn from_status<A>(p: PodSource, f: spec_fn(crate::client::sources::PodStatusSource) -> Option<A>) -> Option<A> {
    match p.status {
        Some(st) => f(st),
        None => None,
    }
}

/// The names of the volumes of the pod spec, where there are any.
pub open spec fn pod_volume_names(p: PodSource) -> Option<Seq<Seq<char>>> {
    from_spec(p, |sp: crate::client::sources::PodSpecSource| match sp.volumes {
        Some(v) => non_empty_seq(volume_names_of(v@)),
        None => None,
    })
}

/// `e` is the stored information that `map_pod_to_info_entity` gives for `p`.
pub open spec fn pod_info_of(p: PodSource, e: InfoPodEntity) -> bool {
    let m = p.metadata;
    &&& e.pod_name == m.name
    &&& e.namespace == m.namespace
    &&& e.pod_uid == m.uid
    &&& e.creation_timestamp == m.creation_timestamp
    &&& e.start_time == from_status(p, |st: crate::client::sources::PodStatusSource| st.start_time)
    &&& e.resource_version == m.resource_version
    &&& e.last_updated_info_at is None
    &&& e.deleted is None
    &&& e.last_check_deleted_count is None
    &&& e.node_name == from_spec(p, |sp: crate::client::sources::PodSpecSource| sp.node_name)
    &&& e.host_ip == from_status(p, |st: crate::client::sources::PodStatusSource| st.host_ip)
    &&& e.pod_ip == from_status(p, |st: crate::client::sources::PodStatusSource| pod_ip_of(st))
    &&& e.qos_class == from_status(p, |st: crate::client::sources::PodStatusSource| st.qos_class)
    &&& e.phase == from_status(p, |st: crate::client::sources::PodStatusSource| st.phase)
    &&& e.ready == from_status(p, |st: crate::client::sources::PodStatusSource| match st.conditions {
        Some(c) => ready_of(c@),
        None => None,
    })
    &&& e.restart_count == from_statuses(p, |cs: Seq<ContainerStatusSource>| Some(restart_total(cs) as u32))
    &&& e.owner_kind == (match first_owner(p) { Some(o) => Some(o.kind), None => None })
    &&& e.owner_name == (match first_owner(p) { Some(o) => Some(o.name), None => None })
    &&& e.owner_uid == (match first_owner(p) { Some(o) => Some(o.uid), None => None })
    &&& e.container_count == from_spec(p, |sp: crate::client::sources::PodSpecSource| Some(sp.containers@.len() as u32))
    &&& opt_texts(e.container_names) == from_spec(p, |sp: crate::client::sources::PodSpecSource| non_empty_seq(names_of(sp.containers@)))
    &&& opt_texts(e.container_images) == from_spec(p, |sp: crate::client::sources::PodSpecSource| non_empty_seq(images_of(sp.containers@)))
    &&& opt_texts(e.container_ids) == from_statuses(p, |cs: Seq<ContainerStatusSource>| non_empty_seq(ids_of(cs)))
    &&& (match e.container_started_at { Some(v) => Some(v@), None => None })
        == from_statuses(p, |cs: Seq<ContainerStatusSource>| non_empty_seq(started_of(cs)))
    &&& opt_texts(e.image_ids) == from_statuses(p, |cs: Seq<ContainerStatusSource>| non_empty_seq(image_ids_of(cs)))
    &&& (match e.container_ports { Some(v) => Some(v@), None => None })
        == from_spec(p, |sp: crate::client::sources::PodSpecSource| non_empty_seq(ports_of(sp.containers@)))
    &&& e.restart_policy == from_spec(p, |sp: crate::client::sources::PodSpecSource| sp.restart_policy)
    &&& e.scheduler_name == from_spec(p, |sp: crate::client::sources::PodSpecSource| sp.scheduler_name)
    &&& e.service_account == from_spec(p, |sp: crate::client::sources::PodSpecSource| sp.service_account_name)
    &&& opt_texts(e.volume_names) == pod_volume_names(p)
    &&& e.volume_count == (match pod_volume_names(p) { Some(v) => Some(v.len() as u32), None => None })
    &&& opt_texts(e.pvc_names) == from_spec(p, |sp: crate::client::sources::PodSpecSource| match sp.volumes {
        Some(v) => non_empty_seq(claims_of(v@)),
        None => None,
    })
    &&& opt_texts(e.mount_paths) == from_spec(p, |sp: crate::client::sources::PodSpecSource| non_empty_seq(dedup(mounts_of(sp.containers@))))
    &&& e.termination_grace_period_seconds == from_spec(p, |sp: crate::client::sources::PodSpecSource| match sp.termination_grace_period_seconds {
        Some(t) => if 0 <= t <= u32::MAX { Some(t as u32) } else { None },
        None => None,
    })
    &&& opt_texts(e.tolerations) == from_spec(p, |sp: crate::client::sources::PodSpecSource| match sp.tolerations {
        Some(t) => non_empty_seq(toleration_texts(t@)),
        None => None,
    })
    &&& opt_text(e.label) == (match m.labels { Some(l) => flattened(l@), None => None })
    &&& opt_text(e.annotation) == (match m.annotations { Some(a) => flattened(a@), None => None })
    &&& e.team is None
    &&& e.service is None
    &&& e.env is None
}

/// `Some(v)` where `v` is not empty.
fn some_non_empty(v: Vec<String>) -> (r: Option<Vec<String>>)
    ensures
        opt_texts(r) == non_empty_seq(views(v@)),
{
    if v.len() == 0 { None } else { Some(v) }
}

/// Whether the restart counts of the pod sum to at most `u32::MAX`.
pub fn pod_restarts_within_range(p: &PodSource) -> (r: bool)
    ensures
        r == pod_restarts_fit(*p),
{
    match &p.status {
        Some(st) => match &st.container_statuses {
            Some(cs) => {
                let mut total: u64 = 0;
                let mut i: usize = 0;
                while i < cs.len()
                    invariant
                        0 <= i <= cs@.len(),
                        total == restart_total(cs@.take(i as int)),
                        total <= u32::MAX,
                        pod_restarts_fit(*p) == (restart_total(cs@) <= u32::MAX),
                    decreases cs.len() - i,
                {
                    assert(cs@.take(i + 1).drop_last() == cs@.take(i as int));
                    assert(cs@.take(i + 1).last() == cs@[i as int]);
                    let c = cs[i].restart_count;
                    let add: u64 = if c < 0 { 0 } else { c as u64 };
                    assert(restart_total(cs@.take(i + 1)) == total + add);
                    if total + add > 0xFFFF_FFFF {
                        proof {
                            lemma_restart_total_prefix(cs@, i + 1);
                        }
                        return false;
                    }
                    total = total + add;
                    i = i + 1;
                }
                assert(cs@.take(cs@.len() as int) == cs@);
                true
            },
            None => true,
        },
        None => true,
    }
}

/// The pod's container lists, read from its spec.
struct SpecLists {
    count: Option<u32>,
    names: Option<Vec<String>>,
    images: Option<Vec<String>>,
    ports: Option<Vec<u16>>,
    mounts: Option<Vec<String>>,
}

/// Reads the container lists of the pod spec.
fn spec_lists(p: &PodSource) -> (r: SpecLists)
    ensures
        r.count == from_spec(*p, |sp: crate::client::sources::PodSpecSource| Some(sp.containers@.len() as u32)),
        opt_texts(r.names) == from_spec(*p, |sp: crate::client::sources::PodSpecSource| non_empty_seq(names_of(sp.containers@))),
        opt_texts(r.images) == from_spec(*p, |sp: crate::client::sources::PodSpecSource| non_empty_seq(images_of(sp.containers@))),
        (match r.ports { Some(v) => Some(v@), None => None })
            == from_spec(*p, |sp: crate::client::sources::PodSpecSource| non_empty_seq(ports_of(sp.containers@))),
        opt_texts(r.mounts) == from_spec(*p, |sp: crate::client::sources::PodSpecSource| non_empty_seq(dedup(mounts_of(sp.containers@)))),
{
    match &p.spec {
        Some(sp) => {
            let ports = container_port_list(&sp.containers);
            SpecLists {
                count: Some(sp.containers.len() as u32),
                names: some_non_empty(container_names(&sp.containers)),
                images: some_non_empty(container_images(&sp.containers)),
                ports: if ports.len() == 0 { None } else { Some(ports) },
                mounts: some_non_empty(unique_mount_paths(&sp.containers)),
            }
        },
        None => SpecLists { count: None, names: None, images: None, ports: None, mounts: None },
    }
}

/// The pod's volume and toleration lists and scalar spec fields.
struct SpecFields {
    node_name: Option<String>,
    restart_policy: Option<String>,
    scheduler_name: Option<String>,
    service_account: Option<String>,
    volume_names: Option<Vec<String>>,
    pvc_names: Option<Vec<String>>,
    grace: Option<u32>,
    tolerations: Option<Vec<String>>,
}

/// Reads the other fields of the pod spec.
fn spec_fields(p: &PodSource) -> (r: SpecFields)
    ensures
        r.node_name == from_spec(*p, |sp: crate::client::sources::PodSpecSource| sp.node_name),
        r.restart_policy == from_spec(*p, |sp: crate::client::sources::PodSpecSource| sp.restart_policy),
        r.scheduler_name == from_spec(*p, |sp: crate::client::sources::PodSpecSource| sp.scheduler_name),
        r.service_account == from_spec(*p, |sp: crate::client::sources::PodSpecSource| sp.service_account_name),
        opt_texts(r.volume_names) == pod_volume_names(*p),
        opt_texts(r.pvc_names) == from_spec(*p, |sp: crate::client::sources::PodSpecSource| match sp.volumes {
            Some(v) => non_empty_seq(claims_of(v@)),
            None => None,
        }),
        r.grace == from_spec(*p, |sp: crate::client::sources::PodSpecSource| match sp.termination_grace_period_seconds {
            Some(t) => if 0 <= t <= u32::MAX { Some(t as u32) } else { None },
            None => None,
        }),
        opt_texts(r.tolerations) == from_spec(*p, |sp: crate::client::sources::PodSpecSource| match sp.tolerations {
            Some(t) => non_empty_seq(toleration_texts(t@)),
            None => None,
        }),
{
    match &p.spec {
        Some(sp) => SpecFields {
            node_name: clone_opt(&sp.node_name),
            restart_policy: clone_opt(&sp.restart_policy),
            scheduler_name: clone_opt(&sp.scheduler_name),
            service_account: clone_opt(&sp.service_account_name),
            volume_names: match &sp.volumes {
                Some(v) => some_non_empty(volume_names(v)),
                None => None,
            },
            pvc_names: match &sp.volumes {
                Some(v) => some_non_empty(claim_names(v)),
                None => None,
            },
            grace: match sp.termination_grace_period_seconds {
                Some(t) => if 0 <= t && t <= 0xFFFF_FFFF { Some(t as u32) } else { None },
                None => None,
            },
            tolerations: match &sp.tolerations {
                Some(t) => some_non_empty(toleration_strings(t)),
                None => None,
            },
        },
        None => SpecFields {
            node_name: None,
            restart_policy: None,
            scheduler_name: None,
            service_account: None,
            volume_names: None,
            pvc_names: None,
            grace: None,
            tolerations: None,
        },
    }
}

/// The fields read from the pod status.
struct StatusFields {
    start_time: Option<UtcTime>,
    host_ip: Option<String>,
    pod_ip: Option<String>,
    qos_class: Option<String>,
    phase: Option<String>,
    ready: Option<bool>,
    restart_count: Option<u32>,
    container_ids: Option<Vec<String>>,
    image_ids: Option<Vec<String>>,
    started: Option<Vec<UtcTime>>,
}

/// Reads the fields of the pod status.
fn status_fields(p: &PodSource) -> (r: StatusFields)
    requires
        pod_restarts_fit(*p),
    ensures
        r.start_time == from_status(*p, |st: crate::client::sources::PodStatusSource| st.start_time),
        r.host_ip == from_status(*p, |st: crate::client::sources::PodStatusSource| st.host_ip),
        r.pod_ip == from_status(*p, |st: crate::client::sources::PodStatusSource| pod_ip_of(st)),
        r.qos_class == from_status(*p, |st: crate::client::sources::PodStatusSource| st.qos_class),
        r.phase == from_status(*p, |st: crate::client::sources::PodStatusSource| st.phase),
        r.ready == from_status(*p, |st: crate::client::sources::PodStatusSource| match st.conditions {
            Some(c) => ready_of(c@),
            None => None,
        }),
        r.restart_count == from_statuses(*p, |cs: Seq<ContainerStatusSource>| Some(restart_total(cs) as u32)),
        opt_texts(r.container_ids) == from_statuses(*p, |cs: Seq<ContainerStatusSource>| non_empty_seq(ids_of(cs))),
        opt_texts(r.image_ids) == from_statuses(*p, |cs: Seq<ContainerStatusSource>| non_empty_seq(image_ids_of(cs))),
        (match r.started { Some(v) => Some(v@), None => None })
            == from_statuses(*p, |cs: Seq<ContainerStatusSource>| non_empty_seq(started_of(cs))),
{
    match &p.status {
        Some(st) => {
            let pod_ip = match &st.pod_ip {
                Some(ip) => Some(ip.clone()),
                None => match &st.pod_ips {
                    Some(ips) => if ips.len() > 0 { Some(ips[0].clone()) } else { None },
                    None => None,
                },
            };
            let ready = match &st.conditions {
                Some(c) => ready_from(c),
                None => None,
            };
            let (restart_count, container_ids, image_ids, started) = match &st.container_statuses {
                Some(cs) => {
                    let started = started_times(cs);
                    (
                        Some(restart_sum(cs)),
                        some_non_empty(container_ids(cs)),
                        some_non_empty(image_ids(cs)),
                        if started.len() == 0 { None } else { Some(started) },
                    )
                },
                None => (None, None, None, None),
            };
            StatusFields {
                start_time: st.start_time,
                host_ip: clone_opt(&st.host_ip),
                pod_ip,
                qos_class: clone_opt(&st.qos_class),
                phase: clone_opt(&st.phase),
                ready,
                restart_count,
                container_ids,
                image_ids,
                started,
            }
        },
        None => StatusFields {
            start_time: None,
            host_ip: None,
            pod_ip: None,
            qos_class: None,
            phase: None,
            ready: None,
            restart_count: None,
            container_ids: None,
            image_ids: None,
            started: None,
        },
    }
}

/// The flattened form of an optional map.
fn flatten_opt(m: &Option<Vec<(String, String)>>) -> (r: Option<String>)
    requires
        opt_keys_ascending(*m),
    ensures
        opt_text(r) == (match *m { Some(l) => flattened(l@), None => None }),
{
    match m {
        Some(l) => flatten_map(l),
        None => None,
    }
}

/// Maps a pod, as read from the API, to its stored information: identity and
/// placement, readiness and restarts, its first owner, the lists of its
/// containers, volumes and tolerations (each absent where empty), and its
/// labels and annotations flattened to `k=v` pairs.
pub fn map_pod_to_info_entity(pod: &PodSource) -> (e: InfoPodEntity)
    requires
        pod_restarts_fit(*pod),
        pod_maps_ascending(*pod),
    ensures
        pod_info_of(*pod, e),
{
    let m = &pod.metadata;
    let lists = spec_lists(pod);
    let fields = spec_fields(pod);
    let status = status_fields(pod);
    let (owner_kind, owner_name, owner_uid) = match &m.owner_references {
        Some(o) => if o.len() > 0 {
            (Some(o[0].kind.clone()), Some(o[0].name.clone()), Some(o[0].uid.clone()))
        } else {
            (None, None, None)
        },
        None => (None, None, None),
    };
    let volume_count = match &fields.volume_names {
        Some(v) => Some(v.len() as u32),
        None => None,
    };
    InfoPodEntity {
        pod_name: clone_opt(&m.name),
        namespace: clone_opt(&m.namespace),
        pod_uid: clone_opt(&m.uid),
        creation_timestamp: m.creation_timestamp,
        start_time: status.start_time,
        resource_version: clone_opt(&m.resource_version),
        last_updated_info_at: None,
        deleted: None,
        last_check_deleted_count: None,
        node_name: fields.node_name,
        host_ip: status.host_ip,
        pod_ip: status.pod_ip,
        qos_class: status.qos_class,
        phase: status.phase,
        ready: status.ready,
        restart_count: status.restart_count,
        owner_kind,
        owner_name,
        owner_uid,
        container_count: lists.count,
        container_names: lists.names,
        container_images: lists.images,
        container_ids: status.container_ids,
        container_started_at: status.started,
        image_ids: status.image_ids,
        container_ports: lists.ports,
        restart_policy: fields.restart_policy,
        scheduler_name: fields.scheduler_name,
        service_account: fields.service_account,
        volume_count,
        volume_names: fields.volume_names,
        pvc_names: fields.pvc_names,
        mount_paths: lists.mounts,
        termination_grace_period_seconds: fields.grace,
        tolerations: fields.tolerations,
        label: flatten_opt(&m.labels),
        annotation: flatten_opt(&m.annotations),
        team: None,
        service: None,
        env: None,
    }
}

} // verus!
