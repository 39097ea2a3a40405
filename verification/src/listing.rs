//! Sequences of records and the map from id to record that they stand for.

use vstd::prelude::*;

use crate::record::SandboxView;

verus! {

/// No two records of `rs` have the same id.
pub open spec fn distinct_ids(rs: Seq<SandboxView>) -> bool {
    forall|i: int, j: int| 0 <= i < j < rs.len() ==> rs[i].id != rs[j].id
}

/// Some record of `rs` has the id `id`.
pub open spec fn has_id(rs: Seq<SandboxView>, id: Seq<char>) -> bool {
    exists|i: int| 0 <= i < rs.len() && #[trigger] rs[i].id == id
}

/// A position in `rs` of a record whose id is `id`, where there is one.
pub open spec fn index_of(rs: Seq<SandboxView>, id: Seq<char>) -> int {
    choose|i: int| 0 <= i < rs.len() && #[trigger] rs[i].id == id
}

/// The map from each id that occurs in `rs` to a record with that id. Where
/// the ids of `rs` are distinct, it holds every record of `rs` under its id.
pub open spec fn index_by_id(rs: Seq<SandboxView>) -> Map<Seq<char>, SandboxView> {
    Map::new(|id: Seq<char>| has_id(rs, id), |id: Seq<char>| rs[index_of(rs, id)])
}

/// `rs` holds each record of `m` exactly once, and nothing else.
pub open spec fn lists(rs: Seq<SandboxView>, m: Map<Seq<char>, SandboxView>) -> bool {
    distinct_ids(rs) && index_by_id(rs) == m
}

/// Every display number held by a record of `m` lies below `hint`.
pub open spec fn displays_below(m: Map<Seq<char>, SandboxView>, hint: u32) -> bool {
    forall|id: Seq<char>| m.contains_key(id) ==> #[trigger] m[id].display_below(hint)
}

/// No two `Running` records of `m` hold the same display number.
pub open spec fn running_displays_distinct(m: Map<Seq<char>, SandboxView>) -> bool {
    forall|a: Seq<char>, b: Seq<char>, d: u32|
        m.contains_key(a) && m.contains_key(b) && a != b && #[trigger] m[a].holds_display(d)
            ==> !#[trigger] m[b].holds_display(d)
}

/// Every record of `m` is stored under its own id.
pub open spec fn keyed_by_id(m: Map<Seq<char>, SandboxView>) -> bool {
    forall|id: Seq<char>| m.contains_key(id) ==> (#[trigger] m[id]).id == id
}

/// Some `Running` record of `m` holds display number `num`.
pub open spec fn display_taken(m: Map<Seq<char>, SandboxView>, num: u32) -> bool {
    exists|id: Seq<char>| m.contains_key(id) && #[trigger] m[id].holds_display(num)
}

/// The records of `rs` stand with the most recently created first: none is
/// followed by one that was created after it.
pub open spec fn recent_first(rs: Seq<SandboxView>) -> bool {
    forall|i: int, j: int|
        0 <= i < j < rs.len() ==> !(#[trigger] rs[i]).created_at.before((#[trigger] rs[j]).created_at)
}

/// In a sequence with distinct ids, the record at position `i` is the one
/// found under its id.
pub proof fn lemma_index_of_position(rs: Seq<SandboxView>, i: int)
    requires
        distinct_ids(rs),
        0 <= i < rs.len(),
    ensures
        has_id(rs, rs[i].id),
        index_of(rs, rs[i].id) == i,
        index_by_id(rs).contains_key(rs[i].id),
        index_by_id(rs)[rs[i].id] == rs[i],
{
    let id = rs[i].id;
    assert(rs[i].id == id);
    let j = index_of(rs, id);
    assert(0 <= j < rs.len() && rs[j].id == id);
    if j < i {
        assert(rs[j].id != rs[i].id);
    } else if i < j {
        assert(rs[i].id != rs[j].id);
    }
}

/// A record found under `id` sits at a position of the sequence and has that
/// id.
pub proof fn lemma_index_of_found(rs: Seq<SandboxView>, id: Seq<char>)
    requires
        has_id(rs, id),
    ensures
        0 <= index_of(rs, id) < rs.len(),
        rs[index_of(rs, id)].id == id,
        index_by_id(rs).contains_key(id),
        index_by_id(rs)[id] == rs[index_of(rs, id)],
{
}

/// The map of a sequence with distinct ids stores every record under its own
/// id.
pub proof fn lemma_index_keyed(rs: Seq<SandboxView>)
    ensures
        keyed_by_id(index_by_id(rs)),
{
    assert forall|id: Seq<char>| index_by_id(rs).contains_key(id) implies (#[trigger] index_by_id(
        rs,
    )[id]).id == id by {
        lemma_index_of_found(rs, id);
    }
}

/// Putting a record with a fresh id anywhere into a sequence adds it to the
/// map under its id and changes nothing else.
pub proof fn lemma_insert_record(rs: Seq<SandboxView>, k: int, x: SandboxView)
    requires
        distinct_ids(rs),
        !has_id(rs, x.id),
        0 <= k <= rs.len(),
    ensures
        distinct_ids(rs.insert(k, x)),
        index_by_id(rs.insert(k, x)) == index_by_id(rs).insert(x.id, x),
{
    let out = rs.insert(k, x);
    assert forall|i: int, j: int| 0 <= i < j < out.len() implies out[i].id != out[j].id by {
        let oi = if i < k { i } else { i - 1 };
        let oj = if j < k { j } else { j - 1 };
        if i == k {
            assert(rs[oj].id == out[j].id);
        } else if j == k {
            assert(rs[oi].id == out[i].id);
        } else {
            assert(rs[oi].id != rs[oj].id);
        }
    }
    let left = index_by_id(out);
    let right = index_by_id(rs).insert(x.id, x);
    assert forall|id: Seq<char>| left.contains_key(id) <==> right.contains_key(id) by {
        if left.contains_key(id) {
            let i = index_of(out, id);
            assert(0 <= i < out.len() && out[i].id == id);
            if i != k {
                let oi = if i < k { i } else { i - 1 };
                assert(rs[oi].id == id);
            }
        }
        if right.contains_key(id) {
            if id == x.id {
                assert(out[k].id == id);
            } else {
                let i = index_of(rs, id);
                assert(0 <= i < rs.len() && rs[i].id == id);
                let ni = if i < k { i } else { i + 1 };
                assert(out[ni].id == id);
            }
        }
    }
    assert forall|id: Seq<char>| left.contains_key(id) implies left[id] == right[id] by {
        let i = index_of(out, id);
        assert(0 <= i < out.len() && out[i].id == id);
        lemma_index_of_position(out, i);
        if i != k {
            let oi = if i < k { i } else { i - 1 };
            assert(rs[oi] == out[i]);
            lemma_index_of_position(rs, oi);
        }
    }
    assert(left =~= right);
}

/// Replacing the record at position `i` by one with the same id replaces it in
/// the map and changes nothing else.
pub proof fn lemma_update_record(rs: Seq<SandboxView>, i: int, y: SandboxView)
    requires
        distinct_ids(rs),
        0 <= i < rs.len(),
        y.id == rs[i].id,
    ensures
        distinct_ids(rs.update(i, y)),
        index_by_id(rs.update(i, y)) == index_by_id(rs).insert(y.id, y),
{
    let out = rs.update(i, y);
    assert forall|a: int, b: int| 0 <= a < b < out.len() implies out[a].id != out[b].id by {
        assert(out[a].id == rs[a].id);
        assert(out[b].id == rs[b].id);
    }
    let left = index_by_id(out);
    let right = index_by_id(rs).insert(y.id, y);
    assert forall|id: Seq<char>| left.contains_key(id) <==> right.contains_key(id) by {
        if left.contains_key(id) {
            let a = index_of(out, id);
            assert(0 <= a < out.len() && out[a].id == id);
            assert(rs[a].id == id);
        }
        if right.contains_key(id) {
            if id == y.id {
                assert(out[i].id == id);
            } else {
                let a = index_of(rs, id);
                assert(0 <= a < rs.len() && rs[a].id == id);
                assert(out[a].id == id);
            }
        }
    }
    assert forall|id: Seq<char>| left.contains_key(id) implies left[id] == right[id] by {
        let a = index_of(out, id);
        assert(0 <= a < out.len() && out[a].id == id);
        lemma_index_of_position(out, a);
        if a != i {
            lemma_index_of_position(rs, a);
        }
    }
    assert(left =~= right);
}

/// Taking the record at position `i` out of a sequence removes its id from the
/// map and changes nothing else.
pub proof fn lemma_remove_record(rs: Seq<SandboxView>, i: int)
    requires
        distinct_ids(rs),
        0 <= i < rs.len(),
    ensures
        distinct_ids(rs.remove(i)),
        !has_id(rs.remove(i), rs[i].id),
        index_by_id(rs.remove(i)) == index_by_id(rs).remove(rs[i].id),
{
    let out = rs.remove(i);
    assert forall|a: int, b: int| 0 <= a < b < out.len() implies out[a].id != out[b].id by {
        let oa = if a < i { a } else { a + 1 };
        let ob = if b < i { b } else { b + 1 };
        assert(rs[oa].id != rs[ob].id);
    }
    assert forall|a: int| 0 <= a < out.len() implies out[a].id != rs[i].id by {
        let oa = if a < i { a } else { a + 1 };
        if oa < i {
            assert(rs[oa].id != rs[i].id);
        } else {
            assert(rs[i].id != rs[oa].id);
        }
    }
    let left = index_by_id(out);
    let right = index_by_id(rs).remove(rs[i].id);
    assert forall|id: Seq<char>| left.contains_key(id) <==> right.contains_key(id) by {
        if left.contains_key(id) {
            let a = index_of(out, id);
            assert(0 <= a < out.len() && out[a].id == id);
            let oa = if a < i { a } else { a + 1 };
            assert(rs[oa].id == id);
        }
        if right.contains_key(id) {
            let a = index_of(rs, id);
            assert(0 <= a < rs.len() && rs[a].id == id);
            let na = if a < i { a } else { a - 1 };
            assert(out[na].id == id);
        }
    }
    assert forall|id: Seq<char>| left.contains_key(id) implies left[id] == right[id] by {
        let a = index_of(out, id);
        assert(0 <= a < out.len() && out[a].id == id);
        lemma_index_of_position(out, a);
        let oa = if a < i { a } else { a + 1 };
        assert(rs[oa] == out[a]);
        lemma_index_of_position(rs, oa);
    }
    assert(left =~= right);
}

/// The empty sequence stands for the empty map.
pub proof fn lemma_empty_listing()
    ensures
        lists(Seq::<SandboxView>::empty(), Map::<Seq<char>, SandboxView>::empty()),
{
    assert(index_by_id(Seq::<SandboxView>::empty()) =~= Map::<Seq<char>, SandboxView>::empty());
}

} // verus!
