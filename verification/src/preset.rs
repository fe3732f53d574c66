//! Preset catalogue: the manifests found on disk, put into their cycling order.
//!
//! A preset is a small TOML manifest pointing at a WGSL shader. Reading the
//! directory and parsing the manifests is the caller's job; this module decides
//! what the catalogue is made of: presets are sorted by name (the cycling
//! order), an empty catalogue is an error, the start preset is found by name,
//! and cycling wraps around at both ends.

use vstd::multiset::Multiset;
use vstd::arithmetic::div_mod::{
    lemma_add_mod_noop, lemma_add_mod_noop_right, lemma_fundamental_div_mod_converse,
    lemma_sub_mod_noop_right,
};
use vstd::prelude::*;

verus! {

broadcast use vstd::seq_lib::group_to_multiset_ensures;

/// The on-disk manifest (`*.toml`).
#[derive(Clone, Debug)]
pub struct PresetSpec {
    /// Human-readable name, used for selection and on-screen logging.
    pub name: String,
    /// Path to the WGSL body, relative to the assets directory.
    pub shader: String,
    /// Optional description (empty when the manifest has none).
    pub description: String,
}

/// A loaded preset: its manifest plus the resolved shader path.
#[derive(Clone, Debug)]
pub struct Preset {
    pub spec: PresetSpec,
    pub shader_path: String,
}

/// Why a catalogue could not be built.
#[derive(Debug, PartialEq, Eq)]
pub enum PresetError {
    /// No manifest was found.
    NoPresets,
}

/// The name of a preset, as characters.
pub open spec fn name_of(p: Preset) -> Seq<char> {
    p.spec.name@
}

/// Strict lexicographic order on names, comparing Unicode scalar values one by
/// one; a proper prefix comes first. This is the order of `str`'s `Ord`, since
/// UTF-8 byte order and scalar-value order agree.
pub open spec fn name_before(a: Seq<char>, b: Seq<char>) -> bool
    decreases a.len(),
{
    if a.len() == 0 {
        b.len() > 0
    } else if b.len() == 0 {
        false
    } else if a[0] != b[0] {
        (a[0] as int) < (b[0] as int)
    } else {
        name_before(a.drop_first(), b.drop_first())
    }
}

/// `a` may come before `b` in a sorted catalogue.
pub open spec fn name_le(a: Seq<char>, b: Seq<char>) -> bool {
    !name_before(b, a)
}

/// Every preset's name is at most the next ones' names.
pub open spec fn sorted_by_name(s: Seq<Preset>) -> bool {
    forall|i: int, j: int| 0 <= i < j < s.len() ==> name_le(name_of(s[i]), name_of(s[j]))
}

/// No name comes before itself.
pub proof fn lemma_name_before_irreflexive(a: Seq<char>)
    ensures
        !name_before(a, a),
    decreases a.len(),
{
    if a.len() > 0 {
        lemma_name_before_irreflexive(a.drop_first());
    }
}

/// Of two different names, exactly one comes before the other.
pub proof fn lemma_name_before_total(a: Seq<char>, b: Seq<char>)
    ensures
        a != b ==> (name_before(a, b) || name_before(b, a)),
        !(name_before(a, b) && name_before(b, a)),
    decreases a.len(),
{
    if a.len() > 0 && b.len() > 0 && a[0] == b[0] {
        lemma_name_before_total(a.drop_first(), b.drop_first());
        if a.drop_first() == b.drop_first() {
            assert(a =~= seq![a[0]] + a.drop_first());
            assert(b =~= seq![b[0]] + b.drop_first());
        }
    }
    if a.len() == 0 && b.len() == 0 {
        assert(a =~= b);
    }
    if a.len() > 0 && b.len() > 0 && a[0] != b[0] {
        assert((a[0] as int) != (b[0] as int));
    }
}

/// The order on names is transitive.
pub proof fn lemma_name_before_transitive(a: Seq<char>, b: Seq<char>, c: Seq<char>)
    requires
        name_before(a, b),
        name_before(b, c),
    ensures
        name_before(a, c),
    decreases a.len(),
{
    if a.len() > 0 && b.len() > 0 && c.len() > 0 && a[0] == b[0] && b[0] == c[0] {
        lemma_name_before_transitive(a.drop_first(), b.drop_first(), c.drop_first());
    }
}

/// `name_le` is the reflexive closure of `name_before`.
pub proof fn lemma_name_le_cases(a: Seq<char>, b: Seq<char>)
    ensures
        name_le(a, b) <==> (a == b || name_before(a, b)),
{
    lemma_name_before_total(a, b);
    if a == b {
        lemma_name_before_irreflexive(a);
    }
}

/// Names are ordered by their first differing character: when `a` and `b`
/// agree on their first `i` characters and differ at position `i`, `a` comes
/// first exactly when its character there has the smaller Unicode scalar
/// value; and a proper prefix comes before every longer name.
pub proof fn lemma_name_order_first_difference(a: Seq<char>, b: Seq<char>, i: int)
    requires
        0 <= i <= a.len(),
        i <= b.len(),
        a.subrange(0, i) == b.subrange(0, i),
    ensures
        (i < a.len() && i < b.len() && a[i] != b[i]) ==> (name_before(a, b) <==> (a[i] as int) < (
        b[i] as int)),
        (i == a.len() && i < b.len()) ==> name_before(a, b),
        (i == b.len()) ==> !name_before(a, b),
    decreases i,
{
    if i > 0 {
        assert(a[0] == a.subrange(0, i)[0]);
        assert(b[0] == b.subrange(0, i)[0]);
        assert(a.drop_first().subrange(0, i - 1) =~= a.subrange(0, i).drop_first());
        assert(b.drop_first().subrange(0, i - 1) =~= b.subrange(0, i).drop_first());
        lemma_name_order_first_difference(a.drop_first(), b.drop_first(), i - 1);
        if i < a.len() && i < b.len() {
            assert(a.drop_first()[i - 1] == a[i]);
            assert(b.drop_first()[i - 1] == b[i]);
        }
    }
}

/// Whether name `a` comes strictly before name `b`.
pub fn name_precedes(a: &String, b: &String) -> (r: bool)
    ensures
        r == name_before(a@, b@),
{
    let a_len = a.as_str().unicode_len();
    let b_len = b.as_str().unicode_len();
    let mut i: usize = 0;
    assert(a@.skip(0) =~= a@);
    assert(b@.skip(0) =~= b@);
    while i < a_len && i < b_len
        invariant
            a_len == a@.len(),
            b_len == b@.len(),
            i <= a_len,
            i <= b_len,
            name_before(a@, b@) == name_before(a@.skip(i as int), b@.skip(i as int)),
        decreases a_len - i,
    {
        let ca = a.as_str().get_char(i);
        let cb = b.as_str().get_char(i);
        if ca != cb {
            assert(a@.skip(i as int)[0] == ca);
            assert(b@.skip(i as int)[0] == cb);
            return (ca as u32) < (cb as u32);
        }
        assert(a@.skip(i as int).drop_first() =~= a@.skip(i + 1));
        assert(b@.skip(i as int).drop_first() =~= b@.skip(i + 1));
        i = i + 1;
    }
    b_len > i
}

/// `output` is `input` rearranged: position `k` of the output holds input
/// item `origin[k]`, each input item is used once, and items with the same
/// name keep their input order.
pub open spec fn stable_rearrangement(input: Seq<Preset>, output: Seq<Preset>, origin: Seq<int>) -> bool {
    &&& origin.len() == output.len()
    &&& output.len() == input.len()
    &&& forall|k: int| 0 <= k < origin.len() ==> 0 <= #[trigger] origin[k] < input.len()
    &&& forall|k: int| 0 <= k < origin.len() ==> output[k] == input[#[trigger] origin[k]]
    &&& forall|k: int, l: int| 0 <= k < l < origin.len() ==> origin[k] != origin[l]
    &&& forall|k: int, l: int|
        0 <= k < l < origin.len() && name_of(#[trigger] output[k]) == name_of(#[trigger] output[l])
            ==> origin[k] < origin[l]
}

/// Sort presets by name for a stable cycling order. The result holds exactly
/// the given presets, and presets with the same name keep their order (the
/// sort is stable).
pub fn sort_by_name(presets: Vec<Preset>) -> (sorted: Vec<Preset>)
    ensures
        sorted_by_name(sorted@),
        sorted@.to_multiset() == presets@.to_multiset(),
        exists|origin: Seq<int>| stable_rearrangement(presets@, sorted@, origin),
{
    let ghost input = presets@;
    let mut rest = presets;
    let mut sorted: Vec<Preset> = Vec::new();
    let ghost mut origin: Seq<int> = Seq::empty();
    let ghost mut taken: int = 0;
    while rest.len() > 0
        invariant
            sorted_by_name(sorted@),
            sorted@.to_multiset().add(rest@.to_multiset()) == input.to_multiset(),
            0 <= taken <= input.len(),
            rest@ == input.skip(taken),
            origin.len() == sorted@.len(),
            sorted@.len() == taken,
            forall|k: int| 0 <= k < origin.len() ==> 0 <= #[trigger] origin[k] < taken,
            forall|k: int| 0 <= k < origin.len() ==> sorted@[k] == input[#[trigger] origin[k]],
            forall|k: int, l: int| 0 <= k < l < origin.len() ==> origin[k] != origin[l],
            forall|k: int, l: int|
                0 <= k < l < origin.len() && name_of(#[trigger] sorted@[k]) == name_of(
                    #[trigger] sorted@[l],
                ) ==> origin[k] < origin[l],
        decreases rest.len(),
    {
        let ghost before = sorted@;
        let ghost rest_before = rest@;
        let ghost origin_before = origin;
        let item = rest.remove(0);
        assert(item == input[taken]);
        let mut pos: usize = 0;
        while pos < sorted.len() && !name_precedes(&item.spec.name, &sorted[pos].spec.name)
            invariant
                pos <= sorted.len(),
                sorted@ == before,
                forall|k: int| 0 <= k < pos ==> name_le(name_of(sorted@[k]), name_of(item)),
            decreases sorted.len() - pos,
        {
            pos = pos + 1;
        }
        proof {
            assert forall|k: int| pos <= k < before.len() implies name_before(
                name_of(item),
                name_of(before[k]),
            ) by {
                lemma_name_le_cases(name_of(before[pos as int]), name_of(before[k]));
                if name_before(name_of(before[pos as int]), name_of(before[k])) {
                    lemma_name_before_transitive(
                        name_of(item),
                        name_of(before[pos as int]),
                        name_of(before[k]),
                    );
                }
            }
            assert forall|k: int| pos <= k < before.len() implies name_le(
                name_of(item),
                name_of(before[k]),
            ) && name_of(item) != name_of(before[k]) by {
                lemma_name_before_total(name_of(item), name_of(before[k]));
                lemma_name_before_irreflexive(name_of(item));
            }
        }
        sorted.insert(pos, item);
        proof {
            let after = sorted@;
            origin = origin_before.insert(pos as int, taken);
            assert(after == before.insert(pos as int, item));
            assert forall|i: int, j: int| 0 <= i < j < after.len() implies name_le(
                name_of(after[i]),
                name_of(after[j]),
            ) by {
                if i < pos && j < pos {
                } else if i < pos && j == pos {
                } else if i < pos && j > pos {
                    assert(after[j] == before[j - 1]);
                } else if i == pos {
                    assert(after[j] == before[j - 1]);
                } else {
                    assert(after[i] == before[i - 1]);
                    assert(after[j] == before[j - 1]);
                }
            }
            assert forall|k: int| 0 <= k < origin.len() implies 0 <= #[trigger] origin[k] < taken
                + 1 && after[k] == input[origin[k]] by {
                if k < pos {
                } else if k == pos {
                } else {
                    assert(origin[k] == origin_before[k - 1]);
                    assert(after[k] == before[k - 1]);
                }
            }
            assert forall|k: int, l: int| 0 <= k < l < origin.len() implies origin[k]
                != origin[l] by {
                if k < pos && l > pos {
                    assert(origin[l] == origin_before[l - 1]);
                } else if k > pos {
                    assert(origin[k] == origin_before[k - 1]);
                    assert(origin[l] == origin_before[l - 1]);
                } else if l > pos {
                    assert(origin[l] == origin_before[l - 1]);
                }
            }
            assert forall|k: int, l: int|
                0 <= k < l < origin.len() && name_of(#[trigger] after[k]) == name_of(
                    #[trigger] after[l],
                ) implies origin[k] < origin[l] by {
                if k < pos && l < pos {
                } else if k < pos && l == pos {
                } else if k < pos && l > pos {
                    assert(after[l] == before[l - 1]);
                    assert(origin[l] == origin_before[l - 1]);
                } else if k == pos {
                    assert(after[l] == before[l - 1]);
                } else {
                    assert(after[k] == before[k - 1]);
                    assert(after[l] == before[l - 1]);
                    assert(origin[k] == origin_before[k - 1]);
                    assert(origin[l] == origin_before[l - 1]);
                }
            }
            assert(rest_before.remove(0) == rest@);
            assert(rest_before[0] == item);
            assert(rest@ =~= input.skip(taken + 1));
            assert(rest_before.to_multiset().count(item) > 0);
            assert(sorted@.to_multiset().add(rest@.to_multiset()) =~= before.to_multiset().add(
                rest_before.to_multiset(),
            ));
            taken = taken + 1;
        }
    }
    assert(rest@.to_multiset() =~= Multiset::empty());
    assert(sorted@.to_multiset().add(rest@.to_multiset()) =~= sorted@.to_multiset());
    assert(stable_rearrangement(input, sorted@, origin));
    sorted
}

/// Turn the presets found on disk into the catalogue: sorted by name, and an
/// error when there are none.
pub fn collect_presets(found: Vec<Preset>) -> (catalogue: Result<Vec<Preset>, PresetError>)
    ensures
        found@.len() == 0 <==> catalogue is Err,
        catalogue matches Err(e) ==> e == PresetError::NoPresets,
        catalogue matches Ok(v) ==> sorted_by_name(v@) && v@.to_multiset()
            == found@.to_multiset() && exists|origin: Seq<int>|
            stable_rearrangement(found@, v@, origin),
{
    if found.len() == 0 {
        return Err(PresetError::NoPresets);
    }
    Ok(sort_by_name(found))
}

/// Whether some preset carries the given name.
pub open spec fn has_name(s: Seq<Preset>, name: Seq<char>) -> bool {
    exists|k: int| 0 <= k < s.len() && name_of(s[k]) == name
}

/// Index of the preset to start on: the first preset with the requested name,
/// or the first preset when no name was requested or none matches.
pub fn start_index(presets: &Vec<Preset>, start_preset: &Option<String>) -> (index: usize)
    ensures
        match start_preset {
            Some(name) => if has_name(presets@, name@) {
                &&& index < presets@.len()
                &&& name_of(presets@[index as int]) == name@
                &&& forall|k: int| 0 <= k < index ==> name_of(presets@[k]) != name@
            } else {
                index == 0
            },
            None => index == 0,
        },
{
    match start_preset {
        None => 0,
        Some(name) => {
            let mut i: usize = 0;
            while i < presets.len()
                invariant
                    i <= presets@.len(),
                    *start_preset == Some(*name),
                    forall|k: int| 0 <= k < i ==> name_of(presets@[k]) != name@,
                decreases presets.len() - i,
            {
                if presets[i].spec.name == *name {
                    assert(name_of(presets@[i as int]) == name@);
                    return i;
                }
                i = i + 1;
            }
            0
        },
    }
}

/// The preset index reached from `index` by moving `delta` places, wrapping
/// around a catalogue of `count` presets in either direction.
pub open spec fn stepped(index: int, delta: int, count: int) -> int {
    (index + delta) % count
}

/// Move `delta` places through a catalogue of `count` presets, wrapping at
/// both ends.
pub fn step_index(index: usize, delta: i32, count: usize) -> (next: usize)
    requires
        0 < count <= i32::MAX,
        index < count,
        i32::MIN <= index + delta <= i32::MAX,
    ensures
        next == stepped(index as int, delta as int, count as int),
        next < count,
{
    if delta >= 0 {
        let sum = index + (delta as usize);
        sum % count
    } else {
        let back = (-(delta as i64)) as usize;
        let m = back % count;
        proof {
            lemma_sub_mod_noop_right(index as int, back as int, count as int);
            assert(index + delta == index - back);
        }
        if m <= index {
            proof {
                lemma_fundamental_div_mod_converse(
                    index - m,
                    count as int,
                    0,
                    index - m,
                );
            }
            index - m
        } else {
            proof {
                lemma_fundamental_div_mod_converse(
                    index - m,
                    count as int,
                    -1,
                    index - m + count,
                );
            }
            index + count - m
        }
    }
}

/// Moving `a` places and then `b` places lands where moving `a + b` places
/// does.
pub proof fn lemma_steps_compose(index: int, a: int, b: int, count: int)
    requires
        0 < count,
    ensures
        stepped(stepped(index, a, count), b, count) == stepped(index, a + b, count),
{
    let x = index + a;
    lemma_add_mod_noop_right(x % count, b, count);
    lemma_add_mod_noop(x, b, count);
    lemma_add_mod_noop_right(x % count, b, count);
    assert((x % count) % count == x % count) by {
        vstd::arithmetic::div_mod::lemma_mod_twice(x, count);
    }
}

/// Going to the next preset and back to the previous one returns to where
/// cycling started.
pub proof fn lemma_next_then_previous(index: int, count: int)
    requires
        0 <= index < count,
    ensures
        stepped(stepped(index, 1, count), -1, count) == index,
{
    lemma_steps_compose(index, 1, -1, count);
    lemma_fundamental_div_mod_converse(index, count, 0, index);
}

/// Stepping is arithmetic modulo the catalogue size: the result lies in
/// `0..count` and differs from `index + delta` by a whole number of laps.
pub proof fn lemma_stepped_is_remainder(index: int, delta: int, count: int)
    requires
        0 < count,
    ensures
        0 <= stepped(index, delta, count) < count,
        exists|laps: int| index + delta == #[trigger] (laps * count) + stepped(index, delta, count),
{
    vstd::arithmetic::div_mod::lemma_fundamental_div_mod(index + delta, count);
    let laps = (index + delta) / count;
    assert(index + delta == laps * count + stepped(index, delta, count)) by {
        vstd::arithmetic::mul::lemma_mul_is_commutative(laps, count);
    }
}

/// One step forward moves to the following preset and wraps from the last to
/// the first; one step back moves to the preceding preset and wraps from the
/// first to the last.
pub proof fn lemma_single_steps(index: int, count: int)
    requires
        0 <= index < count,
    ensures
        index + 1 < count ==> stepped(index, 1, count) == index + 1,
        index + 1 == count ==> stepped(index, 1, count) == 0,
        index > 0 ==> stepped(index, -1, count) == index - 1,
        index == 0 ==> stepped(index, -1, count) == count - 1,
{
    if index + 1 < count {
        lemma_fundamental_div_mod_converse(index + 1, count, 0, index + 1);
    } else {
        lemma_fundamental_div_mod_converse(index + 1, count, 1, 0);
    }
    if index > 0 {
        lemma_fundamental_div_mod_converse(index - 1, count, 0, index - 1);
    } else {
        lemma_fundamental_div_mod_converse(index - 1, count, -1, count - 1);
    }
}

} // verus!
