//! What the shell needs to find its way around the file system.

use vstd::prelude::*;

verus! {

/// The byte that separates the parts of a path.
pub const SEPARATOR: u8 = 0x2F;

/// The byte of a period.
pub const PERIOD: u8 = 0x2E;

/// The part that stands for the directory itself: one period.
pub open spec fn here() -> Seq<u8> {
    seq![PERIOD]
}

/// The part that stands for the directory above: two periods.
pub open spec fn above() -> Seq<u8> {
    seq![PERIOD, PERIOD]
}

/// The parts of a path: what stands between its separators, without the
/// empty parts.
pub open spec fn parts_of(path: Seq<u8>) -> Seq<Seq<u8>>
    decreases path.len(),
{
    if path.len() == 0 {
        Seq::empty()
    } else if path.last() == SEPARATOR {
        parts_of(path.drop_last())
    } else if path.len() == 1 || path[path.len() - 2] == SEPARATOR {
        parts_of(path.drop_last()).push(seq![path.last()])
    } else {
        let before = parts_of(path.drop_last());
        before.drop_last().push(before.last().push(path.last()))
    }
}

/// What is left of the first `n` of `parts` once every part is followed:
/// a single period leads nowhere, two periods lead one part back, if there
/// is one, and any other part leads into itself.
pub open spec fn resolved(parts: Seq<Seq<u8>>, n: nat) -> Seq<Seq<u8>>
    decreases n,
{
    if n == 0 {
        Seq::empty()
    } else {
        let before = resolved(parts, (n - 1) as nat);
        let part = parts[n - 1];
        if part == here() {
            before
        } else if part == above() {
            if before.len() > 0 {
                before.drop_last()
            } else {
                before
            }
        } else {
            before.push(part)
        }
    }
}

/// The first `n` of `parts`, each behind a separator.
pub open spec fn joined(parts: Seq<Seq<u8>>, n: nat) -> Seq<u8>
    decreases n,
{
    if n == 0 {
        Seq::empty()
    } else {
        joined(parts, (n - 1) as nat) + seq![SEPARATOR] + parts[n - 1]
    }
}

/// The parts that `path` is made of when it is read in the directory
/// `current_dir`: its own when it begins with a separator, and else those of
/// the directory before its own.
pub open spec fn all_parts(path: Seq<u8>, current_dir: Seq<u8>) -> Seq<Seq<u8>> {
    if path.len() > 0 && path[0] == SEPARATOR {
        parts_of(path)
    } else {
        parts_of(current_dir) + parts_of(path)
    }
}

/// The normal form of `path`, read in the directory `current_dir`: the
/// parts that are left once every part is followed, each behind a
/// separator, or one separator when none is left.
pub open spec fn normal_form(path: Seq<u8>, current_dir: Seq<u8>) -> Seq<u8> {
    let parts = all_parts(path, current_dir);
    let left = resolved(parts, parts.len());
    if left.len() == 0 {
        seq![SEPARATOR]
    } else {
        joined(left, left.len())
    }
}

/// The parts of `parts`, as sequences.
pub open spec fn views(parts: Seq<Vec<u8>>) -> Seq<Seq<u8>> {
    parts.map_values(|part: Vec<u8>| part@)
}

/// Splits `path` at its separators and appends its parts to `parts`.
fn split_into(path: &Vec<u8>, parts: &mut Vec<Vec<u8>>)
    ensures
        views(final(parts)@) == views(old(parts)@) + parts_of(path@),
{
    let ghost base = views(parts@);
    let mut i: usize = 0;
    proof {
        assert(path@.take(0) =~= Seq::<u8>::empty());
        assert(base + parts_of(path@.take(0)) =~= base);
    }
    while i < path.len()
        invariant
            i <= path.len(),
            base == views(old(parts)@),
            views(parts@) == base + parts_of(path@.take(i as int)),
            i > 0 && path@[i - 1] != SEPARATOR ==> parts_of(path@.take(i as int)).len() > 0,
        decreases path.len() - i,
    {
        let ghost before = path@.take(i as int);
        let ghost after = path@.take(i + 1);
        let ghost split = parts_of(before);
        proof {
            assert(after.drop_last() =~= before);
            assert(after.last() == path@[i as int]);
            if i > 0 {
                assert(after[after.len() - 2] == path@[i - 1]);
            }
        }
        let ch: u8 = path[i];
        if ch == SEPARATOR {
            assert(parts_of(after) == split);
        } else if i == 0 || path[i - 1] == SEPARATOR {
            let ghost previous = parts@;
            let mut part: Vec<u8> = Vec::new();
            part.push(ch);
            assert(part@ =~= seq![ch]);
            parts.push(part);
            proof {
                let goal = base + parts_of(after);
                assert(parts_of(after) == split.push(seq![ch]));
                assert(views(previous).len() == previous.len());
                assert(views(parts@).len() == goal.len());
                assert forall|k: int| 0 <= k < goal.len() implies views(parts@)[k] == goal[k] by {
                    assert(views(parts@)[k] == parts@[k]@);
                    if k < previous.len() {
                        assert(parts@[k] == previous[k]);
                        assert(views(previous)[k] == previous[k]@);
                        assert((base + split)[k] == goal[k]);
                    }
                }
                assert(views(parts@) =~= goal);
            }
        } else {
            proof {
                assert(views(parts@).len() == parts@.len());
                assert(split.len() > 0);
            }
            let ghost previous = parts@;
            let ghost last: int = previous.len() - 1;
            let mut part: Vec<u8> = match parts.pop() {
                Some(part) => part,
                None => Vec::new(),
            };
            proof {
                assert(views(previous)[last] == previous[last]@);
                assert((base + split)[last] == split[split.len() - 1]);
                assert(part@ == split.last());
            }
            part.push(ch);
            parts.push(part);
            proof {
                let goal = base + parts_of(after);
                assert(parts_of(after) == split.drop_last().push(split.last().push(ch)));
                assert(views(parts@).len() == goal.len());
                assert forall|k: int| 0 <= k < goal.len() implies views(parts@)[k] == goal[k] by {
                    assert(views(parts@)[k] == parts@[k]@);
                    if k < last {
                        assert(parts@[k] == previous[k]);
                        assert(views(previous)[k] == previous[k]@);
                        assert((base + split)[k] == goal[k]);
                    }
                }
                assert(views(parts@) =~= goal);
            }
        }
        i = i + 1;
    }
    assert(path@.take(path.len() as int) =~= path@);
}

/// True when `part` is one period.
fn is_here(part: &Vec<u8>) -> (yes: bool)
    ensures
        yes == (part@ == here()),
{
    let yes: bool = part.len() == 1 && part[0] == PERIOD;
    proof {
        if yes {
            assert(part@ =~= here());
        }
    }
    yes
}

/// True when `part` is two periods.
fn is_above(part: &Vec<u8>) -> (yes: bool)
    ensures
        yes == (part@ == above()),
{
    let yes: bool = part.len() == 2 && part[0] == PERIOD && part[1] == PERIOD;
    proof {
        if yes {
            assert(part@ =~= above());
        }
    }
    yes
}

/// The normal form of `path`, read in the directory `current_dir`.
///
/// A path that begins with a separator stands for itself; any other is
/// read behind `current_dir`. Empty parts and single periods are dropped,
/// and two periods take back the part before them, if there is one. What is
/// left is written with a separator before each part; when nothing is left,
/// the result is the root directory, one separator.
pub fn normalize_path(path: &Vec<u8>, current_dir: &Vec<u8>) -> (normal: Vec<u8>)
    ensures
        normal@ == normal_form(path@, current_dir@),
{
    let mut parts: Vec<Vec<u8>> = Vec::new();
    assert(views(parts@) =~= Seq::<Seq<u8>>::empty());
    if !(path.len() > 0 && path[0] == SEPARATOR) {
        split_into(current_dir, &mut parts);
    }
    split_into(path, &mut parts);
    let ghost all = all_parts(path@, current_dir@);
    assert(views(parts@) =~= all);
    let mut result_parts: Vec<usize> = Vec::new();
    let mut n: usize = 0;
    while n < parts.len()
        invariant
            n <= parts.len(),
            views(parts@) == all,
            result_parts@.len() == resolved(all, n as nat).len(),
            forall|k: int|
                0 <= k < result_parts@.len() ==> (#[trigger] result_parts@[k]) < n
                    && parts@[result_parts@[k] as int]@ == resolved(all, n as nat)[k],
        decreases parts.len() - n,
    {
        let ghost before = resolved(all, n as nat);
        assert(all[n as int] == parts@[n as int]@) by {
            assert(views(parts@)[n as int] == parts@[n as int]@);
        }
        let ghost kept = result_parts@;
        if is_here(&parts[n]) {
        } else if is_above(&parts[n]) {
            if result_parts.len() > 0 {
                result_parts.pop();
                assert forall|k: int| 0 <= k < result_parts@.len() implies (
                #[trigger] result_parts@[k]) < n + 1 && parts@[result_parts@[k] as int]@
                    == before.drop_last()[k] by {
                    assert(result_parts@[k] == kept[k]);
                }
            }
        } else {
            result_parts.push(n);
            assert forall|k: int| 0 <= k < result_parts@.len() implies (#[trigger] result_parts@[k])
                < n + 1 && parts@[result_parts@[k] as int]@ == before.push(all[n as int])[k] by {
                if k < kept.len() {
                    assert(result_parts@[k] == kept[k]);
                }
            }
        }
        n = n + 1;
    }
    let ghost left = resolved(all, all.len());
    assert(all.len() == parts@.len()) by {
        assert(views(parts@).len() == parts@.len());
    }
    if result_parts.len() == 0 {
        let mut root: Vec<u8> = Vec::new();
        root.push(SEPARATOR);
        assert(root@ =~= seq![SEPARATOR]);
        return root;
    }
    let mut normal: Vec<u8> = Vec::new();
    let mut k: usize = 0;
    while k < result_parts.len()
        invariant
            k <= result_parts@.len(),
            result_parts@.len() == left.len(),
            forall|j: int|
                0 <= j < result_parts@.len() ==> (#[trigger] result_parts@[j]) < parts@.len()
                    && parts@[result_parts@[j] as int]@ == left[j],
            normal@ == joined(left, k as nat),
        decreases result_parts.len() - k,
    {
        normal.push(SEPARATOR);
        let part_index: usize = result_parts[k];
        let ghost start = normal@;
        let part: &Vec<u8> = &parts[part_index];
        let mut c: usize = 0;
        while c < part.len()
            invariant
                part_index < parts@.len(),
                *part == parts@[part_index as int],
                c <= part@.len(),
                normal@ == start + part@.take(c as int),
            decreases part.len() - c,
        {
            normal.push(part[c]);
            c = c + 1;
            assert(normal@ =~= start + parts@[part_index as int]@.take(c as int));
        }
        assert(parts@[part_index as int]@.take(c as int) =~= parts@[part_index as int]@);
        assert(parts@[part_index as int]@ == left[k as int]);
        k = k + 1;
    }
    normal
}

} // verus!
