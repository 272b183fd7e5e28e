use moly_kit::vec::{IndexSet, VecEffect, VecMutation};

fn applied(m: VecMutation<i32>, v: &[i32]) -> Vec<i32> {
    let mut v = v.to_vec();
    m.apply(&mut v);
    v
}

fn replay(effects: &[VecEffect<'_, i32>], v: &[i32]) -> Vec<i32> {
    let mut v = v.to_vec();
    for e in effects {
        match e {
            VecEffect::Insert(index, items) => {
                let tail = v.split_off(*index);
                v.extend_from_slice(items);
                v.extend(tail);
            }
            VecEffect::Update(index, _, new) => v[*index] = **new,
            VecEffect::Remove(start, end, _) => {
                v.drain(*start..*end);
            }
        }
    }
    v
}

fn length_change(effects: &[VecEffect<'_, i32>]) -> i64 {
    effects
        .iter()
        .map(|e| match e {
            VecEffect::Insert(_, items) => items.len() as i64,
            VecEffect::Update(..) => 0,
            VecEffect::Remove(start, end, _) => -((end - start) as i64),
        })
        .sum()
}

const BASE: [i32; 5] = [1, 2, 3, 4, 5];

#[test]
fn shorthand_mutations_are_splices_and_inserts() {
    assert_eq!(applied(VecMutation::InsertMany(2, vec![8, 9]), &BASE), applied(VecMutation::Splice(2, 2, vec![8, 9]), &BASE));
    assert_eq!(applied(VecMutation::InsertOne(1, 7), &BASE), applied(VecMutation::InsertMany(1, vec![7]), &BASE));
    assert_eq!(applied(VecMutation::Extend(vec![6, 7]), &BASE), applied(VecMutation::InsertMany(5, vec![6, 7]), &BASE));
    assert_eq!(applied(VecMutation::Push(6), &BASE), applied(VecMutation::Extend(vec![6]), &BASE));
    assert_eq!(applied(VecMutation::RemoveRange(1, 3), &BASE), applied(VecMutation::Splice(1, 3, vec![]), &BASE));
    assert_eq!(applied(VecMutation::RemoveOne(2), &BASE), applied(VecMutation::RemoveRange(2, 3), &BASE));
    assert_eq!(applied(VecMutation::Clear, &BASE), applied(VecMutation::RemoveRange(0, 5), &BASE));
    assert_eq!(applied(VecMutation::SetAll(vec![9]), &BASE), applied(VecMutation::Splice(0, 5, vec![9]), &BASE));
    assert_eq!(applied(VecMutation::UpdateLast(0), &BASE), applied(VecMutation::Update(4, 0), &BASE));
    assert_eq!(applied(VecMutation::RemoveLast, &BASE), applied(VecMutation::RemoveOne(4), &BASE));
}

#[test]
fn effects_account_for_length_and_replay() {
    let mutations = vec![
        VecMutation::Splice(1, 3, vec![7, 8, 9]),
        VecMutation::InsertMany(0, vec![0]),
        VecMutation::InsertOne(5, 6),
        VecMutation::Extend(vec![6, 7]),
        VecMutation::Push(6),
        VecMutation::RemoveRange(0, 2),
        VecMutation::RemoveOne(4),
        VecMutation::RemoveLast,
        VecMutation::Clear,
        VecMutation::Update(2, 30),
        VecMutation::UpdateLast(50),
        VecMutation::SetAll(vec![4, 4]),
    ];
    for m in mutations {
        let effects = m.effects(&BASE);
        let after = applied(m.clone(), &BASE);
        assert_eq!(BASE.len() as i64 + length_change(&effects), after.len() as i64);
        assert_eq!(replay(&effects, &BASE), after);
    }
}

#[test]
fn remove_many_effects_account_for_length() {
    let m = VecMutation::RemoveMany(IndexSet::from(vec![3, 0, 3]));
    let effects = m.effects(&BASE);
    let after = applied(m.clone(), &BASE);
    assert_eq!(after, vec![2, 3, 5]);
    assert_eq!(BASE.len() as i64 + length_change(&effects), after.len() as i64);
    let backwards: Vec<VecEffect<'_, i32>> = effects.iter().rev().copied().collect();
    assert_eq!(replay(&backwards, &BASE), after);
}
