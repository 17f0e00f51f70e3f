use vstd::prelude::*;

verus! {

/// A 32-byte account key.
pub type AccountKey = [u8; 32];

/// An account key with the balance it is endowed with at genesis.
pub type Endowment = (AccountKey, u128);

/// Whether some entry of `s` is for `key`.
pub open spec fn has_key(s: Seq<Endowment>, key: AccountKey) -> bool {
    exists|i: int| 0 <= i < s.len() && (#[trigger] s[i]).0@ == key@
}

/// The entries of `defaults`, in order, whose account `extra` does not list.
pub open spec fn defaults_kept(defaults: Seq<Endowment>, extra: Seq<Endowment>) -> Seq<Endowment> {
    defaults.filter(|e: Endowment| !has_key(extra, e.0))
}

pub fn same_key(a: &AccountKey, b: &AccountKey) -> (r: bool)
    ensures
        r == (a@ == b@),
{
    let mut i: usize = 0;
    while i < 32
        invariant
            i <= 32,
            forall|k: int| 0 <= k < i ==> a@[k] == b@[k],
        decreases 32 - i,
    {
        if a[i] != b[i] {
            return false;
        }
        i = i + 1;
    }
    assert(a@ =~= b@);
    true
}

fn lists_key(s: &Vec<Endowment>, key: &AccountKey) -> (r: bool)
    ensures
        r == has_key(s@, *key),
{
    let mut i: usize = 0;
    while i < s.len()
        invariant
            i <= s@.len(),
            forall|k: int| 0 <= k < i ==> (#[trigger] s@[k]).0@ != key@,
        decreases s@.len() - i,
    {
        if same_key(&s[i].0, key) {
            assert(s@[i as int].0@ == key@);
            return true;
        }
        i = i + 1;
    }
    false
}

/// The genesis endowments: every entry of `extra`, then each entry of
/// `defaults` whose account `extra` does not already list. On an account
/// listed in both, the balance in `extra` wins.
pub fn merge_endowments(defaults: &Vec<Endowment>, extra: Vec<Endowment>) -> (r: Vec<Endowment>)
    ensures
        r@ == extra@ + defaults_kept(defaults@, extra@),
{
    let mut r: Vec<Endowment> = Vec::new();
    let mut j: usize = 0;
    while j < extra.len()
        invariant
            j <= extra@.len(),
            r@ == extra@.take(j as int),
        decreases extra@.len() - j,
    {
        r.push(extra[j]);
        assert(r@ =~= extra@.take(j + 1));
        j = j + 1;
    }
    assert(r@ =~= extra@ + defaults_kept(defaults@.take(0), extra@));
    let mut i: usize = 0;
    while i < defaults.len()
        invariant
            i <= defaults@.len(),
            r@ == extra@ + defaults_kept(defaults@.take(i as int), extra@),
        decreases defaults@.len() - i,
    {
        let entry = defaults[i];
        proof {
            assert(defaults@.take(i + 1) =~= defaults@.take(i as int).push(entry));
            defaults@.take(i as int).lemma_filter_push(entry, |e: Endowment| !has_key(extra@, e.0));
        }
        if !lists_key(&extra, &entry.0) {
            r.push(entry);
            proof {
                assert(r@ =~= extra@ + defaults_kept(defaults@.take(i + 1), extra@));
            }
        }
        i = i + 1;
    }
    assert(defaults@.take(defaults@.len() as int) =~= defaults@);
    r
}

} // verus!
