use vstd::prelude::*;
use crate::pool::LoanPool;
use crate::types::{AccountId, Error, Origin};

verus! {

/// The position of `who` in `v`, if it is there.
pub fn find_account(v: &Vec<AccountId>, who: AccountId) -> (r: Option<usize>)
    ensures
        r is None ==> !v@.contains(who),
        r is Some ==> r->Some_0 < v@.len() && v@[r->Some_0 as int] == who,
{
    let mut i: usize = 0;
    while i < v.len()
        invariant
            i <= v@.len(),
            forall|k: int| 0 <= k < i ==> v@[k] != who,
        decreases v@.len() - i,
    {
        if v[i] == who {
            return Some(i);
        }
        i = i + 1;
    }
    None
}

pub proof fn lemma_remove_distinct(s: Seq<AccountId>, i: int)
    requires
        s.no_duplicates(),
        0 <= i < s.len(),
    ensures
        s.remove(i).no_duplicates(),
        s.remove(i).len() == s.len() - 1,
        forall|x: AccountId| #[trigger] s.remove(i).contains(x) == (s.contains(x) && x != s[i]),
{
    let r = s.remove(i);
    assert forall|x: AccountId| #[trigger] r.contains(x) implies s.contains(x) && x != s[i] by {
        let k = choose|k: int| 0 <= k < r.len() && r[k] == x;
        if k < i {
            assert(s[k] == x);
        } else {
            assert(s[k + 1] == x);
        }
    }
    assert forall|x: AccountId| s.contains(x) && x != s[i] implies #[trigger] r.contains(x) by {
        let k = choose|k: int| 0 <= k < s.len() && s[k] == x;
        if k < i {
            assert(r[k] == x);
        } else {
            assert(r[k - 1] == x);
        }
    }
    assert forall|a: int, b: int| 0 <= a < r.len() && 0 <= b < r.len() && a != b implies r[a] != r[b] by {
        let sa = if a < i { a } else { a + 1 };
        let sb = if b < i { b } else { b + 1 };
        assert(r[a] == s[sa] && r[b] == s[sb]);
    }
}

pub proof fn lemma_push_distinct(s: Seq<AccountId>, x: AccountId)
    requires
        s.no_duplicates(),
        !s.contains(x),
    ensures
        s.push(x).no_duplicates(),
        s.push(x).len() == s.len() + 1,
        forall|y: AccountId| #[trigger] s.push(x).contains(y) == (s.contains(y) || y == x),
{
    let r = s.push(x);
    assert forall|y: AccountId| #[trigger] r.contains(y) implies s.contains(y) || y == x by {
        let k = choose|k: int| 0 <= k < r.len() && r[k] == y;
        if k < s.len() {
            assert(s[k] == y);
        }
    }
    assert forall|y: AccountId| s.contains(y) || y == x implies #[trigger] r.contains(y) by {
        if y == x {
            assert(r[s.len() as int] == y);
        } else {
            let k = choose|k: int| 0 <= k < s.len() && s[k] == y;
            assert(r[k] == y);
        }
    }
    assert forall|a: int, b: int| 0 <= a < r.len() && 0 <= b < r.len() && a != b implies r[a] != r[b] by {
        if a < s.len() && b == s.len() {
            assert(s.contains(s[a]));
        } else if b < s.len() && a == s.len() {
            assert(s.contains(s[b]));
        }
    }
}

impl LoanPool {
    /// Adds `who` to the voting committee.
    pub fn add_member(&mut self, origin: Origin, who: AccountId) -> (r: Result<(), Error>)
        requires
            old(self).wf(),
        ensures
            final(self).wf(),
            !old(self).authorities.committee.permits_spec(origin) ==> r == Err::<(), Error>(Error::BadOrigin),
            old(self).authorities.committee.permits_spec(origin) && old(self).committee@.contains(who)
                ==> r == Err::<(), Error>(Error::AlreadyCommitteeMember),
            old(self).authorities.committee.permits_spec(origin) && !old(self).committee@.contains(who)
                && old(self).committee@.len() >= old(self).config.max_committee_members
                ==> r == Err::<(), Error>(Error::TooManyCommitteeMembers),
            r.is_ok() == (old(self).authorities.committee.permits_spec(origin) && !old(self).committee@.contains(who)
                && old(self).committee@.len() < old(self).config.max_committee_members),
            r.is_err() ==> *final(self) == *old(self),
            r.is_ok() ==> {
                &&& final(self).committee@ == old(self).committee@.push(who)
                &&& forall|x: AccountId| #[trigger] final(self).committee@.contains(x) == (old(self).committee@.contains(x) || x == who)
                &&& final(self).ledger == old(self).ledger
                &&& final(self).proposals == old(self).proposals
                &&& final(self).receipts == old(self).receipts
                &&& final(self).ongoing == old(self).ongoing
                &&& final(self).keeps_history(*old(self))
            },
    {
        if !self.authorities.committee.permits(origin) {
            return Err(Error::BadOrigin);
        }
        if find_account(&self.committee, who).is_some() {
            return Err(Error::AlreadyCommitteeMember);
        }
        if self.committee.len() >= self.config.max_committee_members as usize {
            return Err(Error::TooManyCommitteeMembers);
        }
        proof {
            lemma_push_distinct(self.committee@, who);
        }
        self.committee.push(who);
        Ok(())
    }

    /// Removes `who` from the voting committee. Votes already cast stay counted.
    pub fn remove_member(&mut self, origin: Origin, who: AccountId) -> (r: Result<(), Error>)
        requires
            old(self).wf(),
        ensures
            final(self).wf(),
            !old(self).authorities.committee.permits_spec(origin) ==> r == Err::<(), Error>(Error::BadOrigin),
            old(self).authorities.committee.permits_spec(origin) && !old(self).committee@.contains(who)
                ==> r == Err::<(), Error>(Error::NotCommitteeMember),
            r.is_ok() == (old(self).authorities.committee.permits_spec(origin) && old(self).committee@.contains(who)),
            r.is_err() ==> *final(self) == *old(self),
            r.is_ok() ==> {
                &&& final(self).committee@.len() == old(self).committee@.len() - 1
                &&& forall|x: AccountId| #[trigger] final(self).committee@.contains(x) == (old(self).committee@.contains(x) && x != who)
                &&& final(self).ledger == old(self).ledger
                &&& final(self).proposals == old(self).proposals
                &&& final(self).receipts == old(self).receipts
                &&& final(self).ongoing == old(self).ongoing
                &&& final(self).keeps_history(*old(self))
            },
    {
        if !self.authorities.committee.permits(origin) {
            return Err(Error::BadOrigin);
        }
        match find_account(&self.committee, who) {
            None => Err(Error::NotCommitteeMember),
            Some(i) => {
                proof {
                    lemma_remove_distinct(self.committee@, i as int);
                }
                self.committee.remove(i);
                Ok(())
            },
        }
    }
}

} // verus!
