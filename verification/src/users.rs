//! Owner resolution through a lookup table of known users.

use vstd::prelude::*;

verus! {

/// One known user: a numeric id and its display name.
pub struct UnixUser {
    pub uid: u32,
    pub name: String,
}

impl UnixUser {
    /// The user's display name.
    pub fn get_name(&self) -> (r: String)
        ensures
            r == self.name,
    {
        self.name.clone()
    }
}

/// The record the table gives to `uid`: the first one carrying that id.
pub open spec fn spec_resolve(records: Seq<UnixUser>, uid: u32) -> Option<UnixUser>
    decreases records.len(),
{
    if records.len() == 0 {
        None
    } else if records[0].uid == uid {
        Some(records[0])
    } else {
        spec_resolve(records.drop_first(), uid)
    }
}

/// Resolution succeeds exactly when some record carries the id, and the
/// resolved record then carries the id itself and comes from the table.
pub proof fn lemma_resolve_found(records: Seq<UnixUser>, uid: u32)
    ensures
        (spec_resolve(records, uid) is Some) <==> (exists|k: int|
            0 <= k < records.len() && (#[trigger] records[k]).uid == uid),
        spec_resolve(records, uid) matches Some(user) ==> user.uid == uid && records.contains(
            user,
        ),
    decreases records.len(),
{
    if records.len() == 0 {
    } else if records[0].uid == uid {
        assert(records[0].uid == uid);
        assert(records.contains(records[0]));
    } else {
        lemma_resolve_found(records.drop_first(), uid);
        if spec_resolve(records, uid) is Some {
            let user = spec_resolve(records, uid)->0;
            assert(records.drop_first().contains(user));
            let m = choose|m: int|
                0 <= m < records.drop_first().len() && records.drop_first()[m] == user;
            assert(records[m + 1] == user);
            assert(records.contains(user));
        } else {
            if exists|k: int| 0 <= k < records.len() && (#[trigger] records[k]).uid == uid {
                let k = choose|k: int| 0 <= k < records.len() && (#[trigger] records[k]).uid == uid;
                assert(records.drop_first()[k - 1].uid == uid);
                assert(false);
            }
        }
    }
}

/// A lookup table from user ids to display names: the resolver's knowledge,
/// gathered outside and handed in as plain values.
pub struct UserTable {
    pub records: Vec<UnixUser>,
}

impl UserTable {
    /// An empty table, which resolves no id.
    pub fn new() -> (t: UserTable)
        ensures
            t.records@ =~= Seq::<UnixUser>::empty(),
    {
        UserTable { records: Vec::new() }
    }

    /// Adds one user record at the end of the table.
    pub fn add(&mut self, uid: u32, name: String)
        ensures
            final(self).records@ == old(self).records@.push(UnixUser { uid, name }),
    {
        self.records.push(UnixUser { uid, name });
    }

    /// Resolves a user id to its record; `None` exactly when no record
    /// carries the id.
    pub fn resolve(&self, uid: u32) -> (r: Option<UnixUser>)
        ensures
            r == spec_resolve(self.records@, uid),
    {
        let mut i: usize = 0;
        proof {
            assert(self.records@.skip(0) =~= self.records@);
        }
        while i < self.records.len()
            invariant
                i <= self.records@.len(),
                spec_resolve(self.records@, uid) == spec_resolve(
                    self.records@.skip(i as int),
                    uid,
                ),
            decreases self.records@.len() - i,
        {
            proof {
                assert(self.records@.skip(i as int)[0] == self.records@[i as int]);
            }
            let record = &self.records[i];
            if record.uid == uid {
                return Some(UnixUser { uid: record.uid, name: record.name.clone() });
            }
            proof {
                assert(self.records@.skip(i as int).drop_first() =~= self.records@.skip(
                    i as int + 1,
                ));
            }
            i = i + 1;
        }
        None
    }
}

} // verus!
