//! The device and its allow-list: the set of peer identities this host is
//! willing to talk to.
//!
//! The allow-list is an unordered set kept as an insertion-ordered,
//! duplicate-free vector. Set membership is the sole authorization predicate.
//! The surrounding process loads the list from the persisted config at
//! startup and rewrites the config after every mutation.

use vstd::prelude::*;

use crate::identity::is_device_identity;
use crate::seqs::{
    lemma_no_dups_push, lemma_remove_value_absent, lemma_remove_value_contains,
    lemma_remove_value_no_dups, no_dups, remove_value,
};

verus! {

/// What allowing an identity does to the list: appended when absent, and the
/// call reports whether it was newly added.
pub open spec fn allow_model(s: Seq<Seq<char>>, id: Seq<char>) -> (Seq<Seq<char>>, bool) {
    if s.contains(id) {
        (s, false)
    } else {
        (s.push(id), true)
    }
}

/// What disabling an identity does to the list: removed when present, and the
/// call reports whether it was present.
pub open spec fn disable_model(s: Seq<Seq<char>>, id: Seq<char>) -> (Seq<Seq<char>>, bool) {
    if s.contains(id) {
        (remove_value(s, id), true)
    } else {
        (s, false)
    }
}

/// The list with later duplicates dropped: each value keeps its first
/// occurrence.
pub open spec fn dedup_model(s: Seq<Seq<char>>) -> Seq<Seq<char>>
    decreases s.len(),
{
    if s.len() == 0 {
        s
    } else {
        let rest = dedup_model(s.drop_last());
        if rest.contains(s.last()) {
            rest
        } else {
            rest.push(s.last())
        }
    }
}

/// Deduplication keeps exactly the values of the input.
pub proof fn lemma_dedup_contains(s: Seq<Seq<char>>, y: Seq<char>)
    ensures
        dedup_model(s).contains(y) <==> s.contains(y),
    decreases s.len(),
{
    if s.len() == 0 {
    } else {
        lemma_dedup_contains(s.drop_last(), y);
        assert(s.drop_last().push(s.last()) =~= s);
        let rest = dedup_model(s.drop_last());
        if s.contains(y) {
            let i = choose|i: int| 0 <= i < s.len() && s[i] == y;
            if i < s.len() - 1 {
                assert(s.drop_last()[i] == y);
                assert(s.drop_last().contains(y));
                if !rest.contains(s.last()) {
                    let j = choose|j: int| 0 <= j < rest.len() && rest[j] == y;
                    assert(rest.push(s.last())[j] == y);
                }
            } else {
                assert(s.last() == y);
                if !rest.contains(s.last()) {
                    assert(rest.push(s.last())[rest.len() as int] == y);
                }
            }
        }
        if dedup_model(s).contains(y) {
            if rest.contains(s.last()) {
                assert(s.drop_last().contains(y));
                let i = choose|i: int| 0 <= i < s.drop_last().len() && s.drop_last()[i] == y;
                assert(s[i] == y);
            } else {
                let j = choose|j: int|
                    0 <= j < rest.push(s.last()).len() && rest.push(s.last())[j] == y;
                if j < rest.len() {
                    assert(rest[j] == y);
                    assert(s.drop_last().contains(y));
                    let i = choose|i: int| 0 <= i < s.drop_last().len() && s.drop_last()[i] == y;
                    assert(s[i] == y);
                } else {
                    assert(s[s.len() - 1] == y);
                }
            }
        }
    }
}

/// Deduplication yields a duplicate-free list.
pub proof fn lemma_dedup_no_dups(s: Seq<Seq<char>>)
    ensures
        no_dups(dedup_model(s)),
    decreases s.len(),
{
    if s.len() == 0 {
    } else {
        lemma_dedup_no_dups(s.drop_last());
        let rest = dedup_model(s.drop_last());
        if !rest.contains(s.last()) {
            lemma_no_dups_push(rest, s.last());
        }
    }
}

/// A host: its own identity and the identities it allows.
pub struct Device {
    /// This host's identity: lowercase-hex SHA-256 of its private key.
    pub id: String,
    /// The allow-list snapshot, duplicate-free, in insertion order.
    pub allowed: Vec<String>,
}

/// Does the duplicate-free vector hold the identity?
fn contains_id(v: &Vec<String>, id: &String) -> (r: bool)
    ensures
        r == v.deep_view().contains(id@),
{
    let ghost dv = v.deep_view();
    let mut i: usize = 0;
    while i < v.len()
        invariant
            0 <= i <= v.len(),
            dv == v.deep_view(),
            dv.len() == v.len(),
            forall|k: int| 0 <= k < i ==> dv[k] != id@,
        decreases v.len() - i,
    {
        if v[i].eq(id) {
            assert(dv[i as int] == id@);
            assert(dv.contains(id@));
            return true;
        }
        i += 1;
    }
    assert(!dv.contains(id@)) by {
        if dv.contains(id@) {
            let k = choose|k: int| 0 <= k < dv.len() && dv[k] == id@;
            assert(dv[k] != id@);
        }
    }
    false
}

impl Device {
    /// The device is well-formed: its identity has the identity shape and the
    /// allow-list holds no identity twice.
    pub open spec fn wf(&self) -> bool {
        &&& is_device_identity(self.id@)
        &&& no_dups(self.allowed.deep_view())
    }

    /// Builds a device from its identity and the persisted allow-list,
    /// dropping duplicates a hand-edited config may hold.
    pub fn from_parts(id: String, allowed: Vec<String>) -> (d: Device)
        requires
            is_device_identity(id@),
        ensures
            d.wf(),
            d.id == id,
            d.allowed.deep_view() == dedup_model(allowed.deep_view()),
    {
        let ghost dv = allowed.deep_view();
        let mut out: Vec<String> = Vec::new();
        let mut i: usize = 0;
        assert(out.deep_view() =~= dedup_model(dv.take(0)));
        while i < allowed.len()
            invariant
                0 <= i <= allowed.len(),
                dv == allowed.deep_view(),
                dv.len() == allowed.len(),
                out.deep_view() == dedup_model(dv.take(i as int)),
            decreases allowed.len() - i,
        {
            let ghost pre = out.deep_view();
            assert(dv.take(i + 1).drop_last() =~= dv.take(i as int));
            assert(dv.take(i + 1).last() == dv[i as int]);
            if !contains_id(&out, &allowed[i]) {
                let entry = allowed[i].clone();
                assert(entry@ == dv[i as int]);
                out.push(entry);
                assert(out.deep_view() =~= pre.push(dv[i as int]));
            }
            i += 1;
        }
        assert(dv.take(dv.len() as int) =~= dv);
        proof {
            lemma_dedup_no_dups(dv);
        }
        Device { id, allowed: out }
    }

    /// Is the identity in the allow-list?
    pub fn is_allowed(&self, id: String) -> (r: bool)
        ensures
            r == self.allowed.deep_view().contains(id@),
    {
        contains_id(&self.allowed, &id)
    }

    /// Allows a peer identity.
    ///
    /// Returns true iff the identity was newly added, i.e. absent before; the
    /// list is unchanged when it was already present.
    pub fn allow(&mut self, id: String) -> (added: bool)
        requires
            old(self).wf(),
        ensures
            final(self).wf(),
            final(self).id == old(self).id,
            added == allow_model(old(self).allowed.deep_view(), id@).1,
            final(self).allowed.deep_view() == allow_model(old(self).allowed.deep_view(), id@).0,
    {
        let ghost dv = self.allowed.deep_view();
        if contains_id(&self.allowed, &id) {
            false
        } else {
            proof {
                lemma_no_dups_push(dv, id@);
            }
            let ghost idv = id@;
            self.allowed.push(id);
            assert(self.allowed.deep_view() =~= dv.push(idv));
            true
        }
    }

    /// Disables a peer identity.
    ///
    /// Returns true iff the identity was present, now removed; the list is
    /// unchanged when it was absent.
    pub fn disable(&mut self, id: String) -> (removed: bool)
        requires
            old(self).wf(),
        ensures
            final(self).wf(),
            final(self).id == old(self).id,
            removed == disable_model(old(self).allowed.deep_view(), id@).1,
            final(self).allowed.deep_view() == disable_model(old(self).allowed.deep_view(), id@).0,
    {
        let ghost dv = self.allowed.deep_view();
        if contains_id(&self.allowed, &id) {
            let mut out: Vec<String> = Vec::new();
            let mut i: usize = 0;
            assert(out.deep_view() =~= remove_value(dv.take(0), id@));
            while i < self.allowed.len()
                invariant
                    0 <= i <= self.allowed.len(),
                    dv == self.allowed.deep_view(),
                    dv.len() == self.allowed.len(),
                    out.deep_view() == remove_value(dv.take(i as int), id@),
                decreases self.allowed.len() - i,
            {
                let ghost pre = out.deep_view();
                assert(dv.take(i + 1).drop_last() =~= dv.take(i as int));
                assert(dv.take(i + 1).last() == dv[i as int]);
                if !self.allowed[i].eq(&id) {
                    let entry = self.allowed[i].clone();
                    assert(entry@ == dv[i as int]);
                    out.push(entry);
                    assert(out.deep_view() =~= pre.push(dv[i as int]));
                }
                i += 1;
            }
            assert(dv.take(dv.len() as int) =~= dv);
            proof {
                lemma_remove_value_no_dups(dv, id@);
            }
            self.allowed = out;
            true
        } else {
            proof {
                lemma_remove_value_absent(dv, id@);
            }
            false
        }
    }

    /// All allowed identities, in insertion order.
    pub fn list(&self) -> (r: &Vec<String>)
        ensures
            r.deep_view() == self.allowed.deep_view(),
    {
        &self.allowed
    }
}

/// Law: allowing an absent identity twice in a row adds it exactly once. The
/// first call reports a new addition, the second does not and leaves the list
/// unchanged; afterwards the identity occurs at exactly one position.
pub proof fn lemma_allow_idempotent(s: Seq<Seq<char>>, id: Seq<char>)
    requires
        no_dups(s),
        !s.contains(id),
    ensures
        allow_model(s, id).1,
        allow_model(s, id).0 == s.push(id),
        !allow_model(allow_model(s, id).0, id).1,
        allow_model(allow_model(s, id).0, id).0 == allow_model(s, id).0,
        allow_model(s, id).0.last() == id,
        forall|i: int| 0 <= i < allow_model(s, id).0.len() - 1 ==> allow_model(s, id).0[i] != id,
{
    let s1 = allow_model(s, id).0;
    assert(s1 == s.push(id));
    assert(s1[s.len() as int] == id);
    assert(s1.contains(id));
    assert forall|i: int| 0 <= i < s1.len() - 1 implies s1[i] != id by {
        if s1[i] == id {
            assert(s[i] == id);
            assert(s.contains(id));
        }
    }
}

/// Law: disabling a present identity twice in a row removes it exactly once.
/// The first call reports a removal, the second does not and leaves the list
/// unchanged; afterwards the identity is gone and every other identity is
/// kept.
pub proof fn lemma_disable_idempotent(s: Seq<Seq<char>>, id: Seq<char>)
    requires
        no_dups(s),
        s.contains(id),
    ensures
        disable_model(s, id).1,
        !disable_model(disable_model(s, id).0, id).1,
        disable_model(disable_model(s, id).0, id).0 == disable_model(s, id).0,
        !disable_model(s, id).0.contains(id),
        forall|y: Seq<char>|
            y != id ==> (disable_model(s, id).0.contains(y) <==> s.contains(y)),
{
    let s1 = disable_model(s, id).0;
    lemma_remove_value_contains(s, id, id);
    assert forall|y: Seq<char>| y != id implies (s1.contains(y) <==> s.contains(y)) by {
        lemma_remove_value_contains(s, id, y);
    }
}

} // verus!
