//! Device groups: a named, mutable, insertion-ordered collection of device
//! identifiers under a stable group identity, with the invariant that no
//! identifier appears twice.

use vstd::prelude::*;

verus! {

/// The ghost state of a group: its opaque identity, its human-readable
/// label, and its member identifiers in insertion order.
pub struct GroupView {
    pub id: Seq<char>,
    pub name: Seq<char>,
    pub devices: Seq<Seq<char>>,
}

/// The two ways a membership mutation can fail; both are reportable to the
/// caller and leave the group untouched.
#[derive(Copy, Clone, Debug, PartialEq, Eq, Structural)]
pub enum GroupError {
    /// `add_device` was given an identifier that is already a member.
    DuplicateMember,
    /// `remove_device` was given an identifier that is not a member.
    MemberNotFound,
}

/// No identifier appears at two positions of `s`.
pub open spec fn distinct_ids(s: Seq<Seq<char>>) -> bool {
    forall|i: int, j: int| 0 <= i < j < s.len() ==> s[i] != s[j]
}

/// The members that survive removing `d`: everything not equal to `d`, in
/// the original order.
pub open spec fn without_id(s: Seq<Seq<char>>, d: Seq<char>) -> Seq<Seq<char>> {
    s.filter(|x: Seq<char>| x != d)
}

/// How many positions of `s` hold exactly the identifier `d`.
pub open spec fn occurrences(s: Seq<Seq<char>>, d: Seq<char>) -> nat
    decreases s.len(),
{
    if s.len() == 0 {
        0
    } else {
        occurrences(s.drop_last(), d) + (if s.last() == d {
            1nat
        } else {
            0nat
        })
    }
}

/// A named group of device identifiers. The identity is synthesized once at
/// construction and never changes; the device sequence never holds the same
/// identifier twice.
pub struct DeviceGroup {
    id: String,
    name: String,
    devices: Vec<String>,
}

impl View for DeviceGroup {
    type V = GroupView;

    closed spec fn view(&self) -> GroupView {
        GroupView { id: self.id@, name: self.name@, devices: self.devices.deep_view() }
    }
}

/// Relies on `uuid::Uuid::new_v4` and the `Display` form of `uuid::Uuid`:
/// a freshly generated random version-4 UUID, rendered in the hyphenated
/// format, which is always 36 characters long.
#[verifier::external_body]
fn fresh_group_id() -> (r: String)
    ensures
        r@.len() == 36,
{
    uuid::Uuid::new_v4().to_string()
}

impl DeviceGroup {
    /// No identifier is a member of this group twice.
    pub open spec fn wf(self) -> bool {
        distinct_ids(self@.devices)
    }

    /// Makes a group with the given label, a freshly generated identity,
    /// and no members. Always succeeds; `name` is not validated.
    pub fn new(name: &str) -> (g: DeviceGroup)
        ensures
            g.wf(),
            g@.id.len() == 36,
            g@.name == name@,
            g@.devices == Seq::<Seq<char>>::empty(),
    {
        let g = DeviceGroup {
            id: fresh_group_id(),
            name: String::from_str(name),
            devices: Vec::new(),
        };
        proof {
            assert(g@.devices =~= Seq::<Seq<char>>::empty());
        }
        g
    }

    /// The group's opaque identity.
    pub fn id(&self) -> (r: &str)
        ensures
            r@ == self@.id,
    {
        self.id.as_str()
    }

    /// The group's human-readable label.
    pub fn name(&self) -> (r: &str)
        ensures
            r@ == self@.name,
    {
        self.name.as_str()
    }

    /// The member identifiers, in insertion order.
    pub fn devices(&self) -> (r: &Vec<String>)
        ensures
            r.deep_view() == self@.devices,
    {
        &self.devices
    }

    /// Whether `device_id` is a member of this group.
    pub fn has_device(&self, device_id: &str) -> (r: bool)
        ensures
            r == self@.devices.contains(device_id@),
    {
        let d = String::from_str(device_id);
        let n = self.devices.len();
        let mut i: usize = 0;
        while i < n
            invariant
                i <= n,
                n == self.devices.len(),
                d@ == device_id@,
                forall|k: int| 0 <= k < i ==> self@.devices[k] != device_id@,
            decreases n - i,
        {
            if self.devices[i] == d {
                proof {
                    assert(self@.devices[i as int] == device_id@);
                }
                return true;
            }
            i = i + 1;
        }
        false
    }

    /// Appends `device_id` to the members unless it is already one; in that
    /// case reports `DuplicateMember` and leaves the group exactly as it
    /// was, so a repeated add can never corrupt the group.
    pub fn add_device(&mut self, device_id: &str) -> (r: Result<(), GroupError>)
        requires
            old(self).wf(),
        ensures
            final(self).wf(),
            final(self)@.id == old(self)@.id,
            final(self)@.name == old(self)@.name,
            old(self)@.devices.contains(device_id@) ==> r == Err::<(), GroupError>(
                GroupError::DuplicateMember,
            ) && final(self)@ == old(self)@,
            !old(self)@.devices.contains(device_id@) ==> r == Ok::<(), GroupError>(())
                && final(self)@.devices == old(self)@.devices.push(device_id@),
    {
        if self.has_device(device_id) {
            return Err(GroupError::DuplicateMember);
        }
        self.devices.push(String::from_str(device_id));
        proof {
            assert(self@.devices =~= old(self)@.devices.push(device_id@));
        }
        Ok(())
    }

    /// Removes every occurrence of `device_id` (the invariant guarantees
    /// there is at most one), preserving the relative order of the other
    /// members; reports `MemberNotFound` and leaves the group exactly as it
    /// was when `device_id` is not a member.
    pub fn remove_device(&mut self, device_id: &str) -> (r: Result<(), GroupError>)
        requires
            old(self).wf(),
        ensures
            final(self).wf(),
            final(self)@.id == old(self)@.id,
            final(self)@.name == old(self)@.name,
            !old(self)@.devices.contains(device_id@) ==> r == Err::<(), GroupError>(
                GroupError::MemberNotFound,
            ) && final(self)@ == old(self)@,
            old(self)@.devices.contains(device_id@) ==> r == Ok::<(), GroupError>(())
                && final(self)@.devices == without_id(old(self)@.devices, device_id@),
    {
        if !self.has_device(device_id) {
            return Err(GroupError::MemberNotFound);
        }
        let d = String::from_str(device_id);
        let n = self.devices.len();
        let mut kept: Vec<String> = Vec::new();
        let mut i: usize = 0;
        while i < n
            invariant
                i <= n,
                n == self.devices.len(),
                d@ == device_id@,
                kept.deep_view() == without_id(self@.devices.take(i as int), device_id@),
            decreases n - i,
        {
            proof {
                assert(self@.devices.take(i as int + 1) =~= self@.devices.take(
                    i as int,
                ).push(self@.devices[i as int]));
                lemma_without_id_push(
                    self@.devices.take(i as int),
                    self@.devices[i as int],
                    device_id@,
                );
            }
            let ghost kept0 = kept.deep_view();
            if !(self.devices[i] == d) {
                let member = self.devices[i].clone();
                kept.push(member);
                proof {
                    assert(kept.deep_view() =~= kept0.push(self@.devices[i as int]));
                }
            }
            i = i + 1;
        }
        proof {
            assert(self@.devices.take(n as int) =~= self@.devices);
            lemma_without_id_distinct(self@.devices, device_id@);
        }
        self.devices = kept;
        Ok(())
    }
}

/// Appending one identifier extends the survivors of a removal by that
/// identifier exactly when it is not the one removed.
proof fn lemma_without_id_push(s: Seq<Seq<char>>, x: Seq<char>, d: Seq<char>)
    ensures
        x == d ==> without_id(s.push(x), d) == without_id(s, d),
        x != d ==> without_id(s.push(x), d) == without_id(s, d).push(x),
{
    reveal(Seq::filter);
    assert(s.push(x).drop_last() =~= s);
    assert(s.push(x).last() == x);
}

/// Every survivor of a removal is a member of the original sequence and
/// differs from the removed identifier.
proof fn lemma_without_id_members(s: Seq<Seq<char>>, d: Seq<char>)
    ensures
        forall|i: int|
            0 <= i < without_id(s, d).len() ==> s.contains(#[trigger] without_id(s, d)[i])
                && without_id(s, d)[i] != d,
    decreases s.len(),
{
    reveal(Seq::filter);
    if s.len() > 0 {
        let sub = s.drop_last();
        lemma_without_id_members(sub, d);
        let f = without_id(s, d);
        let fsub = without_id(sub, d);
        assert forall|i: int|
            0 <= i < f.len() implies s.contains(#[trigger] f[i]) && f[i] != d by {
            if i < fsub.len() {
                assert(f[i] == fsub[i]);
                let k = choose|k: int| 0 <= k < sub.len() && sub[k] == fsub[i];
                assert(s[k] == f[i]);
            } else {
                assert(f[i] == s.last());
                assert(s[s.len() - 1] == f[i]);
            }
        }
    }
}

/// Removing an identifier never introduces a duplicate: the survivors of a
/// removal from a duplicate-free sequence are themselves duplicate-free.
pub proof fn lemma_without_id_distinct(s: Seq<Seq<char>>, d: Seq<char>)
    requires
        distinct_ids(s),
    ensures
        distinct_ids(without_id(s, d)),
    decreases s.len(),
{
    reveal(Seq::filter);
    if s.len() > 0 {
        let sub = s.drop_last();
        assert(distinct_ids(sub));
        lemma_without_id_distinct(sub, d);
        lemma_without_id_members(sub, d);
        let f = without_id(s, d);
        let fsub = without_id(sub, d);
        if s.last() != d {
            assert(f == fsub.push(s.last()));
            assert forall|i: int, j: int| 0 <= i < j < f.len() implies f[i] != f[j] by {
                if j < fsub.len() {
                    assert(fsub[i] != fsub[j]);
                } else {
                    assert(f[j] == s.last());
                    assert(f[i] == fsub[i]);
                    let k = choose|k: int| 0 <= k < sub.len() && sub[k] == fsub[i];
                    assert(s[k] == f[i]);
                    assert(s[k] != s[s.len() - 1]);
                }
            }
        }
    }
}

/// A member of a duplicate-free sequence occurs in it exactly once, and a
/// non-member occurs zero times.
proof fn lemma_occurrences_of_distinct(s: Seq<Seq<char>>, d: Seq<char>)
    requires
        distinct_ids(s),
    ensures
        s.contains(d) ==> occurrences(s, d) == 1,
        !s.contains(d) ==> occurrences(s, d) == 0,
    decreases s.len(),
{
    if s.len() > 0 {
        let sub = s.drop_last();
        assert(distinct_ids(sub));
        lemma_occurrences_of_distinct(sub, d);
        if s.last() == d {
            assert(!sub.contains(d)) by {
                if sub.contains(d) {
                    let k = choose|k: int| 0 <= k < sub.len() && sub[k] == d;
                    assert(s[k] == s[s.len() - 1]);
                }
            }
            assert(s[s.len() - 1] == d);
            assert(s.contains(d));
        } else {
            if s.contains(d) {
                let k = choose|k: int| 0 <= k < s.len() && s[k] == d;
                assert(sub[k] == d);
                assert(sub.contains(d));
            }
            if sub.contains(d) {
                let k = choose|k: int| 0 <= k < sub.len() && sub[k] == d;
                assert(s[k] == d);
                assert(s.contains(d));
            }
        }
    }
}

/// A member of a well-formed group occurs exactly once in its device
/// sequence: in particular, right after a successful `add_device(d)` the
/// group holds exactly one occurrence of `d`.
pub proof fn lemma_member_occurs_once(g: DeviceGroup, d: Seq<char>)
    requires
        g.wf(),
        g@.devices.contains(d),
    ensures
        occurrences(g@.devices, d) == 1,
{
    lemma_occurrences_of_distinct(g@.devices, d);
}

/// Everything not equal to a missing identifier is everything: removing an
/// identifier that never occurs keeps the whole sequence.
proof fn lemma_without_id_absent(s: Seq<Seq<char>>, d: Seq<char>)
    requires
        forall|i: int| 0 <= i < s.len() ==> s[i] != d,
    ensures
        without_id(s, d) == s,
    decreases s.len(),
{
    reveal(Seq::filter);
    if s.len() == 0 {
        assert(without_id(s, d) =~= s);
    } else {
        let sub = s.drop_last();
        lemma_without_id_absent(sub, d);
        assert(without_id(s, d) == sub.push(s.last()));
        assert(sub.push(s.last()) =~= s);
    }
}

/// Round trip: appending a fresh identifier and then removing it restores
/// the device sequence exactly — `add_device(d)` followed by
/// `remove_device(d)` on a group without `d` gives back the original
/// members in their original order.
pub proof fn lemma_add_then_remove_round_trip(s: Seq<Seq<char>>, d: Seq<char>)
    requires
        !s.contains(d),
    ensures
        without_id(s.push(d), d) == s,
{
    assert forall|i: int| 0 <= i < s.len() implies s[i] != d by {
        if s[i] == d {
            assert(s.contains(d));
        }
    }
    lemma_without_id_push(s, d, d);
    lemma_without_id_absent(s, d);
}

} // verus!
