//! What a connection may read and write.

use vstd::prelude::*;
use vstd::std_specs::cmp::PartialEqSpec;

verus! {

/// Something that can be read from Wave Link.
#[derive(Clone, Copy, Debug, PartialEq, Eq, PartialOrd, Ord, Structural)]
#[non_exhaustive]
pub enum ReadCapability {
    Application,
    Channels,
    Mixes,
    InputDevices,
    OutputDevices,
    Notifications,
}

/// Something that can be changed in Wave Link.
#[derive(Clone, Copy, Debug, PartialEq, Eq, PartialOrd, Ord, Structural)]
#[non_exhaustive]
pub enum WriteCapability {
    Volume,
    Mute,
    PerMixState,
    Routing,
}

/// The capabilities of a connection: a set of reads and a set of writes.
#[derive(Debug)]
pub struct Capabilities {
    reads: Vec<ReadCapability>,
    writes: Vec<WriteCapability>,
}

/// Decides whether a list of reads holds a capability.
fn lists_read(list: &Vec<ReadCapability>, capability: ReadCapability) -> (r: bool)
    ensures
        r == list@.contains(capability),
{
    for i in 0..list.len()
        invariant
            forall|j: int| 0 <= j < i ==> list@[j] != capability,
    {
        if list[i] == capability {
            assert(list@[i as int] == capability);
            return true;
        }
    }
    false
}

/// Decides whether a list of writes holds a capability.
fn lists_write(list: &Vec<WriteCapability>, capability: WriteCapability) -> (r: bool)
    ensures
        r == list@.contains(capability),
{
    for i in 0..list.len()
        invariant
            forall|j: int| 0 <= j < i ==> list@[j] != capability,
    {
        if list[i] == capability {
            assert(list@[i as int] == capability);
            return true;
        }
    }
    false
}

/// Adds a read to the list if the other list holds it.
fn keep_read(kept: &mut Vec<ReadCapability>, list: &Vec<ReadCapability>, capability: ReadCapability)
    ensures
        final(kept)@.to_set() == (if list@.contains(capability) {
            old(kept)@.to_set().insert(capability)
        } else {
            old(kept)@.to_set()
        }),
{
    if lists_read(list, capability) {
        let ghost before = kept@;
        kept.push(capability);
        assert forall|other: ReadCapability|
            kept@.contains(other) == (before.contains(other) || other == capability) by {
            if before.contains(other) {
                let i = choose|i: int| 0 <= i < before.len() && before[i] == other;
                assert(kept@[i] == other);
            }
            assert(kept@[before.len() as int] == capability);
        }
        assert(kept@.to_set() =~= before.to_set().insert(capability));
    }
}

/// Adds a write to the list if the other list holds it.
fn keep_write(
    kept: &mut Vec<WriteCapability>,
    list: &Vec<WriteCapability>,
    capability: WriteCapability,
)
    ensures
        final(kept)@.to_set() == (if list@.contains(capability) {
            old(kept)@.to_set().insert(capability)
        } else {
            old(kept)@.to_set()
        }),
{
    if lists_write(list, capability) {
        let ghost before = kept@;
        kept.push(capability);
        assert forall|other: WriteCapability|
            kept@.contains(other) == (before.contains(other) || other == capability) by {
            if before.contains(other) {
                let i = choose|i: int| 0 <= i < before.len() && before[i] == other;
                assert(kept@[i] == other);
            }
            assert(kept@[before.len() as int] == capability);
        }
        assert(kept@.to_set() =~= before.to_set().insert(capability));
    }
}

/// Decides whether every read of the first list is in the second.
fn reads_within(inner: &Vec<ReadCapability>, outer: &Vec<ReadCapability>) -> (r: bool)
    ensures
        r == inner@.to_set().subset_of(outer@.to_set()),
{
    for i in 0..inner.len()
        invariant
            forall|j: int| 0 <= j < i ==> outer@.contains(#[trigger] inner@[j]),
    {
        if !lists_read(outer, inner[i]) {
            assert(inner@.to_set().contains(inner@[i as int]));
            return false;
        }
    }
    true
}

/// Copies a list of reads.
fn copy_reads(list: &Vec<ReadCapability>) -> (r: Vec<ReadCapability>)
    ensures
        r@ == list@,
{
    let mut copy: Vec<ReadCapability> = Vec::new();
    for i in 0..list.len()
        invariant
            copy@ == list@.take(i as int),
    {
        copy.push(list[i]);
        assert(list@.take(i + 1) =~= list@.take(i as int).push(list@[i as int]));
    }
    assert(list@.take(list@.len() as int) =~= list@);
    copy
}

/// Decides whether every write of the first list is in the second.
fn writes_within(inner: &Vec<WriteCapability>, outer: &Vec<WriteCapability>) -> (r: bool)
    ensures
        r == inner@.to_set().subset_of(outer@.to_set()),
{
    for i in 0..inner.len()
        invariant
            forall|j: int| 0 <= j < i ==> outer@.contains(#[trigger] inner@[j]),
    {
        if !lists_write(outer, inner[i]) {
            assert(inner@.to_set().contains(inner@[i as int]));
            return false;
        }
    }
    true
}

/// Copies a list of writes.
fn copy_writes(list: &Vec<WriteCapability>) -> (r: Vec<WriteCapability>)
    ensures
        r@ == list@,
{
    let mut copy: Vec<WriteCapability> = Vec::new();
    for i in 0..list.len()
        invariant
            copy@ == list@.take(i as int),
    {
        copy.push(list[i]);
        assert(list@.take(i + 1) =~= list@.take(i as int).push(list@[i as int]));
    }
    assert(list@.take(list@.len() as int) =~= list@);
    copy
}

impl Capabilities {
    /// What may be read.
    pub closed spec fn reads(self) -> Set<ReadCapability> {
        self.reads@.to_set()
    }

    /// What may be written.
    pub closed spec fn writes(self) -> Set<WriteCapability> {
        self.writes@.to_set()
    }

    #[must_use]
    pub fn new(reads: Vec<ReadCapability>, writes: Vec<WriteCapability>) -> (r: Self)
        ensures
            r.reads() == reads@.to_set(),
            r.writes() == writes@.to_set(),
    {
        let mut kept_reads: Vec<ReadCapability> = Vec::new();
        keep_read(&mut kept_reads, &reads, ReadCapability::Application);
        keep_read(&mut kept_reads, &reads, ReadCapability::Channels);
        keep_read(&mut kept_reads, &reads, ReadCapability::Mixes);
        keep_read(&mut kept_reads, &reads, ReadCapability::InputDevices);
        keep_read(&mut kept_reads, &reads, ReadCapability::OutputDevices);
        keep_read(&mut kept_reads, &reads, ReadCapability::Notifications);
        let mut kept_writes: Vec<WriteCapability> = Vec::new();
        keep_write(&mut kept_writes, &writes, WriteCapability::Volume);
        keep_write(&mut kept_writes, &writes, WriteCapability::Mute);
        keep_write(&mut kept_writes, &writes, WriteCapability::PerMixState);
        keep_write(&mut kept_writes, &writes, WriteCapability::Routing);
        assert forall|c: ReadCapability|
            kept_reads@.to_set().contains(c) == reads@.to_set().contains(c) by {
            match c {
                ReadCapability::Application => {},
                ReadCapability::Channels => {},
                ReadCapability::Mixes => {},
                ReadCapability::InputDevices => {},
                ReadCapability::OutputDevices => {},
                ReadCapability::Notifications => {},
            }
        }
        assert(kept_reads@.to_set() =~= reads@.to_set());
        assert forall|c: WriteCapability|
            kept_writes@.to_set().contains(c) == writes@.to_set().contains(c) by {
            match c {
                WriteCapability::Volume => {},
                WriteCapability::Mute => {},
                WriteCapability::PerMixState => {},
                WriteCapability::Routing => {},
            }
        }
        assert(kept_writes@.to_set() =~= writes@.to_set());
        Capabilities { reads: kept_reads, writes: kept_writes }
    }

    #[must_use]
    pub fn can_read(&self, capability: ReadCapability) -> (r: bool)
        ensures
            r == self.reads().contains(capability),
    {
        lists_read(&self.reads, capability)
    }

    #[must_use]
    pub fn can_write(&self, capability: WriteCapability) -> (r: bool)
        ensures
            r == self.writes().contains(capability),
    {
        lists_write(&self.writes, capability)
    }
}

impl Default for Capabilities {
    fn default() -> (r: Self)
        ensures
            r.reads() == Set::<ReadCapability>::empty(),
            r.writes() == Set::<WriteCapability>::empty(),
    {
        let none = Capabilities { reads: Vec::new(), writes: Vec::new() };
        assert(none.reads() =~= Set::<ReadCapability>::empty());
        assert(none.writes() =~= Set::<WriteCapability>::empty());
        none
    }
}

impl Clone for Capabilities {
    fn clone(&self) -> (r: Self)
        ensures
            r.reads() == self.reads(),
            r.writes() == self.writes(),
    {
        Capabilities { reads: copy_reads(&self.reads), writes: copy_writes(&self.writes) }
    }
}

impl PartialEq for Capabilities {
    fn eq(&self, other: &Self) -> (r: bool) {
        let same = reads_within(&self.reads, &other.reads) && reads_within(
            &other.reads,
            &self.reads,
        ) && writes_within(&self.writes, &other.writes) && writes_within(
            &other.writes,
            &self.writes,
        );
        assert(same ==> self.reads() =~= other.reads() && self.writes() =~= other.writes());
        same
    }
}

impl vstd::std_specs::cmp::PartialEqSpecImpl for Capabilities {
    open spec fn obeys_eq_spec() -> bool {
        true
    }

    open spec fn eq_spec(&self, other: &Self) -> bool {
        self.reads() == other.reads() && self.writes() == other.writes()
    }
}

impl Eq for Capabilities {

}

/// Two capabilities are equal exactly when the same may be read and the same may be
/// written with both.
pub proof fn law_capabilities_equal_as_sets(a: Capabilities, b: Capabilities)
    ensures
        Capabilities::obeys_eq_spec(),
        a.eq_spec(&b) <==> (forall|capability: ReadCapability| #[trigger]
            a.reads().contains(capability) == b.reads().contains(capability)) && (forall|
            capability: WriteCapability,
        | #[trigger]
            a.writes().contains(capability) == b.writes().contains(capability)),
{
    if (forall|capability: ReadCapability| #[trigger]
        a.reads().contains(capability) == b.reads().contains(capability)) && (forall|
        capability: WriteCapability,
    | #[trigger]
        a.writes().contains(capability) == b.writes().contains(capability)) {
        assert(a.reads() =~= b.reads());
        assert(a.writes() =~= b.writes());
    }
}

} // verus!
