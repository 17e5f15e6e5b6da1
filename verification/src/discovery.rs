//! Finding snapshots among the volumes that the container runtime lists,
//! and the checks that come before a volume is made or dropped.

use vstd::prelude::*;
use crate::error::{Error, ErrorView};
use crate::naming::{
    is_snapshot_volume,
    lemma_round_trip,
    recognises,
    snapshot_name,
    strip,
    volume_name,
    SNAPSHOT_PREFIX,
};
use crate::text::{chars_of, owned, same_chars, string_of};

verus! {

/// Whether a volume name is a snapshot's.
pub open spec fn is_snapshot(prefix: Seq<char>) -> spec_fn(Seq<char>) -> bool {
    |v: Seq<char>| is_snapshot_volume(prefix, v)
}

/// Whether a volume name is that of a snapshot called `name`.
pub open spec fn holds_snapshot(prefix: Seq<char>, name: Seq<char>) -> spec_fn(Seq<char>) -> bool {
    |v: Seq<char>| is_snapshot_volume(prefix, v) && snapshot_name(prefix, v) == name
}

/// The snapshot volumes among `listed`, in the order of the listing.
pub open spec fn snapshot_volumes(prefix: Seq<char>, listed: Seq<Seq<char>>) -> Seq<Seq<char>> {
    listed.filter(is_snapshot(prefix))
}

/// The volumes among `listed` that hold a snapshot called `name`, in the
/// order of the listing.
pub open spec fn volumes_of(prefix: Seq<char>, listed: Seq<Seq<char>>, name: Seq<char>) -> Seq<
    Seq<char>,
> {
    listed.filter(holds_snapshot(prefix, name))
}

/// More than one item where at most one was wanted.
#[derive(Clone, Copy, PartialEq, Eq, Structural, Debug)]
pub struct TooMany;

/// The only item of `items`, or none when there is none; an error when
/// there are several.
pub fn at_most_one<T>(items: Vec<T>) -> (only: Result<Option<T>, TooMany>)
    ensures
        match only {
            Ok(None) => items@.len() == 0,
            Ok(Some(item)) => items@ == seq![item],
            Err(_) => items@.len() >= 2,
        },
{
    let mut items = items;
    if items.len() > 1 {
        return Err(TooMany);
    }
    let last = items.pop();
    Ok(last)
}

/// The names among `listed` that the naming convention gives to snapshot
/// volumes, in the order of the listing.
pub fn find_snapshot_volume_names(listed: &Vec<String>) -> (found: Vec<String>)
    ensures
        found.deep_view() == snapshot_volumes(SNAPSHOT_PREFIX@, listed.deep_view()),
{
    let ghost all = listed.deep_view();
    let ghost wanted = is_snapshot(SNAPSHOT_PREFIX@);
    let mut found: Vec<String> = Vec::new();
    let mut i: usize = 0;
    proof {
        reveal(Seq::filter);
    }
    while i < listed.len()
        invariant
            i <= listed.len(),
            all == listed.deep_view(),
            wanted == is_snapshot(SNAPSHOT_PREFIX@),
            found.deep_view() == all.take(i as int).filter(wanted),
        decreases listed.len() - i,
    {
        proof {
            reveal(Seq::filter);
            assert(all.take(i + 1).drop_last() == all.take(i as int));
        }
        if recognises(SNAPSHOT_PREFIX, listed[i].as_str()) {
            found.push(listed[i].clone());
        }
        i += 1;
    }
    proof {
        assert(all.take(listed.len() as int) == all);
    }
    found
}

/// The names among `listed` of the volumes that hold a snapshot called
/// `snapshot_name`, in the order of the listing.
pub fn find_volumes_of_snapshot(listed: &Vec<String>, snapshot_name: &str) -> (found: Vec<String>)
    ensures
        found.deep_view() == volumes_of(SNAPSHOT_PREFIX@, listed.deep_view(), snapshot_name@),
{
    let ghost all = listed.deep_view();
    let ghost wanted = holds_snapshot(SNAPSHOT_PREFIX@, snapshot_name@);
    let name = chars_of(snapshot_name);
    let mut found: Vec<String> = Vec::new();
    let mut i: usize = 0;
    proof {
        reveal(Seq::filter);
    }
    while i < listed.len()
        invariant
            i <= listed.len(),
            all == listed.deep_view(),
            name@ == snapshot_name@,
            wanted == holds_snapshot(SNAPSHOT_PREFIX@, snapshot_name@),
            found.deep_view() == all.take(i as int).filter(wanted),
        decreases listed.len() - i,
    {
        proof {
            reveal(Seq::filter);
            assert(all.take(i + 1).drop_last() == all.take(i as int));
        }
        if let Some(held) = strip(SNAPSHOT_PREFIX, listed[i].as_str()) {
            if same_chars(&chars_of(held.as_str()), &name) {
                found.push(listed[i].clone());
            }
        }
        i += 1;
    }
    proof {
        assert(all.take(listed.len() as int) == all);
    }
    found
}

/// The volume among `listed` that holds the snapshot called
/// `snapshot_name`, or `None` when none does; an error when several do.
pub fn find_snapshot_volume_name_by_snapshot_name(listed: &Vec<String>, snapshot_name: &str) -> (found:
    Result<Option<String>, Error>)
    ensures
        ({
            let held = volumes_of(SNAPSHOT_PREFIX@, listed.deep_view(), snapshot_name@);
            match found {
                Ok(None) => held.len() == 0,
                Ok(Some(volume)) => held.len() == 1 && volume@ == held[0],
                Err(e) => held.len() >= 2 && e@ == (ErrorView::Ambiguous { snapshot_name: snapshot_name@ }),
            }
        }),
{
    match at_most_one(find_volumes_of_snapshot(listed, snapshot_name)) {
        Ok(only) => Ok(only),
        Err(_) => Err(Error::Ambiguous { snapshot_name: owned(snapshot_name) }),
    }
}

/// What looking a snapshot up by its name gives: its one volume, or the
/// reason why there is none to give.
pub open spec fn resolved(prefix: Seq<char>, listed: Seq<Seq<char>>, name: Seq<char>) -> Result<
    Seq<char>,
    ErrorView,
> {
    let held = volumes_of(prefix, listed, name);
    if held.len() == 0 {
        Err(ErrorView::SnapshotNotFound { snapshot_name: name })
    } else if held.len() == 1 {
        Ok(held[0])
    } else {
        Err(ErrorView::Ambiguous { snapshot_name: name })
    }
}

/// The one volume among `listed` that holds the snapshot called
/// `snapshot_name`. It is an error for none to hold it, and another for
/// several to.
pub fn resolve_by_name(listed: &Vec<String>, snapshot_name: &str) -> (volume: Result<String, Error>)
    ensures
        match volume {
            Ok(v) => resolved(SNAPSHOT_PREFIX@, listed.deep_view(), snapshot_name@) == Ok::<
                Seq<char>,
                ErrorView,
            >(v@),
            Err(e) => resolved(SNAPSHOT_PREFIX@, listed.deep_view(), snapshot_name@) == Err::<
                Seq<char>,
                ErrorView,
            >(e@),
        },
{
    match find_snapshot_volume_name_by_snapshot_name(listed, snapshot_name) {
        Ok(Some(v)) => Ok(v),
        Ok(None) => Err(Error::SnapshotNotFound { snapshot_name: owned(snapshot_name) }),
        Err(e) => Err(e),
    }
}

/// Succeeds when no volume among `listed` holds a snapshot called
/// `snapshot_name`.
pub fn verify_snapshot_does_not_exist(listed: &Vec<String>, snapshot_name: &str) -> (verdict: Result<
    (),
    Error,
>)
    ensures
        ({
            let held = volumes_of(SNAPSHOT_PREFIX@, listed.deep_view(), snapshot_name@);
            match verdict {
                Ok(_) => held.len() == 0,
                Err(e) => if held.len() == 1 {
                    e@ == (ErrorView::AlreadyExists { snapshot_name: snapshot_name@ })
                } else {
                    held.len() >= 2 && e@ == (ErrorView::Ambiguous { snapshot_name: snapshot_name@ })
                },
            }
        }),
{
    match find_snapshot_volume_name_by_snapshot_name(listed, snapshot_name) {
        Ok(Some(_)) => Err(Error::AlreadyExists { snapshot_name: owned(snapshot_name) }),
        Ok(None) => Ok(()),
        Err(e) => Err(e),
    }
}

/// Succeeds when the volume is there.
pub fn verify_volume_exists(exists: bool, volume_name: &str) -> (verdict: Result<(), Error>)
    ensures
        match verdict {
            Ok(_) => exists,
            Err(e) => !exists && e@ == (ErrorView::VolumeNotFound { volume_name: volume_name@ }),
        },
{
    if exists {
        Ok(())
    } else {
        Err(Error::VolumeNotFound { volume_name: owned(volume_name) })
    }
}

/// What the container runtime lists of a container that refers to a
/// volume: its names, the first of which counts.
#[derive(Debug)]
pub struct Container {
    pub names: Vec<String>,
}

impl DeepView for Container {
    type V = Seq<Seq<char>>;

    open spec fn deep_view(&self) -> Seq<Seq<char>> {
        self.names.deep_view()
    }
}

/// The name under which a container with these names is told to the
/// user: its first name, without the slash that the runtime puts in
/// front. A container without names has none.
pub open spec fn user_of(names: Seq<Seq<char>>) -> Option<Seq<char>> {
    if names.len() == 0 {
        None
    } else if names[0].len() > 0 && names[0][0] == '/' {
        Some(names[0].skip(1))
    } else {
        Some(names[0])
    }
}

/// [`user_of`] as a value.
pub open spec fn user_label() -> spec_fn(Seq<Seq<char>>) -> Option<Seq<char>> {
    |names: Seq<Seq<char>>| user_of(names)
}

/// The names of the containers that have one, in the order of the
/// listing.
pub open spec fn users_of(containers: Seq<Seq<Seq<char>>>) -> Seq<Seq<char>> {
    containers.filter_map(user_label())
}

fn label(container: &Container) -> (name: Option<String>)
    ensures
        name.deep_view() == user_of(container.deep_view()),
{
    if container.names.len() == 0 {
        return None;
    }
    let first = chars_of(container.names[0].as_str());
    if first.len() > 0 && first[0] == '/' {
        let mut rest: Vec<char> = Vec::new();
        let mut i: usize = 1;
        while i < first.len()
            invariant
                1 <= i <= first.len(),
                rest@ == first@.subrange(1, i as int),
            decreases first.len() - i,
        {
            rest.push(first[i]);
            i += 1;
        }
        Some(string_of(&rest))
    } else {
        Some(string_of(&first))
    }
}

/// Succeeds when no container refers to the volume: `containers` is what
/// the runtime lists as referring to it, running or not. Every such
/// container blocks the volume.
pub fn verify_volume_not_in_use(containers: &Vec<Container>) -> (verdict: Result<(), Error>)
    ensures
        match verdict {
            Ok(_) => containers.len() == 0,
            Err(e) => containers.len() > 0 && e@ == (ErrorView::InUse {
                users: users_of(containers.deep_view()),
            }),
        },
{
    if containers.len() == 0 {
        return Ok(());
    }
    let ghost all = containers.deep_view();
    let mut users: Vec<String> = Vec::new();
    let mut i: usize = 0;
    while i < containers.len()
        invariant
            i <= containers.len(),
            all == containers.deep_view(),
            users.deep_view() == all.take(i as int).filter_map(user_label()),
        decreases containers.len() - i,
    {
        proof {
            assert(all.take(i + 1).drop_last() == all.take(i as int));
        }
        if let Some(name) = label(&containers[i]) {
            users.push(name);
        }
        i += 1;
    }
    proof {
        assert(all.take(containers.len() as int) == all);
    }
    Err(Error::InUse { users })
}

/// How much room a volume takes.
#[derive(Clone, Copy, PartialEq, Eq, Structural, Debug)]
pub enum VolumeSize {
    Bytes(i64),
    Unavailable,
}

/// What the container runtime tells of the room that a volume takes:
/// the volume's name and, where it knows it, the size in bytes.
#[derive(Debug)]
pub struct VolumeUsage {
    pub name: String,
    pub size: Option<i64>,
}

impl DeepView for VolumeUsage {
    type V = (Seq<char>, Option<i64>);

    open spec fn deep_view(&self) -> (Seq<char>, Option<i64>) {
        (self.name@, self.size)
    }
}

/// The size that a report of usage gives.
pub open spec fn size_of(size: Option<i64>) -> VolumeSize {
    match size {
        Some(bytes) => VolumeSize::Bytes(bytes),
        None => VolumeSize::Unavailable,
    }
}

/// The size of the volume `name` according to `usage`: that of the last
/// report that names it, or `None` when no report does.
pub open spec fn size_in(usage: Seq<(Seq<char>, Option<i64>)>, name: Seq<char>) -> Option<VolumeSize>
    decreases usage.len(),
{
    if usage.len() == 0 {
        None
    } else if usage.last().0 == name {
        Some(size_of(usage.last().1))
    } else {
        size_in(usage.drop_last(), name)
    }
}

/// The size of the volume `volume_name` according to `usage`.
pub fn find_volume_size(usage: &Vec<VolumeUsage>, volume_name: &str) -> (size: Option<VolumeSize>)
    ensures
        size == size_in(usage.deep_view(), volume_name@),
{
    let ghost all = usage.deep_view();
    let name = chars_of(volume_name);
    let mut i: usize = usage.len();
    proof {
        assert(all.take(i as int) == all);
    }
    while i > 0
        invariant
            i <= usage.len(),
            all == usage.deep_view(),
            name@ == volume_name@,
            size_in(all, volume_name@) == size_in(all.take(i as int), volume_name@),
        decreases i,
    {
        i -= 1;
        proof {
            assert(all.take(i + 1).drop_last() == all.take(i as int));
        }
        let reported = chars_of(usage[i].name.as_str());
        if same_chars(&reported, &name) {
            return Some(
                match usage[i].size {
                    Some(bytes) => VolumeSize::Bytes(bytes),
                    None => VolumeSize::Unavailable,
                },
            );
        }
    }
    None
}

/// The sizes of the volumes `volume_names` according to `usage`, one for
/// each name and in the order of the names.
pub fn get_volume_sizes_for_volume_names(usage: &Vec<VolumeUsage>, volume_names: &Vec<String>) -> (sizes:
    Vec<Option<VolumeSize>>)
    ensures
        sizes.len() == volume_names.len(),
        forall|i: int|
            0 <= i < sizes.len() ==> sizes[i] == size_in(usage.deep_view(), #[trigger] volume_names[i]@),
{
    let mut sizes: Vec<Option<VolumeSize>> = Vec::new();
    let mut i: usize = 0;
    while i < volume_names.len()
        invariant
            i <= volume_names.len(),
            sizes.len() == i,
            forall|j: int| 0 <= j < i ==> sizes[j] == size_in(usage.deep_view(), #[trigger] volume_names[j]@),
        decreases volume_names.len() - i,
    {
        sizes.push(find_volume_size(usage, volume_names[i].as_str()));
        i += 1;
    }
    sizes
}

/// A listing without the volume named `volume`: what the runtime lists
/// once that volume is dropped.
pub open spec fn without(listed: Seq<Seq<char>>, volume: Seq<char>) -> Seq<Seq<char>> {
    listed.filter(other_than(volume))
}

/// Whether a volume name is another than `volume`.
pub open spec fn other_than(volume: Seq<char>) -> spec_fn(Seq<char>) -> bool {
    |v: Seq<char>| v != volume
}

proof fn lemma_filter_prefix<A>(s: Seq<A>, pred: spec_fn(A) -> bool, k: int)
    requires
        0 <= k <= s.len(),
    ensures
        s.take(k).filter(pred).len() <= s.filter(pred).len(),
    decreases s.len() - k,
{
    reveal(Seq::filter);
    if k < s.len() {
        lemma_filter_prefix(s, pred, k + 1);
        assert(s.take(k + 1).drop_last() == s.take(k));
    } else {
        assert(s.take(k) == s);
    }
}

proof fn lemma_filter_two<A>(s: Seq<A>, pred: spec_fn(A) -> bool, i: int, j: int)
    requires
        0 <= i < j < s.len(),
        pred(s[i]),
        pred(s[j]),
    ensures
        s.filter(pred).len() >= 2,
{
    reveal(Seq::filter);
    let upto_j = s.take(j);
    lemma_filter_prefix(upto_j, pred, i + 1);
    assert(s.take(j + 1).drop_last() == upto_j);
    lemma_filter_prefix(s, pred, j + 1);
}

/// Two volumes for one name are never told apart by choosing. When two
/// of the listed volumes hold a snapshot called `name`, looking it up
/// fails as ambiguous.
pub proof fn lemma_ambiguity(prefix: Seq<char>, listed: Seq<Seq<char>>, name: Seq<char>, i: int, j: int)
    requires
        0 <= i < j < listed.len(),
        is_snapshot_volume(prefix, listed[i]),
        snapshot_name(prefix, listed[i]) == name,
        is_snapshot_volume(prefix, listed[j]),
        snapshot_name(prefix, listed[j]) == name,
    ensures
        resolved(prefix, listed, name) == Err::<Seq<char>, ErrorView>(
            ErrorView::Ambiguous { snapshot_name: name },
        ),
{
    lemma_filter_two(listed, holds_snapshot(prefix, name), i, j);
}

/// A snapshot is found once its volume is made. When no listed volume
/// holds a snapshot called `name`, and the volume named for `name` and a
/// time of ten digits or more joins the listing, looking `name` up gives
/// exactly that volume.
pub proof fn lemma_created_is_found(prefix: Seq<char>, listed: Seq<Seq<char>>, timestamp: int, name: Seq<char>)
    requires
        timestamp >= 1_000_000_000,
        volumes_of(prefix, listed, name).len() == 0,
    ensures
        resolved(prefix, listed.push(volume_name(prefix, timestamp, name)), name) == Ok::<
            Seq<char>,
            ErrorView,
        >(volume_name(prefix, timestamp, name)),
{
    reveal(Seq::filter);
    lemma_round_trip(prefix, timestamp, name);
    let after = listed.push(volume_name(prefix, timestamp, name));
    assert(after.drop_last() == listed);
}

/// A snapshot is gone once its volume is dropped. When looking `name` up
/// gives the volume `volume`, and that volume leaves the listing, looking
/// `name` up finds nothing.
pub proof fn lemma_dropped_is_not_found(prefix: Seq<char>, listed: Seq<Seq<char>>, volume: Seq<char>, name: Seq<char>)
    requires
        resolved(prefix, listed, name) == Ok::<Seq<char>, ErrorView>(volume),
    ensures
        resolved(prefix, without(listed, volume), name) == Err::<Seq<char>, ErrorView>(
            ErrorView::SnapshotNotFound { snapshot_name: name },
        ),
{
    let wanted = holds_snapshot(prefix, name);
    let others = other_than(volume);
    let left = listed.filter(others);
    let held = left.filter(wanted);
    if held.len() > 0 {
        let e = held[0];
        left.lemma_filter_pred(wanted, 0);
        left.lemma_filter_contains_rev(wanted, e);
        let k = choose|k: int| 0 <= k < left.len() && left[k] == e;
        listed.lemma_filter_pred(others, k);
        listed.lemma_filter_contains_rev(others, e);
        let i = choose|i: int| 0 <= i < listed.len() && listed[i] == e;
        listed.lemma_filter_contains(wanted, i);
        assert(listed.filter(wanted).contains(e));
    }
}

} // verus!
