//! Key-press delta tracking: convert repeated absolute samples of the keys
//! currently held down into the set of keys that were newly pressed since
//! the previous sample.

use vstd::prelude::*;

verus! {

/// The set of key names that a vector of key-name strings denotes.
pub open spec fn key_set(v: Seq<String>) -> Set<Seq<char>> {
    Set::new(|k: Seq<char>| exists|i: int| 0 <= i < v.len() && (#[trigger] v[i])@ == k)
}

/// No key name occurs twice in the vector.
pub open spec fn distinct_keys(v: Seq<String>) -> bool {
    forall|i: int, j: int| 0 <= i < j < v.len() ==> (#[trigger] v[i])@ != (#[trigger] v[j])@
}

/// The keys one poll reports: those present in the current sample but
/// absent from the previous snapshot.
pub open spec fn newly_pressed(sample: Set<Seq<char>>, prev: Set<Seq<char>>) -> Set<Seq<char>> {
    sample.difference(prev)
}

/// Appending one name to a vector adds exactly its view to the key set.
proof fn lemma_key_set_push(v: Seq<String>, s: String)
    ensures
        key_set(v.push(s)) == key_set(v).insert(s@),
{
    assert forall|k: Seq<char>| key_set(v.push(s)).contains(k) implies key_set(v).insert(
        s@,
    ).contains(k) by {
        let i = choose|i: int| 0 <= i < v.push(s).len() && v.push(s)[i]@ == k;
        if i < v.len() {
            assert(v[i]@ == k);
        }
    }
    assert forall|k: Seq<char>| key_set(v).insert(s@).contains(k) implies key_set(
        v.push(s),
    ).contains(k) by {
        if k == s@ {
            assert(v.push(s)[v.len() as int]@ == k);
        } else {
            let i = choose|i: int| 0 <= i < v.len() && v[i]@ == k;
            assert(v.push(s)[i]@ == k);
        }
    }
    assert(key_set(v.push(s)) =~= key_set(v).insert(s@));
}

/// The snapshot of keys observed as pressed at the most recent poll.
pub struct KeyTracker {
    pressed: Vec<String>,
}

impl View for KeyTracker {
    type V = Set<Seq<char>>;

    closed spec fn view(&self) -> Set<Seq<char>> {
        key_set(self.pressed@)
    }
}

impl KeyTracker {
    /// A fresh tracker: no key has been observed yet.
    pub fn new() -> (t: KeyTracker)
        ensures
            t@ == Set::<Seq<char>>::empty(),
    {
        let t = KeyTracker { pressed: Vec::new() };
        proof {
            assert(t@ =~= Set::<Seq<char>>::empty());
        }
        t
    }

    /// One poll against a sample of the keys currently held down: reports
    /// each key of the sample that the previous snapshot lacked, exactly
    /// once, and replaces the snapshot wholesale with the sample.
    pub fn poll(&mut self, sample: &Vec<String>) -> (delta: Vec<String>)
        ensures
            final(self)@ == key_set(sample@),
            key_set(delta@) == newly_pressed(key_set(sample@), old(self)@),
            distinct_keys(delta@),
    {
        let prev_set: Ghost<Set<Seq<char>>> = Ghost(self@);
        let mut next: Vec<String> = Vec::new();
        let mut delta: Vec<String> = Vec::new();
        let mut i: usize = 0;
        while i < sample.len()
            invariant
                0 <= i <= sample@.len(),
                self.pressed == old(self).pressed,
                prev_set@ == key_set(self.pressed@),
                key_set(next@) == key_set(sample@.take(i as int)),
                key_set(delta@) == key_set(next@).difference(prev_set@),
                distinct_keys(delta@),
            decreases sample@.len() - i,
        {
            let k = &sample[i];
            proof {
                assert(sample@.take(i + 1) =~= sample@.take(i as int).push(sample@[i as int]));
                lemma_key_set_push(sample@.take(i as int), sample@[i as int]);
            }
            if !contains_key(&next, k) {
                proof {
                    lemma_key_set_push(next@, *k);
                }
                let ghost next0 = next@;
                next.push(k.clone());
                assert(key_set(next@) =~= key_set(sample@.take(i + 1)));
                if !contains_key(&self.pressed, k) {
                    proof {
                        lemma_key_set_push(delta@, *k);
                        assert forall|j: int| 0 <= j < delta@.len() implies delta@[j]@ != k@ by {
                            assert(key_set(delta@).contains(delta@[j]@));
                        }
                    }
                    delta.push(k.clone());
                    assert(key_set(delta@) =~= key_set(next@).difference(prev_set@));
                } else {
                    assert(key_set(delta@) =~= key_set(next@).difference(prev_set@));
                }
            } else {
                assert(key_set(sample@.take(i + 1)) =~= key_set(sample@.take(i as int)));
            }
            i = i + 1;
        }
        proof {
            assert(sample@.take(sample@.len() as int) =~= sample@);
        }
        self.pressed = next;
        delta
    }
}

/// Whether the vector holds a name whose view is that of the given key.
fn contains_key(v: &Vec<String>, k: &String) -> (b: bool)
    ensures
        b == key_set(v@).contains(k@),
{
    let mut i: usize = 0;
    while i < v.len()
        invariant
            0 <= i <= v@.len(),
            forall|j: int| 0 <= j < i ==> (#[trigger] v@[j])@ != k@,
        decreases v@.len() - i,
    {
        if v[i] == *k {
            assert(v@[i as int]@ == k@);
            return true;
        }
        i = i + 1;
    }
    false
}

/// A poll whose sample matches the previous snapshot reports nothing.
pub proof fn lemma_unchanged_sample_reports_nothing(s: Set<Seq<char>>)
    ensures
        newly_pressed(s, s) == Set::<Seq<char>>::empty(),
{
    assert(newly_pressed(s, s) =~= Set::<Seq<char>>::empty());
}

/// On a first poll, whose previous snapshot is empty, every sampled key is
/// reported as newly pressed.
pub proof fn lemma_first_poll_reports_sample(s: Set<Seq<char>>)
    ensures
        newly_pressed(s, Set::<Seq<char>>::empty()) == s,
{
    assert(newly_pressed(s, Set::<Seq<char>>::empty()) =~= s);
}

/// The tracker never invents keys: whatever the previous snapshot was,
/// every reported key comes from the current sample.
pub proof fn lemma_reported_keys_come_from_sample(s: Set<Seq<char>>, prev: Set<Seq<char>>)
    ensures
        newly_pressed(s, prev).subset_of(s),
{
}

#[verifier::external_type_specification]
#[verifier::external_body]
pub struct ExDeviceState(device_query::DeviceState);

/// Relies on device_query's DeviceState::get_keys: it samples, at one
/// instant, the keys the operating system reports as currently held down.
/// The sample depends on the machine's live input state, so nothing is
/// promised of its contents; each keycode is rendered through its Debug
/// form, the crate's symbolic name for the key.
#[verifier::external_body]
fn pressed_key_names(source: &device_query::DeviceState) -> (names: Vec<String>) {
    device_query::DeviceQuery::get_keys(source).into_iter().map(|k| format!("{:?}", k)).collect()
}

/// Sample the keys currently held down and report those that were absent
/// from the tracker's previous snapshot; the snapshot becomes the sample.
pub fn poll_new_key_presses(source: &device_query::DeviceState, tracker: &mut KeyTracker) -> (delta:
    Vec<String>)
    ensures
        key_set(delta@) == newly_pressed(final(tracker)@, old(tracker)@),
        distinct_keys(delta@),
{
    let sample = pressed_key_names(source);
    tracker.poll(&sample)
}

} // verus!
