use vstd::prelude::*;
use vstd::string::*;

use crate::db::models::NewChannel;

verus! {

/// The configuration service's answer: the set of channels to log.
pub struct ConfigResponse {
    pub channels: Vec<String>,
}

/// Whether no two strings of `names` are equal.
pub open spec fn distinct_names(names: Seq<String>) -> bool {
    forall|i: int, j: int|
        0 <= i < names.len() && 0 <= j < names.len() && i != j ==> names[i]@ != names[j]@
}

/// The text of each string of `names`.
pub open spec fn texts(names: Seq<String>) -> Seq<Seq<char>> {
    names.map_values(|s: String| s@)
}

/// The names of `names` with each text kept once, at its first occurrence.
pub open spec fn first_occurrences(names: Seq<String>) -> Seq<String>
    decreases names.len(),
{
    if names.len() == 0 {
        Seq::empty()
    } else {
        let kept = first_occurrences(names.drop_last());
        if texts(kept).contains(names.last()@) {
            kept
        } else {
            kept.push(names.last())
        }
    }
}

/// Keeping first occurrences drops only repeats: no two kept names have the
/// same text, every name's text is kept, and every kept name is one of the
/// given names.
pub proof fn law_first_occurrences(names: Seq<String>)
    ensures
        forall|i: int, j: int|
            0 <= i < first_occurrences(names).len() && 0 <= j < first_occurrences(names).len()
                && i != j ==> #[trigger] first_occurrences(names)[i]@ != #[trigger] first_occurrences(
                names,
            )[j]@,
        forall|k: int|
            0 <= k < names.len() ==> exists|i: int|
                0 <= i < first_occurrences(names).len() && #[trigger] first_occurrences(names)[i]@
                    == #[trigger] names[k]@,
        forall|i: int|
            0 <= i < first_occurrences(names).len() ==> exists|k: int|
                0 <= k < names.len() && #[trigger] names[k] == #[trigger] first_occurrences(names)[i],
    decreases names.len(),
{
    if names.len() > 0 {
        let prefix = names.drop_last();
        law_first_occurrences(prefix);
        let kept = first_occurrences(prefix);
        let last = names.last();
        let r = first_occurrences(names);
        if texts(kept).contains(last@) {
            assert(r == kept);
            let p = choose|p: int| 0 <= p < texts(kept).len() && texts(kept)[p] == last@;
            assert forall|k: int| 0 <= k < names.len() implies exists|i: int|
                0 <= i < r.len() && #[trigger] r[i]@ == #[trigger] names[k]@ by {
                if k < names.len() - 1 {
                    assert(names[k] == prefix[k]);
                } else {
                    assert(r[p]@ == names[k]@);
                }
            }
            assert forall|i: int| 0 <= i < r.len() implies exists|k: int|
                0 <= k < names.len() && #[trigger] names[k] == #[trigger] r[i] by {
                let k = choose|k: int| 0 <= k < prefix.len() && #[trigger] prefix[k] == kept[i];
                assert(names[k] == prefix[k]);
            }
        } else {
            assert(r == kept.push(last));
            assert forall|i: int, j: int|
                0 <= i < r.len() && 0 <= j < r.len() && i != j implies #[trigger] r[i]@
                != #[trigger] r[j]@ by {
                if i == kept.len() {
                    assert(texts(kept)[j] == kept[j]@);
                } else if j == kept.len() {
                    assert(texts(kept)[i] == kept[i]@);
                }
            }
            assert forall|k: int| 0 <= k < names.len() implies exists|i: int|
                0 <= i < r.len() && #[trigger] r[i]@ == #[trigger] names[k]@ by {
                if k < names.len() - 1 {
                    assert(names[k] == prefix[k]);
                    let i = choose|i: int| 0 <= i < kept.len() && #[trigger] kept[i]@ == #[trigger] prefix[k]@;
                    assert(r[i] == kept[i]);
                } else {
                    assert(r[kept.len() as int] == last);
                }
            }
            assert forall|i: int| 0 <= i < r.len() implies exists|k: int|
                0 <= k < names.len() && #[trigger] names[k] == #[trigger] r[i] by {
                if i < kept.len() {
                    let k = choose|k: int| 0 <= k < prefix.len() && #[trigger] prefix[k] == kept[i];
                    assert(names[k] == prefix[k]);
                } else {
                    assert(names[names.len() - 1] == r[i]);
                }
            }
        }
    }
}

impl ConfigResponse {
    /// A configuration holds each channel once, as a set does.
    pub open spec fn wf(&self) -> bool {
        distinct_names(self.channels@)
    }

    /// The channels of the configuration, as a set of names.
    pub open spec fn channel_set(&self) -> Set<Seq<char>> {
        texts(self.channels@).to_set()
    }

    /// Builds the configuration from a list of channel names, keeping each
    /// name once, where it first occurs.
    pub fn from_names(names: Vec<String>) -> (r: ConfigResponse)
        ensures
            r.channels@ == first_occurrences(names@),
            r.wf(),
            r.channel_set() == texts(names@).to_set(),
    {
        let mut channels: Vec<String> = Vec::new();
        let mut i: usize = 0;
        while i < names.len()
            invariant
                i <= names.len(),
                channels@ == first_occurrences(names@.take(i as int)),
                distinct_names(channels@),
                texts(channels@).to_set() == texts(names@.take(i as int)).to_set(),
            decreases names.len() - i,
        {
            let name = names[i].clone();
            let present = contains_name(&channels, &name);
            let ghost before = channels@;
            assert(names@.take(i as int + 1).drop_last() =~= names@.take(i as int));
            assert(texts(before).contains(name@) == present) by {
                if present {
                    let k = choose|k: int| 0 <= k < before.len() && before[k]@ == name@;
                    assert(texts(before)[k] == name@);
                }
            }
            assert(texts(names@.take(i as int + 1)) =~= texts(names@.take(i as int)).push(
                names@[i as int]@,
            ));
            if !present {
                channels.push(name);
                assert(texts(channels@) =~= texts(before).push(name@));
            }
            proof {
                lemma_push_to_set(texts(names@.take(i as int)), names@[i as int]@);
                lemma_push_to_set(texts(before), name@);
                if present {
                    let k = choose|k: int| 0 <= k < before.len() && before[k]@ == name@;
                    assert(texts(before)[k] == name@);
                    assert(texts(before).to_set().contains(name@));
                    assert(texts(before).to_set().insert(name@) =~= texts(before).to_set());
                }
            }
            i = i + 1;
        }
        assert(names@.take(names.len() as int) =~= names@);
        ConfigResponse { channels }
    }

    /// The channels that the configuration asks for, as rows to store: each
    /// name in order, marked as actively logged.
    pub fn channels_to_register(&self) -> (r: Vec<NewChannel>)
        ensures
            r@.len() == self.channels@.len(),
            forall|i: int|
                0 <= i < r@.len() ==> r@[i].channel_name == self.channels@[i]
                    && r@[i].actively_logged,
    {
        let mut r: Vec<NewChannel> = Vec::new();
        let mut i: usize = 0;
        while i < self.channels.len()
            invariant
                i <= self.channels@.len(),
                r@.len() == i,
                forall|j: int|
                    0 <= j < i ==> r@[j].channel_name == self.channels@[j]
                        && r@[j].actively_logged,
            decreases self.channels@.len() - i,
        {
            r.push(NewChannel { channel_name: self.channels[i].clone(), actively_logged: true });
            i = i + 1;
        }
        r
    }
}

/// Whether some string of `names` has the text of `name`.
fn contains_name(names: &Vec<String>, name: &String) -> (r: bool)
    ensures
        r <==> exists|k: int| 0 <= k < names@.len() && names@[k]@ == name@,
{
    let mut i: usize = 0;
    while i < names.len()
        invariant
            i <= names@.len(),
            forall|k: int| 0 <= k < i ==> names@[k]@ != name@,
        decreases names@.len() - i,
    {
        if names[i] == *name {
            return true;
        }
        i = i + 1;
    }
    false
}

/// Pushing onto a sequence inserts into its set of elements.
proof fn lemma_push_to_set<A>(s: Seq<A>, a: A)
    ensures
        s.push(a).to_set() == s.to_set().insert(a),
{
    assert forall|x: A| s.push(a).to_set().contains(x) <==> s.to_set().insert(a).contains(x) by {
        if s.push(a).to_set().contains(x) {
            let k = choose|k: int| 0 <= k < s.push(a).len() && s.push(a)[k] == x;
            if k < s.len() {
                assert(s[k] == x);
            }
        }
        if s.to_set().contains(x) {
            let k = choose|k: int| 0 <= k < s.len() && s[k] == x;
            assert(s.push(a)[k] == x);
        }
        if x == a {
            assert(s.push(a)[s.len() as int] == a);
        }
    }
    assert(s.push(a).to_set() =~= s.to_set().insert(a));
}

/// The address of the configuration endpoint under the service's base
/// address.
pub fn config_endpoint(base: String) -> (r: String)
    ensures
        r@ == base@ + "api/v1/config"@,
{
    base.concat("api/v1/config")
}

} // verus!
