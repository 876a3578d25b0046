use vstd::prelude::*;
use vstd::string::*;

verus! {

/// What the classification service answers about one chat message: whether
/// it is a weeb message, and how many weeb terms it holds. (The service
/// also sends a confidence, which nothing here reads.)
pub struct WEDResponse {
    pub response_code: i32,
    pub is_weeb: bool,
    pub number_of_weeb_terms: i32,
}

/// Emote codes mapped to emote ids, as the classification request carries
/// them. Each code occurs once.
pub struct EmoteMap {
    entries: Vec<(String, String)>,
}

/// The map that inserting `entries` one by one, from first to last, builds.
pub open spec fn entries_map(entries: Seq<(String, String)>) -> Map<Seq<char>, Seq<char>>
    decreases entries.len(),
{
    if entries.len() == 0 {
        Map::empty()
    } else {
        entries_map(entries.drop_last()).insert(entries.last().0@, entries.last().1@)
    }
}

/// Whether no two entries have the same code.
pub open spec fn distinct_codes(entries: Seq<(String, String)>) -> bool {
    forall|i: int, j: int|
        0 <= i < entries.len() && 0 <= j < entries.len() && i != j ==> entries[i].0@
            != entries[j].0@
}

/// With distinct codes, each entry's code maps to its own id, and nothing
/// else is mapped.
proof fn lemma_entries_map(entries: Seq<(String, String)>)
    requires
        distinct_codes(entries),
    ensures
        forall|i: int|
            0 <= i < entries.len() ==> #[trigger] entries_map(entries).contains_key(entries[i].0@)
                && entries_map(entries)[entries[i].0@] == entries[i].1@,
        forall|k: Seq<char>|
            #[trigger] entries_map(entries).contains_key(k) ==> exists|i: int|
                0 <= i < entries.len() && entries[i].0@ == k,
    decreases entries.len(),
{
    if entries.len() > 0 {
        let prefix = entries.drop_last();
        assert(distinct_codes(prefix));
        lemma_entries_map(prefix);
        assert forall|k: Seq<char>| #[trigger]
            entries_map(entries).contains_key(k) implies exists|i: int|
            0 <= i < entries.len() && entries[i].0@ == k by {
            if k != entries.last().0@ {
                assert(entries_map(prefix).contains_key(k));
                let i = choose|i: int| 0 <= i < prefix.len() && prefix[i].0@ == k;
                assert(entries[i].0@ == k);
            } else {
                assert(entries[entries.len() - 1].0@ == k);
            }
        }
        assert forall|i: int| 0 <= i < entries.len() implies #[trigger] entries_map(
            entries,
        ).contains_key(entries[i].0@) && entries_map(entries)[entries[i].0@] == entries[i].1@ by {
            if i < entries.len() - 1 {
                assert(prefix[i] == entries[i]);
                assert(entries_map(prefix).contains_key(prefix[i].0@));
                assert(entries[i].0@ != entries[entries.len() - 1].0@);
            }
        }
    }
}

impl View for EmoteMap {
    type V = Map<Seq<char>, Seq<char>>;

    closed spec fn view(&self) -> Map<Seq<char>, Seq<char>> {
        entries_map(self.entries@)
    }
}

impl EmoteMap {
    #[verifier::type_invariant]
    spec fn inv(self) -> bool {
        distinct_codes(self.entries@)
    }

    /// An empty map.
    pub fn new() -> (r: EmoteMap)
        ensures
            r@ == Map::<Seq<char>, Seq<char>>::empty(),
    {
        EmoteMap { entries: Vec::new() }
    }

    /// The position of the entry with the code `code`, if there is one.
    fn find(&self, code: &String) -> (r: Option<usize>)
        ensures
            r matches Some(i) ==> i < self.entries@.len() && self.entries@[i as int].0@ == code@,
            r is None ==> forall|i: int|
                0 <= i < self.entries@.len() ==> self.entries@[i].0@ != code@,
    {
        let mut i: usize = 0;
        while i < self.entries.len()
            invariant
                i <= self.entries@.len(),
                forall|k: int| 0 <= k < i ==> self.entries@[k].0@ != code@,
            decreases self.entries@.len() - i,
        {
            if self.entries[i].0 == *code {
                return Some(i);
            }
            i = i + 1;
        }
        None
    }

    /// The id that `code` maps to, if any.
    pub fn get(&self, code: &String) -> (r: Option<&String>)
        ensures
            r is Some <==> self@.contains_key(code@),
            r matches Some(id) ==> id@ == self@[code@],
    {
        proof {
            use_type_invariant(self);
            lemma_entries_map(self.entries@);
        }
        match self.find(code) {
            Some(i) => {
                proof {
                    assert(entries_map(self.entries@).contains_key(self.entries@[i as int].0@));
                }
                Some(&self.entries[i].1)
            },
            None => None,
        }
    }

    /// Maps `code` to `id`, replacing the id it had; returns the replaced id.
    pub fn insert(&mut self, code: String, id: String) -> (r: Option<String>)
        ensures
            final(self)@ == old(self)@.insert(code@, id@),
            r is Some <==> old(self)@.contains_key(code@),
            r matches Some(old_id) ==> old_id@ == old(self)@[code@],
    {
        proof {
            use_type_invariant(&*self);
            lemma_entries_map(self.entries@);
        }
        let ghost old_entries = self.entries@;
        match self.find(&code) {
            Some(i) => {
                let mut entries = Vec::new();
                std::mem::swap(&mut entries, &mut self.entries);
                let old_entry = entries.remove(i);
                entries.push((code, id));
                let ghost new_entries = entries@;
                proof {
                    assert(entries_map(old_entries).contains_key(old_entries[i as int].0@));
                    assert(distinct_codes(new_entries)) by {
                        assert forall|a: int, b: int|
                            0 <= a < new_entries.len() && 0 <= b < new_entries.len() && a
                                != b implies new_entries[a].0@ != new_entries[b].0@ by {
                            let oa = if a < i { a } else if a < new_entries.len() - 1 { a + 1 } else { i as int };
                            let ob = if b < i { b } else if b < new_entries.len() - 1 { b + 1 } else { i as int };
                            assert(new_entries[a].0@ == old_entries[oa].0@);
                            assert(new_entries[b].0@ == old_entries[ob].0@);
                        }
                    }
                    lemma_entries_map(new_entries);
                    assert(entries_map(new_entries) =~= entries_map(old_entries).insert(
                        code@,
                        id@,
                    )) by {
                        assert forall|k: Seq<char>|
                            #[trigger] entries_map(new_entries).contains_key(k)
                                <==> entries_map(old_entries).insert(code@, id@).contains_key(
                                k,
                            ) by {
                            if entries_map(old_entries).contains_key(k) && k != code@ {
                                let j = choose|j: int|
                                    0 <= j < old_entries.len() && old_entries[j].0@ == k;
                                let nj = if j < i { j } else { j - 1 };
                                assert(new_entries[nj] == old_entries[j]);
                            }
                            if entries_map(new_entries).contains_key(k) && k != code@ {
                                let j = choose|j: int|
                                    0 <= j < new_entries.len() && new_entries[j].0@ == k;
                                let oj = if j < i { j } else if j < new_entries.len() - 1 { j + 1 } else { i as int };
                                assert(new_entries[j] == old_entries[oj]);
                            }
                        }
                        assert forall|k: Seq<char>|
                            #[trigger] entries_map(new_entries).contains_key(k) implies entries_map(
                                new_entries,
                            )[k] == entries_map(old_entries).insert(code@, id@)[k] by {
                            let j = choose|j: int|
                                0 <= j < new_entries.len() && new_entries[j].0@ == k;
                            if k != code@ {
                                let oj = if j < i { j } else if j < new_entries.len() - 1 { j + 1 } else { i as int };
                                assert(new_entries[j] == old_entries[oj]);
                            } else {
                                assert(new_entries[new_entries.len() - 1].0@ == code@);
                            }
                        }
                    }
                }
                self.entries = entries;
                Some(old_entry.1)
            },
            None => {
                let mut entries = Vec::new();
                std::mem::swap(&mut entries, &mut self.entries);
                entries.push((code, id));
                proof {
                    assert(entries@.drop_last() =~= old_entries);
                    assert(!entries_map(old_entries).contains_key(code@)) by {
                        if entries_map(old_entries).contains_key(code@) {
                            let j = choose|j: int|
                                0 <= j < old_entries.len() && old_entries[j].0@ == code@;
                        }
                    }
                }
                self.entries = entries;
                None
            },
        }
    }

    /// The entries of the map, each code once.
    pub fn pairs(&self) -> (r: &Vec<(String, String)>)
        ensures
            distinct_codes(r@),
            forall|i: int|
                0 <= i < r@.len() ==> #[trigger] self@.contains_key(r@[i].0@) && self@[r@[i].0@]
                    == r@[i].1@,
            forall|k: Seq<char>| #[trigger]
                self@.contains_key(k) ==> exists|i: int| 0 <= i < r@.len() && r@[i].0@ == k,
    {
        proof {
            use_type_invariant(self);
            lemma_entries_map(self.entries@);
        }
        &self.entries
    }
}

/// Reading a code right after inserting it gives the inserted id, and
/// every other code keeps what it mapped to.
pub proof fn law_emote_map_read_after_insert(
    before: EmoteMap,
    after: EmoteMap,
    code: String,
    id: String,
)
    requires
        after@ == before@.insert(code@, id@),
    ensures
        after@.contains_key(code@),
        after@[code@] == id@,
        forall|k: Seq<char>|
            k != code@ ==> (#[trigger] after@.contains_key(k) <==> before@.contains_key(k)) && (
            before@.contains_key(k) ==> after@[k] == before@[k]),
{
}

/// The body of a classification request: the channel, the message text and
/// the emotes the message contains.
pub struct ReqBody {
    pub channel: String,
    pub message: String,
    pub emotes: EmoteMap,
}

/// The address of the classification endpoint under the service's base
/// address.
pub fn classify_endpoint(base: String) -> (r: String)
    ensures
        r@ == base@ + "api/v1/hwis"@,
{
    base.concat("api/v1/hwis")
}

} // verus!
