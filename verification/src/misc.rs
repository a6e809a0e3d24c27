//! The image mapping of a book, and the list of operating systems.
//!
//! An image mapping associates the address of an image with the image tags
//! that refer to it. It is kept in the order in which addresses and tags were
//! first seen, so walking it gives the same order every time.

use vstd::prelude::*;
use vstd::string::StringExecFns;
use crate::text::same_text;
use crate::text::texts;

verus! {

/// The model of an image mapping: addresses in the order of their first
/// appearance, each with its tags in the order of their first appearance.
pub type Images = Seq<(Seq<char>, Seq<Seq<char>>)>;

/// Some entry of `entries` is for `address`.
pub open spec fn has_address(entries: Images, address: Seq<char>) -> bool {
    exists|i: int| 0 <= i < entries.len() && (#[trigger] entries[i]).0 == address
}

/// The index of the entry for `address`, where there is one.
pub open spec fn position_of(entries: Images, address: Seq<char>) -> int {
    choose|i: int| 0 <= i < entries.len() && (#[trigger] entries[i]).0 == address
}

/// No address has two entries, no entry holds a tag twice, and no entry is
/// without a tag.
pub open spec fn well_formed(entries: Images) -> bool {
    &&& forall|i: int, j: int|
        0 <= i < j < entries.len() ==> (#[trigger] entries[i]).0 != (#[trigger] entries[j]).0
    &&& forall|i: int|
        0 <= i < entries.len() ==> (#[trigger] entries[i]).1.no_duplicates() && entries[i].1.len()
            > 0
}

/// The set of tags recorded under `address`; empty where there is no entry.
pub open spec fn tags_under(entries: Images, address: Seq<char>) -> Set<Seq<char>> {
    if has_address(entries, address) {
        entries[position_of(entries, address)].1.to_set()
    } else {
        Set::empty()
    }
}

/// `entries` after `tag` was recorded under `address`: a tag that is already
/// there changes nothing, a new tag goes behind the others of its address, a
/// new address goes behind the other addresses.
pub open spec fn with_tag(entries: Images, address: Seq<char>, tag: Seq<char>) -> Images {
    if has_address(entries, address) {
        let i = position_of(entries, address);
        if entries[i].1.contains(tag) {
            entries
        } else {
            entries.update(i, (address, entries[i].1.push(tag)))
        }
    } else {
        entries.push((address, seq![tag]))
    }
}

/// `entries` after each of `tags` was recorded under `address`, first to last.
pub open spec fn with_tags(entries: Images, address: Seq<char>, tags: Seq<Seq<char>>) -> Images
    decreases tags.len(),
{
    if tags.len() == 0 {
        entries
    } else {
        with_tag(with_tags(entries, address, tags.drop_last()), address, tags.last())
    }
}

/// `a` after every tag of `b` was recorded in it, entry by entry.
pub open spec fn merged(a: Images, b: Images) -> Images
    decreases b.len(),
{
    if b.len() == 0 {
        a
    } else {
        with_tags(merged(a, b.drop_last()), b.last().0, b.last().1)
    }
}

/// In a well-formed mapping the entry of an address is the only one.
pub proof fn lemma_position_is_unique(entries: Images, i: int)
    requires
        well_formed(entries),
        0 <= i < entries.len(),
    ensures
        has_address(entries, entries[i].0),
        position_of(entries, entries[i].0) == i,
{
    let address = entries[i].0;
    let p = position_of(entries, address);
    assert(0 <= p < entries.len() && entries[p].0 == address);
    if p < i {
        assert(entries[p].0 != entries[i].0);
    } else if i < p {
        assert(entries[i].0 != entries[p].0);
    }
}

/// Recording a tag keeps a mapping well formed and adds the tag to the set
/// of its address, leaving every other address as it was.
pub proof fn lemma_with_tag(entries: Images, address: Seq<char>, tag: Seq<char>)
    requires
        well_formed(entries),
    ensures
        well_formed(with_tag(entries, address, tag)),
        forall|other: Seq<char>|
            #![trigger tags_under(with_tag(entries, address, tag), other)]
            tags_under(with_tag(entries, address, tag), other) == if other == address {
                tags_under(entries, address).insert(tag)
            } else {
                tags_under(entries, other)
            },
        forall|other: Seq<char>|
            #![trigger has_address(with_tag(entries, address, tag), other)]
            has_address(with_tag(entries, address, tag), other) == (other == address
                || has_address(entries, other)),
{
    let after = with_tag(entries, address, tag);
    if has_address(entries, address) {
        let i = position_of(entries, address);
        assert(0 <= i < entries.len() && entries[i].0 == address);
        if entries[i].1.contains(tag) {
            assert(tags_under(entries, address).insert(tag) =~= tags_under(entries, address));
            assert forall|other: Seq<char>| has_address(after, other) == (other == address
                || has_address(entries, other)) by {}
        } else {
            let grown = entries[i].1.push(tag);
            assert(after.len() == entries.len());
            assert(after[i] == (address, grown));
            assert(grown.no_duplicates()) by {
                assert forall|x: int, y: int| 0 <= x < grown.len() && 0 <= y < grown.len() && x
                    != y implies grown[x] != grown[y] by {
                    if x < entries[i].1.len() && y < entries[i].1.len() {
                        assert(entries[i].1[x] != entries[i].1[y]);
                    } else if x < entries[i].1.len() {
                        assert(entries[i].1[x] != tag);
                    } else {
                        assert(entries[i].1[y] != tag);
                    }
                }
            }
            assert forall|x: int| 0 <= x < after.len() implies (#[trigger] after[x]).0
                == entries[x].0 by {}
            assert(well_formed(after)) by {
                assert forall|x: int, y: int| 0 <= x < y < after.len() implies (
                #[trigger] after[x]).0 != (#[trigger] after[y]).0 by {
                    assert(entries[x].0 != entries[y].0);
                }
                assert forall|x: int| 0 <= x < after.len() implies (
                #[trigger] after[x]).1.no_duplicates() && after[x].1.len() > 0 by {
                    if x != i {
                        assert(after[x] == entries[x]);
                    }
                }
            }
            assert forall|other: Seq<char>| has_address(after, other) == (other == address
                || has_address(entries, other)) by {
                if has_address(after, other) {
                    let x = position_of(after, other);
                    assert(entries[x].0 == other);
                }
                if has_address(entries, other) {
                    let x = position_of(entries, other);
                    assert(after[x].0 == other);
                }
            }
            assert forall|other: Seq<char>|
                #![trigger tags_under(after, other)]
                tags_under(after, other) == if other == address {
                    tags_under(entries, address).insert(tag)
                } else {
                    tags_under(entries, other)
                } by {
                if has_address(entries, other) {
                    let x = position_of(entries, other);
                    assert(0 <= x < entries.len() && entries[x].0 == other);
                    assert(after[x].0 == other);
                    lemma_position_is_unique(after, x);
                    if other == address {
                        lemma_position_is_unique(entries, x);
                        assert(x == i);
                        assert(grown.to_set() =~= entries[i].1.to_set().insert(tag)) by {
                            assert forall|t: Seq<char>| grown.to_set().contains(t)
                                == entries[i].1.to_set().insert(tag).contains(t) by {
                                if grown.contains(t) {
                                    let k = choose|k: int| 0 <= k < grown.len() && grown[k] == t;
                                    if k < entries[i].1.len() {
                                        assert(entries[i].1[k] == t);
                                    }
                                }
                                if entries[i].1.contains(t) {
                                    let k = choose|k: int|
                                        0 <= k < entries[i].1.len() && entries[i].1[k] == t;
                                    assert(grown[k] == t);
                                }
                                if t == tag {
                                    assert(grown[grown.len() - 1] == t);
                                }
                            }
                        }
                    } else {
                        assert(x != i);
                        assert(after[x] == entries[x]);
                    }
                } else {
                    assert(!has_address(after, other));
                }
            }
        }
    } else {
        let n = entries.len() as int;
        assert(after.len() == n + 1);
        assert(after[n] == (address, seq![tag]));
        assert forall|x: int| 0 <= x < n implies (#[trigger] after[x]) == entries[x] by {}
        assert(seq![tag].no_duplicates());
        assert(well_formed(after)) by {
            assert forall|x: int, y: int| 0 <= x < y < after.len() implies (#[trigger] after[x]).0
                != (#[trigger] after[y]).0 by {
                if y < n {
                    assert(entries[x].0 != entries[y].0);
                } else {
                    assert(entries[x].0 != address);
                }
            }
            assert forall|x: int| 0 <= x < after.len() implies (
            #[trigger] after[x]).1.no_duplicates() && after[x].1.len() > 0 by {
                if x < n {
                    assert(after[x] == entries[x]);
                }
            }
        }
        assert forall|other: Seq<char>| has_address(after, other) == (other == address
            || has_address(entries, other)) by {
            if has_address(after, other) {
                let x = position_of(after, other);
                if x < n {
                    assert(entries[x].0 == other);
                }
            }
            if has_address(entries, other) {
                let x = position_of(entries, other);
                assert(after[x].0 == other);
            }
            if other == address {
                assert(after[n].0 == other);
            }
        }
        assert forall|other: Seq<char>|
            #![trigger tags_under(after, other)]
            tags_under(after, other) == if other == address {
                tags_under(entries, address).insert(tag)
            } else {
                tags_under(entries, other)
            } by {
            if other == address {
                lemma_position_is_unique(after, n);
                assert(seq![tag].to_set() =~= Set::<Seq<char>>::empty().insert(tag)) by {
                    assert(seq![tag][0] == tag);
                }
            } else if has_address(entries, other) {
                let x = position_of(entries, other);
                assert(0 <= x < n && entries[x].0 == other);
                assert(after[x].0 == other);
                lemma_position_is_unique(after, x);
            } else {
                assert(!has_address(after, other));
            }
        }
    }
}

/// Recording several tags under one address keeps a mapping well formed and
/// adds exactly those tags to the set of the address.
pub proof fn lemma_with_tags(entries: Images, address: Seq<char>, tags: Seq<Seq<char>>)
    requires
        well_formed(entries),
    ensures
        well_formed(with_tags(entries, address, tags)),
        forall|other: Seq<char>|
            #![trigger tags_under(with_tags(entries, address, tags), other)]
            tags_under(with_tags(entries, address, tags), other) == if other == address {
                tags_under(entries, address).union(tags.to_set())
            } else {
                tags_under(entries, other)
            },
        forall|other: Seq<char>|
            #![trigger has_address(with_tags(entries, address, tags), other)]
            has_address(with_tags(entries, address, tags), other) == ((other == address
                && tags.len() > 0) || has_address(entries, other)),
    decreases tags.len(),
{
    if tags.len() == 0 {
        assert(tags.to_set() =~= Set::<Seq<char>>::empty());
        assert(tags_under(entries, address).union(tags.to_set()) =~= tags_under(
            entries,
            address,
        ));
    } else {
        let before = with_tags(entries, address, tags.drop_last());
        lemma_with_tags(entries, address, tags.drop_last());
        lemma_with_tag(before, address, tags.last());
        assert(tags.to_set() =~= tags.drop_last().to_set().insert(tags.last())) by {
            assert forall|t: Seq<char>| tags.to_set().contains(t) == tags.drop_last().to_set().insert(
                tags.last(),
            ).contains(t) by {
                if tags.contains(t) {
                    let k = choose|k: int| 0 <= k < tags.len() && tags[k] == t;
                    if k < tags.len() - 1 {
                        assert(tags.drop_last()[k] == t);
                    }
                }
                if tags.drop_last().contains(t) {
                    let k = choose|k: int| 0 <= k < tags.drop_last().len() && tags.drop_last()[k]
                        == t;
                    assert(tags[k] == t);
                }
                if t == tags.last() {
                    assert(tags[tags.len() - 1] == t);
                }
            }
        }
        let after = with_tags(entries, address, tags);
        assert(after == with_tag(before, address, tags.last()));
        assert(tags_under(after, address) =~= tags_under(entries, address).union(tags.to_set()));
    }
}

/// Merging is a union: the merged mapping is well formed, it has an entry
/// for exactly the addresses of either mapping, and under each address it
/// holds the tags that either mapping holds there.
pub proof fn lemma_merged_is_union(a: Images, b: Images)
    requires
        well_formed(a),
        well_formed(b),
    ensures
        well_formed(merged(a, b)),
        forall|address: Seq<char>|
            #![trigger has_address(merged(a, b), address)]
            has_address(merged(a, b), address) == (has_address(a, address) || has_address(
                b,
                address,
            )),
        forall|address: Seq<char>|
            #![trigger tags_under(merged(a, b), address)]
            tags_under(merged(a, b), address) == tags_under(a, address).union(
                tags_under(b, address),
            ),
    decreases b.len(),
{
    if b.len() == 0 {
        assert forall|address: Seq<char>|
            #![trigger tags_under(merged(a, b), address)]
            tags_under(merged(a, b), address) == tags_under(a, address).union(
                tags_under(b, address),
            ) by {
            assert(!has_address(b, address));
            assert(tags_under(a, address).union(Set::empty()) =~= tags_under(a, address));
        }
    } else {
        let front = b.drop_last();
        let last = b.last();
        let n = b.len() - 1;
        assert(well_formed(front)) by {
            assert forall|i: int| 0 <= i < front.len() implies #[trigger] front[i] == b[i] by {}
            assert forall|i: int, j: int| 0 <= i < j < front.len() implies (#[trigger] front[i]).0
                != (#[trigger] front[j]).0 by {
                assert(b[i].0 != b[j].0);
            }
        }
        lemma_merged_is_union(a, front);
        let before = merged(a, front);
        lemma_with_tags(before, last.0, last.1);
        assert forall|address: Seq<char>|
            #![trigger has_address(b, address)]
            has_address(b, address) == (address == last.0 || has_address(front, address)) by {
            if has_address(b, address) {
                let x = position_of(b, address);
                if x < n {
                    assert(front[x].0 == address);
                }
            }
            if has_address(front, address) {
                let x = position_of(front, address);
                assert(b[x].0 == address);
            }
            if address == last.0 {
                assert(b[n].0 == address);
            }
        }
        assert(!has_address(front, last.0)) by {
            if has_address(front, last.0) {
                let x = position_of(front, last.0);
                assert(b[x].0 != b[n].0);
            }
        }
        assert forall|address: Seq<char>|
            #![trigger tags_under(merged(a, b), address)]
            tags_under(merged(a, b), address) == tags_under(a, address).union(
                tags_under(b, address),
            ) by {
            if address == last.0 {
                lemma_position_is_unique(b, n);
                assert(tags_under(b, address) == last.1.to_set());
                assert(tags_under(front, address) == Set::<Seq<char>>::empty());
                assert(tags_under(a, address).union(Set::empty()).union(last.1.to_set())
                    =~= tags_under(a, address).union(last.1.to_set()));
            } else if has_address(front, address) {
                let x = position_of(front, address);
                assert(0 <= x < n && front[x].0 == address);
                assert(b[x].0 == address);
                lemma_position_is_unique(b, x);
                assert(tags_under(b, address) == tags_under(front, address));
            } else {
                assert(!has_address(b, address));
            }
        }
    }
}

/// Recording tags that an entry already holds changes nothing.
proof fn lemma_with_known_tags(entries: Images, i: int, count: int)
    requires
        well_formed(entries),
        0 <= i < entries.len(),
        0 <= count <= entries[i].1.len(),
    ensures
        with_tags(entries, entries[i].0, entries[i].1.take(count)) == entries,
    decreases count,
{
    let address = entries[i].0;
    let tags = entries[i].1.take(count);
    if count > 0 {
        assert(tags.drop_last() == entries[i].1.take(count - 1));
        lemma_with_known_tags(entries, i, count - 1);
        lemma_position_is_unique(entries, i);
        assert(entries[i].1[count - 1] == tags.last());
        assert(entries[i].1.contains(tags.last()));
    }
}

/// Merging the first entries of a mapping into the mapping changes nothing.
proof fn lemma_merged_with_own_entries(a: Images, count: int)
    requires
        well_formed(a),
        0 <= count <= a.len(),
    ensures
        merged(a, a.take(count)) == a,
    decreases count,
{
    let b = a.take(count);
    if count > 0 {
        assert(b.drop_last() == a.take(count - 1));
        lemma_merged_with_own_entries(a, count - 1);
        assert(b.last() == a[count - 1]);
        lemma_with_known_tags(a, count - 1, a[count - 1].1.len() as int);
        assert(a[count - 1].1.take(a[count - 1].1.len() as int) == a[count - 1].1);
    }
}

/// Merging a mapping with itself gives the mapping back: nothing is added,
/// nothing moves.
pub proof fn lemma_merge_is_idempotent(a: Images)
    requires
        well_formed(a),
    ensures
        merged(a, a) == a,
{
    lemma_merged_with_own_entries(a, a.len() as int);
    assert(a.take(a.len() as int) == a);
}

/// One address with the tags that refer to it.
pub struct ImageEntry {
    pub address: String,
    pub tags: Vec<String>,
}

/// The image mapping of a book: from the address of an image to the distinct
/// image tags that were seen referring to it.
pub struct ImageMap {
    entries: Vec<ImageEntry>,
}

/// A copy of `tags`.
fn copied_tags(tags: &Vec<String>) -> (r: Vec<String>)
    ensures
        texts(r@) == texts(tags@),
{
    let mut r: Vec<String> = Vec::new();
    let mut i: usize = 0;
    while i < tags.len()
        invariant
            i <= tags@.len(),
            r@.len() == i,
            forall|k: int| 0 <= k < i ==> r@[k]@ == tags@[k]@,
        decreases tags@.len() - i,
    {
        r.push(tags[i].clone());
        i = i + 1;
    }
    assert(texts(r@) =~= texts(tags@));
    r
}

/// The model of a list of entries.
pub open spec fn images_of(entries: Seq<ImageEntry>) -> Images {
    Seq::new(entries.len(), |i: int| (entries[i].address@, texts(entries[i].tags@)))
}

impl ImageMap {
    /// The entries in order, each as its address and its tags.
    pub closed spec fn view(&self) -> Images {
        images_of(self.entries@)
    }

    #[verifier::type_invariant]
    spec fn valid(&self) -> bool {
        well_formed(self@)
    }

    /// The mapping without entries.
    pub fn new() -> (r: Self)
        ensures
            r@ == Seq::<(Seq<char>, Seq<Seq<char>>)>::empty(),
    {
        let entries: Vec<ImageEntry> = Vec::new();
        assert(images_of(entries@) =~= Seq::<(Seq<char>, Seq<Seq<char>>)>::empty());
        ImageMap { entries }
    }

    /// The number of addresses. Every mapping is well formed, and a caller
    /// learns so here.
    pub fn len(&self) -> (r: usize)
        ensures
            r == self@.len(),
            well_formed(self@),
    {
        proof {
            use_type_invariant(self);
        }
        self.entries.len()
    }

    /// The address of entry `i`.
    pub fn address(&self, i: usize) -> (r: &String)
        requires
            i < self@.len(),
        ensures
            r@ == self@[i as int].0,
    {
        &self.entries[i].address
    }

    /// The tags of entry `i`, in the order in which they were first seen.
    pub fn tags(&self, i: usize) -> (r: &Vec<String>)
        requires
            i < self@.len(),
        ensures
            texts(r@) == self@[i as int].1,
    {
        &self.entries[i].tags
    }

    /// The index of the entry for `address`.
    pub fn find(&self, address: &str) -> (r: Option<usize>)
        ensures
            r is Some == has_address(self@, address@),
            r matches Some(i) ==> i == position_of(self@, address@) && i < self@.len(),
    {
        proof {
            use_type_invariant(self);
        }
        let mut i: usize = 0;
        while i < self.entries.len()
            invariant
                i <= self.entries@.len(),
                self@.len() == self.entries@.len(),
                well_formed(self@),
                forall|k: int| 0 <= k < i ==> (#[trigger] self@[k]).0 != address@,
            decreases self.entries@.len() - i,
        {
            if same_text(self.entries[i].address.as_str(), address) {
                proof {
                    assert(self@[i as int].0 == address@);
                    lemma_position_is_unique(self@, i as int);
                }
                return Some(i);
            }
            i = i + 1;
        }
        None
    }

    /// The mapping with `tag` recorded under `address`.
    pub fn insert(self, address: &str, tag: &str) -> (r: Self)
        ensures
            r@ == with_tag(self@, address@, tag@),
    {
        proof {
            use_type_invariant(&self);
            lemma_with_tag(self@, address@, tag@);
        }
        let ghost before = self@;
        let found = self.find(address);
        let mut entries = self.entries;
        match found {
            Some(i) => {
                let tags = &entries[i].tags;
                let mut known = false;
                let mut j: usize = 0;
                assert(texts(tags@).take(0) =~= Seq::<Seq<char>>::empty());
                while j < tags.len()
                    invariant
                        j <= tags@.len(),
                        known == texts(tags@).take(j as int).contains(tag@),
                    decreases tags@.len() - j,
                {
                    if same_text(tags[j].as_str(), tag) {
                        assert(texts(tags@).take(j + 1)[j as int] == tag@);
                        known = true;
                    } else {
                        proof {
                            let shorter = texts(tags@).take(j as int);
                            let longer = texts(tags@).take(j + 1);
                            if longer.contains(tag@) {
                                let k = choose|k: int| 0 <= k < longer.len() && longer[k] == tag@;
                                assert(shorter[k] == tag@);
                            }
                            if shorter.contains(tag@) {
                                let k = choose|k: int|
                                    0 <= k < shorter.len() && shorter[k] == tag@;
                                assert(longer[k] == tag@);
                            }
                        }
                    }
                    j = j + 1;
                }
                assert(texts(tags@).take(tags@.len() as int) == texts(tags@));
                if !known {
                    let mut grown = copied_tags(tags);
                    grown.push(String::from_str(tag));
                    let entry = ImageEntry { address: String::from_str(address), tags: grown };
                    assert(texts(grown@) =~= before[i as int].1.push(tag@));
                    entries.set(i, entry);
                }
                assert(images_of(entries@) =~= with_tag(before, address@, tag@));
                ImageMap { entries }
            },
            None => {
                let mut tags: Vec<String> = Vec::new();
                tags.push(String::from_str(tag));
                assert(texts(tags@) =~= seq![tag@]);
                let entry = ImageEntry { address: String::from_str(address), tags };
                entries.push(entry);
                assert(images_of(entries@) =~= before.push((address@, seq![tag@])));
                ImageMap { entries }
            },
        }
    }
}

/// Merging of image mappings.
pub trait HashMapExt: Sized {
    /// The mapping as its entries in order.
    spec fn entries(&self) -> Images;

    /// Merges two mappings, returning the merged mapping: the entries of
    /// `self`, then what `other` adds, with no tag recorded twice under one
    /// address.
    fn join(self, other: Self) -> (r: Self)
        ensures
            r.entries() == merged(self.entries(), other.entries()),
    ;
}

impl HashMapExt for ImageMap {
    open spec fn entries(&self) -> Images {
        self@
    }

    fn join(self, other: Self) -> (r: Self) {
        let ghost start = self@;
        let mut result = self;
        let mut i: usize = 0;
        assert(other@.take(0) =~= Seq::<(Seq<char>, Seq<Seq<char>>)>::empty());
        while i < other.len()
            invariant
                i <= other@.len(),
                result@ == merged(start, other@.take(i as int)),
            decreases other@.len() - i,
        {
            let address = other.address(i);
            let tags = other.tags(i);
            let ghost before = result@;
            let mut j: usize = 0;
            assert(texts(tags@).take(0) =~= Seq::<Seq<char>>::empty());
            while j < tags.len()
                invariant
                    j <= tags@.len(),
                    result@ == with_tags(before, address@, texts(tags@).take(j as int)),
                decreases tags@.len() - j,
            {
                result = result.insert(address.as_str(), tags[j].as_str());
                proof {
                    let grown = texts(tags@).take(j + 1);
                    assert(grown.drop_last() == texts(tags@).take(j as int));
                    assert(grown.last() == tags@[j as int]@);
                }
                j = j + 1;
            }
            proof {
                let grown = other@.take(i + 1);
                assert(grown.drop_last() == other@.take(i as int));
                assert(grown.last() == other@[i as int]);
                assert(texts(tags@).take(tags@.len() as int) == texts(tags@));
            }
            i = i + 1;
        }
        assert(other@.take(other@.len() as int) == other@);
        result
    }
}

/// A list of Oses for error handling purposes.
#[derive(Debug, Clone, Copy, PartialEq, Eq, Structural)]
pub enum Oses {
    Windows,
    Linux,
    MacOs,
    OtherUnknownOs,
}

impl Oses {
    /// The name of the system, as it is shown in messages.
    pub open spec fn name(self) -> Seq<char> {
        match self {
            Oses::Windows => "Windows"@,
            Oses::Linux => "Linux"@,
            Oses::MacOs => "MacOs"@,
            Oses::OtherUnknownOs => "OtherUnknownOs"@,
        }
    }

    /// The name of the system as a string.
    pub fn to_text(&self) -> (r: String)
        ensures
            r@ == self.name(),
    {
        match self {
            Oses::Windows => String::from_str("Windows"),
            Oses::Linux => String::from_str("Linux"),
            Oses::MacOs => String::from_str("MacOs"),
            Oses::OtherUnknownOs => String::from_str("OtherUnknownOs"),
        }
    }
}

} // verus!
